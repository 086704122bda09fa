//! Preparing recognised text for typing into the focused window.
use vstd::prelude::*;
use crate::text::{chars_of, is_whitespace, string_from_chars, white_space};

verus! {

broadcast use vstd::string::group_string_axioms;

/// Whether text typed after `previous` needs a separating space: it does when
/// `previous` is empty or does not end in whitespace.
pub open spec fn space_needed_after(previous: Seq<char>) -> bool {
    previous.len() == 0 || !white_space(previous.last())
}

/// The text to type for a new utterance `text`, given the text typed last:
/// a space is put in front when the last text did not end in whitespace and
/// the new text does not start with it.
pub open spec fn injection_text(previous: Seq<char>, text: Seq<char>) -> Seq<char> {
    if space_needed_after(previous) && !(text.len() > 0 && white_space(text[0])) {
        seq![' '] + text
    } else {
        text
    }
}

/// Whether text typed after `text` needs a separating space: true when `text`
/// has no trailing whitespace, the empty text included.
pub fn needs_space_before(text: &str) -> (r: bool)
    ensures
        r == space_needed_after(text@),
{
    let v = chars_of(text);
    let n = v.len();
    if n == 0 {
        true
    } else {
        !is_whitespace(v[n - 1])
    }
}

/// The text to type for the utterance `text`, given the text `previous` typed last.
pub fn text_to_inject(previous: &str, text: &str) -> (r: String)
    ensures
        r@ == injection_text(previous@, text@),
{
    let t = chars_of(text);
    let starts_with_space = t.len() > 0 && is_whitespace(t[0]);
    if needs_space_before(previous) && !starts_with_space {
        let mut out: Vec<char> = Vec::new();
        out.push(' ');
        let mut k: usize = 0;
        while k < t.len()
            invariant
                k <= t@.len(),
                out@ == seq![' '] + t@.subrange(0, k as int),
            decreases t@.len() - k,
        {
            out.push(t[k]);
            k = k + 1;
        }
        assert(t@.subrange(0, t@.len() as int) =~= t@);
        string_from_chars(&out)
    } else {
        string_from_chars(&t)
    }
}

/// The 16-bit scan code sent for a character: its code point truncated to 16 bits.
pub open spec fn scan_code(c: char) -> u16 {
    (c as u32 % 0x10000) as u16
}

/// The scan codes to send, one per character of `text`, in order.
pub fn scan_codes(text: &str) -> (r: Vec<u16>)
    ensures
        r@.len() == text@.len(),
        forall|i: int| 0 <= i < r@.len() ==> r@[i] == scan_code(#[trigger] text@[i]),
{
    let v = chars_of(text);
    let mut r: Vec<u16> = Vec::new();
    let mut i: usize = 0;
    while i < v.len()
        invariant
            v@ == text@,
            i <= v@.len(),
            r@.len() == i,
            forall|k: int| 0 <= k < i ==> r@[k] == scan_code(#[trigger] text@[k]),
        decreases v@.len() - i,
    {
        let code: u32 = v[i] as u32;
        r.push((code % 0x10000) as u16);
        i = i + 1;
    }
    r
}

/// Typing consecutive utterances never glues two words together: after text
/// that does not end in whitespace, the next piece typed starts with a space
/// or with the utterance's own leading whitespace.
pub proof fn law_utterances_stay_separated(previous: Seq<char>, text: Seq<char>)
    requires
        previous.len() > 0,
        !white_space(previous.last()),
        text.len() > 0,
    ensures
        injection_text(previous, text)[0] == ' ' || white_space(injection_text(previous, text)[0]),
{
}

/// Typed text only ever gains a single leading space: the piece typed is the
/// utterance itself, or a space followed by it.
pub proof fn law_injection_keeps_text(previous: Seq<char>, text: Seq<char>)
    ensures
        injection_text(previous, text) == text || injection_text(previous, text) == seq![' '] + text,
{
}

/// A space is put in front only when the last text typed is empty or ends in
/// something other than whitespace, and the new text does not start with
/// whitespace; otherwise the utterance is typed as it is.
pub proof fn law_space_only_when_needed(previous: Seq<char>, text: Seq<char>)
    ensures
        previous.len() > 0 && white_space(previous.last()) ==> injection_text(previous, text)
            == text,
        text.len() > 0 && white_space(text[0]) ==> injection_text(previous, text) == text,
        (previous.len() == 0 || !white_space(previous.last())) && !(text.len() > 0 && white_space(
            text[0],
        )) ==> injection_text(previous, text) == seq![' '] + text,
{
}

} // verus!

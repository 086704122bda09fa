//! Turning recognised segments into the text that gets typed, and refusing
//! the filler phrases that a speech model tends to hallucinate on noise.
use vstd::prelude::*;
use crate::text::{
    chars_eq_str, chars_of, lowercase, split_words, string_from_chars,
    to_lowercase, trim, trim_chars, trim_end, trim_start, views, white_space, words,
};

verus! {

broadcast use vstd::string::group_string_axioms;

/// The phrases that, said alone, are taken for a hallucination of the model.
pub open spec fn filler_phrases() -> Seq<Seq<char>> {
    seq![
        "gracias"@, "gracias."@, "gracias,"@, "gracias punto"@, "thank you"@, "thank you."@,
        "thanks"@, "thanks."@, "subs"@, "subs."@, "subscribe"@, "subscribe."@, "please"@,
        "please."@, "ok"@, "ok."@, "okay"@, "okay."@, "punto"@, "punto."@, "punto,"@, "si"@,
        "si."@, "no"@, "no."@, "bien"@, "bien."@, "sí"@, "sí."@, "yes"@, "yes."@, "no."@,
        "the"@, "the."@, "a"@, "i"@, "um"@, "uh"@, "hmm"@, "mhm"@,
    ]
}

/// Whether `w` is one of the filler phrases.
pub open spec fn is_filler(w: Seq<char>) -> bool {
    filler_phrases().contains(w)
}

/// Whether the characters `w` form one of the filler phrases.
fn is_filler_chars(w: &Vec<char>) -> (r: bool)
    ensures
        r == is_filler(w@),
{
    let phrases: Vec<&str> = vec![
        "gracias", "gracias.", "gracias,", "gracias punto", "thank you", "thank you.",
        "thanks", "thanks.", "subs", "subs.", "subscribe", "subscribe.", "please",
        "please.", "ok", "ok.", "okay", "okay.", "punto", "punto.", "punto,", "si",
        "si.", "no", "no.", "bien", "bien.", "sí", "sí.", "yes", "yes.", "no.",
        "the", "the.", "a", "i", "um", "uh", "hmm", "mhm",
    ];
    let ghost listed = phrases@.map_values(|p: &str| p@);
    assert(listed =~= filler_phrases());
    let mut i: usize = 0;
    while i < phrases.len()
        invariant
            listed == phrases@.map_values(|p: &str| p@),
            listed == filler_phrases(),
            i <= phrases@.len(),
            forall|k: int| 0 <= k < i ==> listed[k] != w@,
        decreases phrases@.len() - i,
    {
        if chars_eq_str(w, phrases[i]) {
            assert(listed[i as int] == w@);
            return true;
        }
        i = i + 1;
    }
    false
}

/// Whether `c` is trailing punctuation that the filter ignores.
pub open spec fn is_trailing_mark(c: char) -> bool {
    c == '.' || c == ',' || c == '!' || c == '?'
}

/// `s` without its trailing `.`, `,`, `!` and `?` characters.
pub open spec fn strip_trailing_marks(s: Seq<char>) -> Seq<char>
    decreases s.len(),
{
    if s.len() > 0 && is_trailing_mark(s.last()) {
        strip_trailing_marks(s.drop_last())
    } else {
        s
    }
}

/// Dropping a suffix of marks does not change `strip_trailing_marks`.
proof fn lemma_strip_marks_cut(s: Seq<char>, k: int)
    requires
        0 <= k <= s.len(),
        forall|j: int| k <= j < s.len() ==> is_trailing_mark(#[trigger] s[j]),
    ensures
        strip_trailing_marks(s) == strip_trailing_marks(s.subrange(0, k)),
    decreases s.len() - k,
{
    if k < s.len() {
        let t = s.drop_last();
        assert forall|j: int| k <= j < t.len() implies is_trailing_mark(#[trigger] t[j]) by {
            assert(t[j] == s[j]);
        }
        lemma_strip_marks_cut(t, k);
        assert(t.subrange(0, k) =~= s.subrange(0, k));
    } else {
        assert(s.subrange(0, k) =~= s);
    }
}

/// The characters of `v` without trailing `.`, `,`, `!` and `?`.
fn strip_marks_chars(v: &Vec<char>) -> (r: Vec<char>)
    ensures
        r@ == strip_trailing_marks(v@),
{
    let n = v.len();
    let mut j: usize = n;
    while j > 0 && (v[j - 1] == '.' || v[j - 1] == ',' || v[j - 1] == '!' || v[j - 1] == '?')
        invariant
            n == v@.len(),
            j <= n,
            forall|k: int| j <= k < n ==> is_trailing_mark(#[trigger] v@[k]),
        decreases j,
    {
        j = j - 1;
    }
    let mut r: Vec<char> = Vec::new();
    let mut k: usize = 0;
    while k < j
        invariant
            n == v@.len(),
            k <= j <= n,
            r@ == v@.subrange(0, k as int),
        decreases j - k,
    {
        r.push(v[k]);
        k = k + 1;
    }
    proof {
        lemma_strip_marks_cut(v@, j as int);
        let u = v@.subrange(0, j as int);
        if j > 0 {
            assert(u.last() == v@[j - 1]);
        }
        assert(strip_trailing_marks(u) == u);
    }
    r
}

/// Whether a lower-cased, trimmed transcript is a filler: the whole text, or
/// the text without trailing punctuation, is a filler phrase; or that cleaned
/// text is at most two words and fifteen characters long and one of its words
/// is a filler phrase.
pub open spec fn filler_verdict(lower: Seq<char>) -> bool {
    let cleaned = trim(strip_trailing_marks(lower));
    let ws = words(cleaned);
    ||| is_filler(lower)
    ||| is_filler(cleaned)
    ||| (ws.len() <= 2 && cleaned.len() <= 15 && exists|k: int|
        0 <= k < ws.len() && is_filler(#[trigger] ws[k]))
}

/// Whether a transcript is taken for a hallucination: the verdict on its
/// trimmed, lower-cased text.
pub open spec fn hallucination(text: Seq<char>) -> bool {
    filler_verdict(lowercase(trim(text)))
}

/// The filler verdict on a transcript that is already trimmed and lower-cased.
pub fn is_filler_transcript(lower: &str) -> (r: bool)
    ensures
        r == filler_verdict(lower@),
{
    let lv = chars_of(lower);
    let stripped = strip_marks_chars(&lv);
    let cleaned = trim_chars(&stripped);
    if is_filler_chars(&lv) || is_filler_chars(&cleaned) {
        return true;
    }
    let ws = split_words(&cleaned);
    if ws.len() <= 2 && cleaned.len() <= 15 {
        let mut k: usize = 0;
        while k < ws.len()
            invariant
                views(ws@) == words(cleaned@),
                cleaned@ == trim(strip_trailing_marks(lower@)),
                ws@.len() <= 2,
                cleaned@.len() <= 15,
                k <= ws@.len(),
                forall|q: int| 0 <= q < k ==> !is_filler(#[trigger] views(ws@)[q]),
            decreases ws@.len() - k,
        {
            if is_filler_chars(&ws[k]) {
                assert(views(ws@)[k as int] == ws@[k as int]@);
                assert(is_filler(words(cleaned@)[k as int]));
                assert(words(cleaned@).len() == ws@.len());
                return true;
            }
            k = k + 1;
        }
        assert(forall|q: int| 0 <= q < words(cleaned@).len() ==> !is_filler(#[trigger] words(cleaned@)[q]));
    }
    false
}

/// Whether a transcript is taken for a hallucination of the speech model.
pub fn is_hallucination(text: &str) -> (r: bool)
    ensures
        r == hallucination(text@),
{
    let trimmed = crate::text::trim_str(text);
    let trimmed_text = string_from_chars(&trimmed);
    let lower = to_lowercase(trimmed_text.as_str());
    is_filler_transcript(lower.as_str())
}

/// The text made of the readable segments: each one trimmed, the empty ones
/// left out, the rest joined by single spaces.
pub open spec fn transcript_text(segments: Seq<Option<Seq<char>>>) -> Seq<char>
    decreases segments.len(),
{
    if segments.len() == 0 {
        seq![]
    } else {
        let before = transcript_text(segments.drop_last());
        match segments.last() {
            Some(s) => if trim(s).len() == 0 {
                before
            } else if before.len() == 0 {
                trim(s)
            } else {
                before + seq![' '] + trim(s)
            },
            None => before,
        }
    }
}

/// The segments taken by their characters; `None` for one that could not be read.
pub open spec fn segment_views(segments: Seq<Option<String>>) -> Seq<Option<Seq<char>>> {
    segments.map_values(
        |o: Option<String>|
            match o {
                Some(s) => Some(s@),
                None => None,
            },
    )
}

/// What the transcription of one utterance hands on for typing: the joined
/// text, unless it is empty or taken for a hallucination.
pub open spec fn accepted_transcript(segments: Seq<Option<Seq<char>>>) -> Option<Seq<char>> {
    let text = transcript_text(segments);
    if trim(text).len() == 0 {
        None
    } else if hallucination(trim(text)) {
        None
    } else {
        Some(text)
    }
}

/// Joins the readable segments of a recognition result into one line of text.
pub fn join_segments(segments: &Vec<Option<String>>) -> (r: String)
    ensures
        r@ == transcript_text(segment_views(segments@)),
{
    let ghost segs = segment_views(segments@);
    let mut text: Vec<char> = Vec::new();
    let mut i: usize = 0;
    while i < segments.len()
        invariant
            segs == segment_views(segments@),
            i <= segments@.len(),
            text@ == transcript_text(segs.take(i as int)),
        decreases segments@.len() - i,
    {
        let ghost pre = segs.take(i as int);
        let ghost post = segs.take(i + 1);
        assert(post.drop_last() =~= pre);
        assert(post.last() == segs[i as int]);
        match &segments[i] {
            Some(seg) => {
                let t = crate::text::trim_str(seg.as_str());
                if t.len() > 0 {
                    let ghost before = text@;
                    if text.len() > 0 {
                        text.push(' ');
                    }
                    let mut k: usize = 0;
                    let ghost base = text@;
                    while k < t.len()
                        invariant
                            k <= t@.len(),
                            text@ == base + t@.subrange(0, k as int),
                        decreases t@.len() - k,
                    {
                        text.push(t[k]);
                        k = k + 1;
                    }
                    proof {
                        assert(t@.subrange(0, t@.len() as int) =~= t@);
                        if before.len() > 0 {
                            assert(text@ =~= before + seq![' '] + t@);
                        } else {
                            assert(text@ =~= t@);
                        }
                    }
                }
            },
            None => {},
        }
        i = i + 1;
    }
    assert(segs.take(segments@.len() as int) =~= segs);
    string_from_chars(&text)
}

/// Finishes the transcription of one utterance: the joined text of the
/// readable segments, or nothing when it is empty or a hallucination.
pub fn finish_transcript(segments: &Vec<Option<String>>) -> (r: Option<String>)
    ensures
        match r {
            Some(t) => accepted_transcript(segment_views(segments@)) == Some(t@),
            None => accepted_transcript(segment_views(segments@)) is None,
        },
{
    let text = join_segments(segments);
    let trimmed = crate::text::trim_str(text.as_str());
    if trimmed.len() == 0 {
        return None;
    }
    let trimmed_text = string_from_chars(&trimmed);
    if is_hallucination(trimmed_text.as_str()) {
        return None;
    }
    Some(text)
}

/// A trimmed non-empty text starts and ends with a non-whitespace character.
pub proof fn lemma_trim_edges(s: Seq<char>)
    ensures
        trim(s).len() > 0 ==> !white_space(trim(s)[0]) && !white_space(trim(s).last()),
        trim(trim(s)) == trim(s),
{
    lemma_trim_start_edge(s);
    let t = trim_start(s);
    lemma_trim_end_keeps_start(t);
    lemma_trim_end_edge(t);
    let u = trim_end(t);
    if u.len() > 0 {
        assert(!white_space(u[0]));
        assert(!white_space(u.last()));
    }
    assert(trim_start(u) == u);
    assert(trim_end(u) == u);
}

/// `trim_start` leaves a string that is empty or starts with a non-whitespace character.
proof fn lemma_trim_start_edge(s: Seq<char>)
    ensures
        trim_start(s).len() > 0 ==> !white_space(trim_start(s)[0]),
        trim_start(s).len() <= s.len(),
    decreases s.len(),
{
    if s.len() > 0 && white_space(s[0]) {
        lemma_trim_start_edge(s.drop_first());
    }
}

/// `trim_end` leaves a string that is empty or ends with a non-whitespace character.
proof fn lemma_trim_end_edge(s: Seq<char>)
    ensures
        trim_end(s).len() > 0 ==> !white_space(trim_end(s).last()),
    decreases s.len(),
{
    if s.len() > 0 && white_space(s.last()) {
        lemma_trim_end_edge(s.drop_last());
    }
}

/// `trim_end` keeps a prefix of its argument: a non-empty result starts with
/// the same character.
proof fn lemma_trim_end_keeps_start(s: Seq<char>)
    ensures
        trim_end(s).len() <= s.len(),
        trim_end(s).len() > 0 ==> trim_end(s)[0] == s[0],
    decreases s.len(),
{
    if s.len() > 0 && white_space(s.last()) {
        lemma_trim_end_keeps_start(s.drop_last());
    }
}

/// A string that is empty or has non-whitespace characters at both ends is its own trim.
proof fn lemma_trim_of_edged(s: Seq<char>)
    requires
        s.len() > 0 ==> !white_space(s[0]) && !white_space(s.last()),
    ensures
        trim(s) == s,
{
}

/// The joined transcript is empty or starts and ends with a non-whitespace character.
proof fn lemma_transcript_edges(segments: Seq<Option<Seq<char>>>)
    ensures
        transcript_text(segments).len() > 0 ==> !white_space(transcript_text(segments)[0])
            && !white_space(transcript_text(segments).last()),
    decreases segments.len(),
{
    if segments.len() > 0 {
        lemma_transcript_edges(segments.drop_last());
        let before = transcript_text(segments.drop_last());
        match segments.last() {
            Some(s) => {
                lemma_trim_edges(s);
                if trim(s).len() > 0 && before.len() > 0 {
                    let j = before + seq![' '] + trim(s);
                    assert(j[0] == before[0]);
                    assert(j.last() == trim(s).last());
                }
            },
            None => {},
        }
    }
}

/// The typed text never starts or ends with whitespace: the joined transcript
/// is its own trim.
pub proof fn law_transcript_is_trimmed(segments: Seq<Option<Seq<char>>>)
    ensures
        trim(transcript_text(segments)) == transcript_text(segments),
{
    lemma_transcript_edges(segments);
    lemma_trim_of_edged(transcript_text(segments));
}

/// A filler phrase said alone is never typed: when every readable segment,
/// trimmed, is one and the same filler phrase that is also a single segment,
/// the transcript is refused.
pub proof fn law_single_filler_refused(s: Seq<char>)
    requires
        is_filler(lowercase(trim(s))),
        trim(s).len() > 0,
    ensures
        accepted_transcript(seq![Some(s)]) is None,
{
    let segs = seq![Some(s)];
    assert(segs.drop_last() =~= Seq::<Option<Seq<char>>>::empty());
    assert(transcript_text(Seq::<Option<Seq<char>>>::empty()) == Seq::<char>::empty());
    assert(segs.last() == Some(s));
    assert(transcript_text(segs) == trim(s));
    lemma_trim_edges(s);
}

/// A cleaned text of at most two words and fifteen characters is refused as
/// soon as any one of its words, the last one included, is a filler phrase.
pub proof fn law_short_text_with_any_filler_word(lower: Seq<char>, k: int)
    requires
        words(trim(strip_trailing_marks(lower))).len() <= 2,
        trim(strip_trailing_marks(lower)).len() <= 15,
        0 <= k < words(trim(strip_trailing_marks(lower))).len(),
        is_filler(words(trim(strip_trailing_marks(lower)))[k]),
    ensures
        filler_verdict(lower),
{
    let ws = words(trim(strip_trailing_marks(lower)));
    assert(is_filler(ws[k]));
}

/// The words of a non-empty run of non-whitespace characters are that run alone.
proof fn lemma_words_of_run(a: Seq<char>)
    requires
        a.len() > 0,
        forall|i: int| 0 <= i < a.len() ==> !white_space(#[trigger] a[i]),
    ensures
        words(a) == seq![a],
    decreases a.len(),
{
    if a.len() == 1 {
        assert(a.drop_last() =~= Seq::<char>::empty());
        assert(words(Seq::<char>::empty()) == Seq::<Seq<char>>::empty());
        assert(seq![a.last()] =~= a);
    } else {
        let p = a.drop_last();
        assert forall|i: int| 0 <= i < p.len() implies !white_space(#[trigger] p[i]) by {
            assert(p[i] == a[i]);
        }
        lemma_words_of_run(p);
        assert(a[a.len() - 2] == p[p.len() - 1]);
        assert(p.push(a.last()) =~= a);
        assert(seq![p].drop_last() =~= Seq::<Seq<char>>::empty());
        assert(Seq::<Seq<char>>::empty().push(a) =~= seq![a]);
    }
}

/// The words of two runs of non-whitespace characters joined by one
/// whitespace character are the two runs.
proof fn lemma_words_of_two_runs(a: Seq<char>, sep: char, b: Seq<char>, j: int)
    requires
        a.len() > 0,
        forall|i: int| 0 <= i < a.len() ==> !white_space(#[trigger] a[i]),
        forall|i: int| 0 <= i < b.len() ==> !white_space(#[trigger] b[i]),
        white_space(sep),
        1 <= j <= b.len(),
    ensures
        words(a + seq![sep] + b.take(j)) == seq![a, b.take(j)],
    decreases j,
{
    let s = a + seq![sep] + b.take(j);
    assert(s.last() == b[j - 1]);
    if j == 1 {
        let head = a + seq![sep];
        assert(s.drop_last() =~= head);
        assert(head.drop_last() =~= a);
        assert(head.last() == sep);
        lemma_words_of_run(a);
        assert(words(head) == seq![a]);
        assert(s[s.len() - 2] == sep);
        assert(seq![b[0]] =~= b.take(1));
        assert(seq![a].push(b.take(1)) =~= seq![a, b.take(1)]);
    } else {
        lemma_words_of_two_runs(a, sep, b, j - 1);
        assert(s.drop_last() =~= a + seq![sep] + b.take(j - 1));
        assert(s[s.len() - 2] == b[j - 2]);
        assert(b.take(j - 1).push(b[j - 1]) =~= b.take(j));
        assert(seq![a, b.take(j - 1)].drop_last() =~= seq![a]);
        assert(seq![a].push(b.take(j)) =~= seq![a, b.take(j)]);
    }
}

/// A two-word phrase of at most fifteen characters, words separated by a
/// single space, is refused when either word is a filler phrase.
pub proof fn law_two_word_phrase_with_filler(first: Seq<char>, second: Seq<char>)
    requires
        first.len() > 0,
        second.len() > 0,
        forall|i: int| 0 <= i < first.len() ==> !white_space(#[trigger] first[i]),
        forall|i: int| 0 <= i < second.len() ==> !white_space(#[trigger] second[i]),
        white_space(' '),
        !is_trailing_mark(second.last()),
        first.len() + second.len() + 1 <= 15,
        is_filler(first) || is_filler(second),
    ensures
        filler_verdict(first + seq![' '] + second),
{
    let s = first + seq![' '] + second;
    assert(s.last() == second.last());
    assert(strip_trailing_marks(s) == s);
    assert(s[0] == first[0]);
    lemma_trim_of_edged(s);
    assert(second.take(second.len() as int) =~= second);
    lemma_words_of_two_runs(first, ' ', second, second.len() as int);
    let ws = words(trim(strip_trailing_marks(s)));
    assert(ws == seq![first, second]);
    if is_filler(first) {
        assert(is_filler(ws[0]));
    } else {
        assert(is_filler(ws[1]));
    }
}

/// Whether an utterance is typed depends only on its joined text: two lists
/// of segments that join to the same text get the same result.
pub proof fn law_verdict_depends_only_on_joined_text(
    a: Seq<Option<Seq<char>>>,
    b: Seq<Option<Seq<char>>>,
)
    requires
        transcript_text(a) == transcript_text(b),
    ensures
        accepted_transcript(a) == accepted_transcript(b),
{
}

/// A joined text that is not blank and not taken for a hallucination is typed
/// as it is, whatever its segments hold on their own.
pub proof fn law_clean_transcript_is_typed(segments: Seq<Option<Seq<char>>>)
    requires
        trim(transcript_text(segments)).len() > 0,
        !hallucination(trim(transcript_text(segments))),
    ensures
        accepted_transcript(segments) == Some(transcript_text(segments)),
{
}

/// The filler phrases are exactly these.
pub proof fn law_filler_phrase_list(w: Seq<char>)
    ensures
        is_filler(w) <==> (w == "gracias"@
            || w == "gracias."@
            || w == "gracias,"@
            || w == "gracias punto"@
            || w == "thank you"@
            || w == "thank you."@
            || w == "thanks"@
            || w == "thanks."@
            || w == "subs"@
            || w == "subs."@
            || w == "subscribe"@
            || w == "subscribe."@
            || w == "please"@
            || w == "please."@
            || w == "ok"@
            || w == "ok."@
            || w == "okay"@
            || w == "okay."@
            || w == "punto"@
            || w == "punto."@
            || w == "punto,"@
            || w == "si"@
            || w == "si."@
            || w == "no"@
            || w == "no."@
            || w == "bien"@
            || w == "bien."@
            || w == "sí"@
            || w == "sí."@
            || w == "yes"@
            || w == "yes."@
            || w == "the"@
            || w == "the."@
            || w == "a"@
            || w == "i"@
            || w == "um"@
            || w == "uh"@
            || w == "hmm"@
            || w == "mhm"@),
{
    let f = filler_phrases();
    if is_filler(w) {
        let k = choose|k: int| 0 <= k < f.len() && f[k] == w;
        assert(0 <= k < f.len() && f[k] == w);
    }
    assert(f[0] == "gracias"@);
    assert(f[1] == "gracias."@);
    assert(f[2] == "gracias,"@);
    assert(f[3] == "gracias punto"@);
    assert(f[4] == "thank you"@);
    assert(f[5] == "thank you."@);
    assert(f[6] == "thanks"@);
    assert(f[7] == "thanks."@);
    assert(f[8] == "subs"@);
    assert(f[9] == "subs."@);
    assert(f[10] == "subscribe"@);
    assert(f[11] == "subscribe."@);
    assert(f[12] == "please"@);
    assert(f[13] == "please."@);
    assert(f[14] == "ok"@);
    assert(f[15] == "ok."@);
    assert(f[16] == "okay"@);
    assert(f[17] == "okay."@);
    assert(f[18] == "punto"@);
    assert(f[19] == "punto."@);
    assert(f[20] == "punto,"@);
    assert(f[21] == "si"@);
    assert(f[22] == "si."@);
    assert(f[23] == "no"@);
    assert(f[24] == "no."@);
    assert(f[25] == "bien"@);
    assert(f[26] == "bien."@);
    assert(f[27] == "sí"@);
    assert(f[28] == "sí."@);
    assert(f[29] == "yes"@);
    assert(f[30] == "yes."@);
    assert(f[31] == "no."@);
    assert(f[32] == "the"@);
    assert(f[33] == "the."@);
    assert(f[34] == "a"@);
    assert(f[35] == "i"@);
    assert(f[36] == "um"@);
    assert(f[37] == "uh"@);
    assert(f[38] == "hmm"@);
    assert(f[39] == "mhm"@);
}

/// A filler phrase said alone is refused, with or without trailing
/// punctuation and surrounding whitespace.
pub proof fn law_filler_alone_refused(lower: Seq<char>)
    requires
        is_filler(lower) || is_filler(trim(strip_trailing_marks(lower))),
    ensures
        filler_verdict(lower),
{
}

/// Text that is not itself a filler phrase passes when it has more than two
/// words, or more than fifteen characters, or no word that is a filler phrase.
pub proof fn law_real_speech_passes(lower: Seq<char>)
    requires
        !is_filler(lower),
        !is_filler(trim(strip_trailing_marks(lower))),
        words(trim(strip_trailing_marks(lower))).len() > 2 || trim(strip_trailing_marks(lower)).len()
            > 15 || forall|k: int|
            0 <= k < words(trim(strip_trailing_marks(lower))).len() ==> !is_filler(
                #[trigger] words(trim(strip_trailing_marks(lower)))[k],
            ),
    ensures
        !filler_verdict(lower),
{
}

/// Joining: a readable segment with text after a non-empty transcript adds a
/// single space and the segment's trimmed text; an unreadable or blank
/// segment adds nothing; the first text-bearing segment starts the transcript.
pub proof fn law_join_appends_trimmed_segment(segments: Seq<Option<Seq<char>>>, s: Seq<char>)
    ensures
        transcript_text(segments.push(None)) == transcript_text(segments),
        trim(s).len() == 0 ==> transcript_text(segments.push(Some(s))) == transcript_text(segments),
        trim(s).len() > 0 && transcript_text(segments).len() > 0 ==> transcript_text(
            segments.push(Some(s)),
        ) == transcript_text(segments) + seq![' '] + trim(s),
        trim(s).len() > 0 && transcript_text(segments).len() == 0 ==> transcript_text(
            segments.push(Some(s)),
        ) == trim(s),
{
    assert(segments.push(None).drop_last() =~= segments);
    assert(segments.push(Some(s)).drop_last() =~= segments);
}

} // verus!

//! Parsing of global hot-key descriptions such as `"Ctrl+Alt+F9"`.
//!
//! A description is split on `+`; every piece but the last names a modifier,
//! the last names the key.  The result is the Win32 modifier bit set and
//! virtual-key code that the system call registering the hot key expects.
use vstd::prelude::*;
use vstd::string::StrSliceExecFns;
use crate::text::{
    chars_eq_str, chars_of, parse_u32, parsed_u32, string_from_chars, to_uppercase,
    trim, trim_chars, uppercase, views,
};

verus! {

broadcast use vstd::string::group_string_axioms;

/// Win32 hot-key modifier bit for the Alt key.
pub const MOD_ALT: u32 = 0x0001;
/// Win32 hot-key modifier bit for the Control key.
pub const MOD_CONTROL: u32 = 0x0002;
/// Win32 hot-key modifier bit for the Shift key.
pub const MOD_SHIFT: u32 = 0x0004;
/// Win32 hot-key modifier bit for the Windows key.
pub const MOD_WIN: u32 = 0x0008;
/// Win32 hot-key modifier bit that suppresses auto-repeat.
pub const MOD_NOREPEAT: u32 = 0x4000;

/// Virtual-key code of F1; F2 to F24 follow it.
pub const VK_F1: u32 = 0x70;
/// Virtual-key code of the space bar.
pub const VK_SPACE: u32 = 0x20;
/// Virtual-key code of Escape.
pub const VK_ESCAPE: u32 = 0x1B;
/// Virtual-key code of Enter.
pub const VK_RETURN: u32 = 0x0D;
/// Virtual-key code of Tab.
pub const VK_TAB: u32 = 0x09;
/// Virtual-key code of Backspace.
pub const VK_BACK: u32 = 0x08;
/// Virtual-key code of Delete.
pub const VK_DELETE: u32 = 0x2E;

/// The modifier bit that a modifier name stands for; names are matched exactly,
/// case included.
pub open spec fn modifier_flag(name: Seq<char>) -> Option<u32> {
    if name == "Ctrl"@ || name == "Control"@ {
        Some(MOD_CONTROL)
    } else if name == "Alt"@ {
        Some(MOD_ALT)
    } else if name == "Shift"@ {
        Some(MOD_SHIFT)
    } else if name == "Win"@ || name == "Super"@ {
        Some(MOD_WIN)
    } else {
        None
    }
}

/// The virtual-key code that an upper-cased key name stands for.
///
/// A name that starts with `F` is a function key and nothing else: `F1` to
/// `F24`.  Then come the named keys, and last a single letter or digit, whose
/// code is its ASCII value.
pub open spec fn key_code(upper: Seq<char>) -> Option<u32> {
    if upper.len() > 0 && upper[0] == 'F' {
        match parsed_u32(upper.drop_first()) {
            Some(n) => if 1 <= n <= 24 {
                Some((VK_F1 + n - 1) as u32)
            } else {
                None
            },
            None => None,
        }
    } else if upper == "SPACE"@ {
        Some(VK_SPACE)
    } else if upper == "ESCAPE"@ || upper == "ESC"@ {
        Some(VK_ESCAPE)
    } else if upper == "ENTER"@ || upper == "RETURN"@ {
        Some(VK_RETURN)
    } else if upper == "TAB"@ {
        Some(VK_TAB)
    } else if upper == "BACKSPACE"@ {
        Some(VK_BACK)
    } else if upper == "DELETE"@ || upper == "DEL"@ {
        Some(VK_DELETE)
    } else if upper.len() == 1 && ('A' <= upper[0] <= 'Z' || '0' <= upper[0] <= '9') {
        Some(upper[0] as u32)
    } else {
        None
    }
}

/// The modifier bit named by `name`, matched exactly.
pub fn parse_modifier(name: &str) -> (r: Option<u32>)
    ensures
        r == modifier_flag(name@),
{
    let v = chars_of(name);
    modifier_of_chars(&v)
}

/// The modifier bit named by the characters `v`, matched exactly.
fn modifier_of_chars(v: &Vec<char>) -> (r: Option<u32>)
    ensures
        r == modifier_flag(v@),
{
    if chars_eq_str(v, "Ctrl") || chars_eq_str(v, "Control") {
        Some(MOD_CONTROL)
    } else if chars_eq_str(v, "Alt") {
        Some(MOD_ALT)
    } else if chars_eq_str(v, "Shift") {
        Some(MOD_SHIFT)
    } else if chars_eq_str(v, "Win") || chars_eq_str(v, "Super") {
        Some(MOD_WIN)
    } else {
        None
    }
}

/// The virtual-key code of a key name that is already upper-cased.
pub fn key_code_of_upper(upper: &str) -> (r: Option<u32>)
    ensures
        r == key_code(upper@),
{
    let v = chars_of(upper);
    let n = v.len();
    if n > 0 && v[0] == 'F' {
        let rest = upper.substring_char(1, n);
        assert(rest@ == upper@.drop_first());
        match parse_u32(rest) {
            Some(num) => {
                if 1 <= num && num <= 24 {
                    Some(VK_F1 + num - 1)
                } else {
                    None
                }
            },
            None => None,
        }
    } else if chars_eq_str(&v, "SPACE") {
        Some(VK_SPACE)
    } else if chars_eq_str(&v, "ESCAPE") || chars_eq_str(&v, "ESC") {
        Some(VK_ESCAPE)
    } else if chars_eq_str(&v, "ENTER") || chars_eq_str(&v, "RETURN") {
        Some(VK_RETURN)
    } else if chars_eq_str(&v, "TAB") {
        Some(VK_TAB)
    } else if chars_eq_str(&v, "BACKSPACE") {
        Some(VK_BACK)
    } else if chars_eq_str(&v, "DELETE") || chars_eq_str(&v, "DEL") {
        Some(VK_DELETE)
    } else if n == 1 && (('A' <= v[0] && v[0] <= 'Z') || ('0' <= v[0] && v[0] <= '9')) {
        Some(v[0] as u32)
    } else {
        None
    }
}

/// The virtual-key code of a key name, compared after Unicode upper-casing.
pub fn parse_vk(name: &str) -> (r: Option<u32>)
    ensures
        r == key_code(uppercase(name@)),
{
    let upper = to_uppercase(name);
    key_code_of_upper(upper.as_str())
}

/// The pieces of `s` between occurrences of `sep`, as `str::split` yields
/// them: empty pieces included, and always at least one piece.
pub open spec fn split_on(s: Seq<char>, sep: char) -> Seq<Seq<char>>
    decreases s.len(),
{
    if s.len() == 0 {
        seq![seq![]]
    } else {
        let before = split_on(s.drop_last(), sep);
        if s.last() == sep {
            before.push(seq![])
        } else {
            before.drop_last().push(before.last().push(s.last()))
        }
    }
}

/// `split_on` never yields an empty list of pieces.
pub proof fn lemma_split_on_nonempty(s: Seq<char>, sep: char)
    ensures
        split_on(s, sep).len() >= 1,
    decreases s.len(),
{
    if s.len() > 0 {
        lemma_split_on_nonempty(s.drop_last(), sep);
    }
}

/// The pieces of `v` between occurrences of `sep`.
pub fn split_chars(v: &Vec<char>, sep: char) -> (r: Vec<Vec<char>>)
    ensures
        views(r@) == split_on(v@, sep),
        r@.len() >= 1,
{
    let n = v.len();
    let mut done: Vec<Vec<char>> = Vec::new();
    let mut cur: Vec<char> = Vec::new();
    let mut i: usize = 0;
    assert(v@.take(0) =~= seq![]);
    assert(views(done@).push(cur@) =~= seq![seq![]]);
    while i < n
        invariant
            n == v@.len(),
            i <= n,
            views(done@).push(cur@) == split_on(v@.take(i as int), sep),
        decreases n - i,
    {
        let c = v[i];
        let ghost pre = v@.take(i as int);
        let ghost post = v@.take(i + 1);
        assert(post.drop_last() =~= pre);
        assert(post.last() == c);
        let ghost before = views(done@).push(cur@);
        if c == sep {
            let w = cur;
            let ghost old_done = done@;
            done.push(w);
            cur = Vec::new();
            assert(views(done@) =~= views(old_done).push(w@));
            assert(views(done@).push(cur@) =~= before.push(seq![]));
        } else {
            cur.push(c);
            assert(before.drop_last() =~= views(done@));
            assert(views(done@).push(cur@) =~= before.drop_last().push(before.last().push(c)));
        }
        i = i + 1;
    }
    assert(v@.take(n as int) =~= v@);
    let ghost old_done = done@;
    done.push(cur);
    assert(views(done@) =~= views(old_done).push(cur@));
    done
}

/// Reading the modifier names `names` in order: the union of their bits, or the
/// first name, trimmed, that is not a modifier.
pub open spec fn modifier_scan(names: Seq<Seq<char>>) -> Result<u32, Seq<char>>
    decreases names.len(),
{
    if names.len() == 0 {
        Ok(0)
    } else {
        match modifier_scan(names.drop_last()) {
            Err(bad) => Err(bad),
            Ok(bits) => match modifier_flag(trim(names.last())) {
                Some(flag) => Ok(bits | flag),
                None => Err(trim(names.last())),
            },
        }
    }
}

/// A parsed hot key: the modifier bits and the virtual-key code.
#[derive(Clone, Copy, Debug, PartialEq, Eq, Structural)]
pub struct HotkeyChord {
    pub modifiers: u32,
    pub vk: u32,
}

/// Why a hot-key description was refused, with the offending name.
#[derive(Debug)]
pub enum HotkeyError {
    /// A piece before the last `+` is not a modifier name.
    UnknownModifier(String),
    /// The last piece is not a key name.
    UnknownKey(String),
}

/// A refusal of a hot-key description, the offending name as characters.
pub enum HotkeyFault {
    UnknownModifier(Seq<char>),
    UnknownKey(Seq<char>),
}

impl HotkeyError {
    /// The refusal with the offending name taken by its characters.
    pub open spec fn fault(&self) -> HotkeyFault {
        match self {
            HotkeyError::UnknownModifier(name) => HotkeyFault::UnknownModifier(name@),
            HotkeyError::UnknownKey(name) => HotkeyFault::UnknownKey(name@),
        }
    }

    /// The text of the refusal, as it is reported to the user.
    pub fn message(&self) -> (r: String)
        ensures
            r@ == match self.fault() {
                HotkeyFault::UnknownModifier(name) => "unknown modifier: "@ + name,
                HotkeyFault::UnknownKey(name) => "unknown key: "@ + name,
            },
    {
        match self {
            HotkeyError::UnknownModifier(name) => {
                let mut r = String::from_str("unknown modifier: ");
                r.append(name.as_str());
                r
            },
            HotkeyError::UnknownKey(name) => {
                let mut r = String::from_str("unknown key: ");
                r.append(name.as_str());
                r
            },
        }
    }
}

/// What a hot-key description means: the modifier bits (with auto-repeat
/// suppressed) and key code, or the first refusal met.  Modifier names are
/// checked, in order, before the key name.
pub open spec fn hotkey_meaning(s: Seq<char>) -> Result<HotkeyChord, HotkeyFault> {
    let pieces = split_on(s, '+');
    let key = trim(pieces.last());
    match modifier_scan(pieces.drop_last()) {
        Err(bad) => Err(HotkeyFault::UnknownModifier(bad)),
        Ok(bits) => match key_code(uppercase(key)) {
            Some(vk) => Ok(HotkeyChord { modifiers: bits | MOD_NOREPEAT, vk }),
            None => Err(HotkeyFault::UnknownKey(key)),
        },
    }
}

/// The chord that the parser's result stands for, refusals taken by their names.
pub open spec fn parsed_chord(r: Result<HotkeyChord, HotkeyError>) -> Result<HotkeyChord, HotkeyFault> {
    match r {
        Ok(chord) => Ok(chord),
        Err(e) => Err(e.fault()),
    }
}

/// Parses a hot-key description such as `"Ctrl+Shift+R"` or `"F9"`.
pub fn parse_hotkey(description: &str) -> (r: Result<HotkeyChord, HotkeyError>)
    ensures
        parsed_chord(r) == hotkey_meaning(description@),
{
    let chars = chars_of(description);
    let pieces = split_chars(&chars, '+');
    let last = pieces.len() - 1;
    let ghost names = views(pieces@).drop_last();
    let mut bits: u32 = 0;
    let mut k: usize = 0;
    assert(names.take(0) =~= seq![]);
    while k < last
        invariant
            last + 1 == pieces@.len(),
            views(pieces@) == split_on(description@, '+'),
            names == views(pieces@).drop_last(),
            k <= last,
            modifier_scan(names.take(k as int)) == Ok::<u32, Seq<char>>(bits),
        decreases last - k,
    {
        let name = trim_chars(&pieces[k]);
        let ghost pre = names.take(k as int);
        let ghost post = names.take(k + 1);
        assert(post.drop_last() =~= pre);
        assert(post.last() == pieces@[k as int]@);
        match modifier_of_chars(&name) {
            Some(flag) => {
                bits = bits | flag;
            },
            None => {
                proof {
                    assert(modifier_scan(post) == Err::<u32, Seq<char>>(name@));
                    lemma_scan_error_persists(names, k as int + 1);
                }
                return Err(HotkeyError::UnknownModifier(string_from_chars(&name)));
            },
        }
        k = k + 1;
    }
    assert(names.take(last as int) =~= names);
    let key = trim_chars(&pieces[last]);
    assert(views(pieces@).last() == pieces@[last as int]@);
    let key_text = string_from_chars(&key);
    match parse_vk(key_text.as_str()) {
        Some(vk) => Ok(HotkeyChord { modifiers: bits | MOD_NOREPEAT, vk }),
        None => Err(HotkeyError::UnknownKey(key_text)),
    }
}

/// Once a prefix of the names is refused, every longer prefix is refused with
/// the same name.
proof fn lemma_scan_error_persists(names: Seq<Seq<char>>, k: int)
    requires
        0 <= k <= names.len(),
        modifier_scan(names.take(k)) is Err,
    ensures
        modifier_scan(names) == modifier_scan(names.take(k)),
    decreases names.len() - k,
{
    if k < names.len() {
        let next = names.take(k + 1);
        assert(next.drop_last() =~= names.take(k));
        lemma_scan_error_persists(names, k + 1);
    } else {
        assert(names.take(k) =~= names);
    }
}

/// The union of modifier bits read from names holds only the four modifier bits.
proof fn lemma_scan_bits(names: Seq<Seq<char>>)
    ensures
        modifier_scan(names) matches Ok(bits) ==> bits & 0xFFFF_FFF0u32 == 0,
    decreases names.len(),
{
    if names.len() > 0 {
        lemma_scan_bits(names.drop_last());
        match modifier_scan(names.drop_last()) {
            Ok(bits) => match modifier_flag(trim(names.last())) {
                Some(flag) => {
                    assert(flag == 1 || flag == 2 || flag == 4 || flag == 8);
                    assert((bits | flag) & 0xFFFF_FFF0u32 == 0) by (bit_vector)
                        requires
                            bits & 0xFFFF_FFF0u32 == 0,
                            flag == 1u32 || flag == 2u32 || flag == 4u32 || flag == 8u32,
                    ;
                },
                None => {},
            },
            Err(_) => {},
        }
    } else {
        assert(0u32 & 0xFFFF_FFF0u32 == 0) by (bit_vector);
    }
}

/// Every accepted hot key suppresses auto-repeat, and carries no modifier bit
/// beyond Alt, Control, Shift, Windows and no-repeat.
pub proof fn law_chord_bits(description: Seq<char>)
    ensures
        hotkey_meaning(description) matches Ok(chord) ==> chord.modifiers & MOD_NOREPEAT
            == MOD_NOREPEAT && chord.modifiers & !(MOD_ALT | MOD_CONTROL | MOD_SHIFT | MOD_WIN
            | MOD_NOREPEAT) == 0,
{
    let pieces = split_on(description, '+');
    lemma_scan_bits(pieces.drop_last());
    match modifier_scan(pieces.drop_last()) {
        Ok(bits) => {
            assert((bits | 0x4000u32) & 0x4000u32 == 0x4000u32 && (bits | 0x4000u32) & !(
            0x0001u32 | 0x0002u32 | 0x0004u32 | 0x0008u32 | 0x4000u32) == 0) by (bit_vector)
                requires
                    bits & 0xFFFF_FFF0u32 == 0,
            ;
        },
        Err(_) => {},
    }
}

/// A global hot key held by this process: its identifier and whether it is
/// still registered with the system.
pub struct GlobalHotkey {
    id: u32,
    registered: bool,
}

impl GlobalHotkey {
    /// The identifier under which the hot key was registered.
    pub closed spec fn spec_id(&self) -> u32 {
        self.id
    }

    /// Whether the hot key is still registered with the system.
    pub closed spec fn spec_registered(&self) -> bool {
        self.registered
    }

    /// A hot key that the system has just accepted under `id`.
    pub fn registered(id: u32) -> (h: GlobalHotkey)
        ensures
            h.spec_id() == id,
            h.spec_registered(),
    {
        GlobalHotkey { id, registered: true }
    }

    /// The identifier under which the hot key was registered.
    pub fn id(&self) -> (r: u32)
        ensures
            r == self.spec_id(),
    {
        self.id
    }

    /// Whether the hot key is still registered with the system.
    pub fn is_registered(&self) -> (r: bool)
        ensures
            r == self.spec_registered(),
    {
        self.registered
    }

    /// Marks the hot key as no longer registered.  The result says whether the
    /// system must be asked to drop it: only the first call after registration
    /// says so.
    pub fn unregister(&mut self) -> (must_release: bool)
        ensures
            must_release == old(self).spec_registered(),
            !final(self).spec_registered(),
            final(self).spec_id() == old(self).spec_id(),
    {
        let must_release = self.registered;
        self.registered = false;
        must_release
    }
}

/// Function keys: `F` followed by a number from 1 to 24 gives F1's code plus
/// the number less one; any other number after `F`, or none, gives no key.
pub proof fn law_function_keys(digits: Seq<char>, n: u32)
    requires
        parsed_u32(digits) == Some(n),
    ensures
        1 <= n <= 24 ==> key_code(seq!['F'] + digits) == Some((0x6F + n) as u32),
        (n == 0 || n > 24) ==> key_code(seq!['F'] + digits) is None,
{
    assert((seq!['F'] + digits).drop_first() =~= digits);
}

/// A single upper-case letter other than `F`, or a single digit, is the key
/// whose code is the character's ASCII value; a lone `F` is no key.
pub proof fn law_single_character_keys(c: char)
    ensures
        ('A' <= c <= 'Z' && c != 'F') || ('0' <= c <= '9') ==> key_code(seq![c]) == Some(c as u32),
        key_code(seq!['F']) is None,
        ('a' <= c <= 'z') ==> key_code(seq![c]) is None,
{
    assert(seq!['F'].drop_first() =~= Seq::<char>::empty());
    reveal_strlit("SPACE");
    reveal_strlit("ESCAPE");
    reveal_strlit("ESC");
    reveal_strlit("ENTER");
    reveal_strlit("RETURN");
    reveal_strlit("TAB");
    reveal_strlit("BACKSPACE");
    reveal_strlit("DELETE");
    reveal_strlit("DEL");
}

/// The modifier names and their bits: Ctrl and Control, Alt, Shift, Win and
/// Super, spelled exactly so; any other name is no modifier.
pub proof fn law_modifier_names(name: Seq<char>)
    ensures
        modifier_flag("Ctrl"@) == Some(0x0002u32) && modifier_flag("Control"@) == Some(0x0002u32),
        modifier_flag("Alt"@) == Some(0x0001u32),
        modifier_flag("Shift"@) == Some(0x0004u32),
        modifier_flag("Win"@) == Some(0x0008u32) && modifier_flag("Super"@) == Some(0x0008u32),
        modifier_flag(name) is Some ==> (name == "Ctrl"@ || name == "Control"@ || name == "Alt"@
            || name == "Shift"@ || name == "Win"@ || name == "Super"@),
{
    reveal_strlit("Ctrl");
    reveal_strlit("Control");
    reveal_strlit("Alt");
    reveal_strlit("Shift");
    reveal_strlit("Win");
    reveal_strlit("Super");
    assert("Alt"@.len() == 3 && "Ctrl"@.len() == 4 && "Control"@.len() == 7);
    assert("Shift"@.len() == 5);
    assert("Alt"@ != "Ctrl"@ && "Alt"@ != "Control"@);
    assert("Shift"@ != "Ctrl"@ && "Shift"@ != "Control"@ && "Shift"@ != "Alt"@);
    assert("Win"@[0] != "Alt"@[0]);
    assert("Win"@ != "Ctrl"@ && "Win"@ != "Control"@ && "Win"@ != "Alt"@ && "Win"@ != "Shift"@);
    assert("Super"@[1] != "Shift"@[1]);
    assert("Super"@ != "Ctrl"@ && "Super"@ != "Control"@ && "Super"@ != "Alt"@ && "Super"@
        != "Shift"@);
}

/// Text without a `+` is a single piece.
proof fn lemma_split_without_separator(s: Seq<char>, sep: char)
    requires
        forall|i: int| 0 <= i < s.len() ==> #[trigger] s[i] != sep,
    ensures
        split_on(s, sep) == seq![s],
    decreases s.len(),
{
    if s.len() > 0 {
        let p = s.drop_last();
        assert forall|i: int| 0 <= i < p.len() implies #[trigger] p[i] != sep by {
            assert(p[i] == s[i]);
        }
        lemma_split_without_separator(p, sep);
        assert(seq![p].drop_last() =~= Seq::<Seq<char>>::empty());
        assert(p.push(s.last()) =~= s);
        assert(Seq::<Seq<char>>::empty().push(s) =~= seq![s]);
    } else {
        assert(s =~= Seq::<char>::empty());
    }
}

/// A description without `+` names a key alone: it is accepted exactly when
/// the trimmed name is a key, with no modifier but the no-repeat bit.
pub proof fn law_single_key_description(s: Seq<char>)
    requires
        forall|i: int| 0 <= i < s.len() ==> #[trigger] s[i] != '+',
    ensures
        key_code(uppercase(trim(s))) matches Some(vk) ==> hotkey_meaning(s) == Ok::<
            HotkeyChord,
            HotkeyFault,
        >(HotkeyChord { modifiers: MOD_NOREPEAT, vk }),
        key_code(uppercase(trim(s))) is None ==> hotkey_meaning(s) == Err::<HotkeyChord, HotkeyFault>(
            HotkeyFault::UnknownKey(trim(s)),
        ),
{
    lemma_split_without_separator(s, '+');
    assert(seq![s].drop_last() =~= Seq::<Seq<char>>::empty());
    assert(modifier_scan(Seq::<Seq<char>>::empty()) == Ok::<u32, Seq<char>>(0));
    assert(0u32 | 0x4000u32 == 0x4000u32) by (bit_vector);
}

} // verus!

//! Choosing the capture device: system loopback devices ("Stereo Mix" and the
//! like) are skipped in favour of a real microphone, optionally one whose name
//! contains a preferred fragment.
use vstd::prelude::*;
use crate::text::{chars_of, lowercase, string_from_chars, to_lowercase, trim, trim_str};

verus! {

broadcast use vstd::string::group_string_axioms;

/// Whether `needle` occurs in `hay` as a run of consecutive characters.
pub open spec fn has_substring(hay: Seq<char>, needle: Seq<char>) -> bool {
    exists|i: int| 0 <= i <= hay.len() - needle.len() && #[trigger] hay.subrange(i, i + needle.len()) == needle
}

/// Whether `needle` occurs at position `i` of `hay`.
fn occurs_at(hay: &Vec<char>, needle: &Vec<char>, i: usize) -> (r: bool)
    requires
        i + needle@.len() <= hay@.len(),
    ensures
        r == (hay@.subrange(i as int, i + needle@.len()) == needle@),
{
    let n = hay.len();
    let mut k: usize = 0;
    while k < needle.len()
        invariant
            n == hay@.len(),
            i + needle@.len() <= hay@.len(),
            k <= needle@.len(),
            forall|q: int| 0 <= q < k ==> hay@[i + q] == needle@[q],
        decreases needle@.len() - k,
    {
        if hay[i + k] != needle[k] {
            assert(hay@.subrange(i as int, i + needle@.len())[k as int] != needle@[k as int]);
            return false;
        }
        k = k + 1;
    }
    assert(hay@.subrange(i as int, i + needle@.len()) =~= needle@);
    true
}

/// Whether `needle` occurs in `hay`, as `str::contains` reports it.
pub fn contains_chars(hay: &Vec<char>, needle: &Vec<char>) -> (r: bool)
    ensures
        r == has_substring(hay@, needle@),
{
    if needle.len() > hay.len() {
        return false;
    }
    let last = hay.len() - needle.len();
    let mut i: usize = 0;
    loop
        invariant
            last + needle@.len() == hay@.len(),
            i <= last,
            forall|j: int| 0 <= j < i ==> #[trigger] hay@.subrange(j, j + needle@.len()) != needle@,
        decreases last - i,
    {
        if occurs_at(hay, needle, i) {
            return true;
        }
        if i == last {
            return false;
        }
        i = i + 1;
    }
}

/// Whether a lower-cased device name looks like a loopback of the system's
/// output rather than a microphone.
pub open spec fn loopback_name(lower: Seq<char>) -> bool {
    ||| has_substring(lower, "stereo mix"@)
    ||| has_substring(lower, "what u hear"@)
    ||| has_substring(lower, "loopback"@)
    ||| has_substring(lower, "wave out"@)
    ||| has_substring(lower, "mix"@)
}

/// Whether a device name, lower-cased, looks like a loopback device.
pub open spec fn looks_like_loopback_spec(name: Seq<char>) -> bool {
    loopback_name(lowercase(name))
}

/// Whether a lower-cased device name looks like a loopback device.
pub fn is_loopback_lowered(lower: &Vec<char>) -> (r: bool)
    ensures
        r == loopback_name(lower@),
{
    contains_chars(lower, &chars_of("stereo mix")) || contains_chars(lower, &chars_of("what u hear"))
        || contains_chars(lower, &chars_of("loopback")) || contains_chars(lower, &chars_of("wave out"))
        || contains_chars(lower, &chars_of("mix"))
}

/// Whether a device name looks like a loopback of the system's output.
pub fn looks_like_loopback(name: &str) -> (r: bool)
    ensures
        r == looks_like_loopback_spec(name@),
{
    let lower = to_lowercase(name);
    is_loopback_lowered(&chars_of(lower.as_str()))
}

/// The capture device chosen among the listed ones.
#[derive(Clone, Copy, Debug, PartialEq, Eq, Structural)]
pub enum DeviceChoice {
    /// The listed device at this position, a microphone.
    Listed(usize),
    /// The first listed loopback device, for want of a microphone.
    LoopbackFallback(usize),
    /// None listed fits: the system's default input device.
    SystemDefault,
}

/// No microphone could be chosen and loopback devices are not allowed.
#[derive(Clone, Copy, Debug, PartialEq, Eq, Structural)]
pub enum DeviceError {
    NoMicrophone,
}

impl DeviceError {
    /// The text of the error, as it is reported to the user.
    pub fn message(&self) -> (r: String)
        ensures
            r@ == "no valid microphone input found (only loopback-like devices were detected)"@,
    {
        String::from_str("no valid microphone input found (only loopback-like devices were detected)")
    }
}

/// Whether a device, by its lower-cased name, is a microphone that fits the
/// lower-cased preferred fragment, if there is one.
pub open spec fn eligible(lower: Seq<char>, preferred: Option<Seq<char>>) -> bool {
    &&& !loopback_name(lower)
    &&& match preferred {
        Some(p) => has_substring(lower, p),
        None => true,
    }
}

/// The choice among devices given by their lower-cased names: the first
/// eligible device; failing that an error when only microphones are allowed;
/// else the first loopback device; else the system default.
pub open spec fn choice_ok(
    lowered: Seq<Seq<char>>,
    microphone_only: bool,
    preferred: Option<Seq<char>>,
    r: Result<DeviceChoice, DeviceError>,
) -> bool {
    match r {
        Ok(DeviceChoice::Listed(i)) => i < lowered.len() && eligible(lowered[i as int], preferred)
            && forall|j: int| 0 <= j < i ==> !eligible(#[trigger] lowered[j], preferred),
        Err(DeviceError::NoMicrophone) => microphone_only && forall|j: int|
            0 <= j < lowered.len() ==> !eligible(#[trigger] lowered[j], preferred),
        Ok(DeviceChoice::LoopbackFallback(i)) => !microphone_only && i < lowered.len()
            && (forall|j: int| 0 <= j < lowered.len() ==> !eligible(#[trigger] lowered[j], preferred))
            && loopback_name(lowered[i as int]) && forall|j: int|
            0 <= j < i ==> !loopback_name(#[trigger] lowered[j]),
        Ok(DeviceChoice::SystemDefault) => !microphone_only && forall|j: int|
            0 <= j < lowered.len() ==> !eligible(#[trigger] lowered[j], preferred) && !loopback_name(
                lowered[j],
            ),
    }
}

/// The lower-cased preferred fragment: the configured one trimmed, and none
/// when that is empty.
pub open spec fn preferred_fragment(preferred: Option<Seq<char>>) -> Option<Seq<char>> {
    match preferred {
        Some(p) => if trim(p).len() == 0 {
            None
        } else {
            Some(lowercase(trim(p)))
        },
        None => None,
    }
}

/// Chooses among devices given by their lower-cased names.
pub fn select_among_lowered(
    lowered: &Vec<Vec<char>>,
    microphone_only: bool,
    preferred: Option<&Vec<char>>,
) -> (r: Result<DeviceChoice, DeviceError>)
    ensures
        choice_ok(
            lowered@.map_values(|v: Vec<char>| v@),
            microphone_only,
            match preferred {
                Some(p) => Some(p@),
                None => None,
            },
            r,
        ),
{
    let ghost names = lowered@.map_values(|v: Vec<char>| v@);
    let ghost pref = match preferred {
        Some(p) => Some(p@),
        None => None::<Seq<char>>,
    };
    let mut fallback: Option<usize> = None;
    let mut i: usize = 0;
    while i < lowered.len()
        invariant
            names == lowered@.map_values(|v: Vec<char>| v@),
            pref == match preferred {
                Some(p) => Some(p@),
                None => None::<Seq<char>>,
            },
            i <= lowered@.len(),
            forall|j: int| 0 <= j < i ==> !eligible(#[trigger] names[j], pref),
            match fallback {
                Some(f) => f < i && loopback_name(names[f as int]) && forall|j: int|
                    0 <= j < f ==> !loopback_name(#[trigger] names[j]),
                None => forall|j: int| 0 <= j < i ==> !loopback_name(#[trigger] names[j]),
            },
        decreases lowered@.len() - i,
    {
        assert(names[i as int] == lowered@[i as int]@);
        if is_loopback_lowered(&lowered[i]) {
            if fallback.is_none() {
                fallback = Some(i);
            }
        } else {
            match preferred {
                Some(p) => {
                    if contains_chars(&lowered[i], p) {
                        return Ok(DeviceChoice::Listed(i));
                    }
                },
                None => {
                    return Ok(DeviceChoice::Listed(i));
                },
            }
        }
        i = i + 1;
    }
    if microphone_only {
        return Err(DeviceError::NoMicrophone);
    }
    match fallback {
        Some(f) => Ok(DeviceChoice::LoopbackFallback(f)),
        None => Ok(DeviceChoice::SystemDefault),
    }
}

/// Chooses the capture device among devices listed by name, in the order the
/// system lists them.  Names and the preferred fragment are compared after
/// Unicode lower-casing.
pub fn select_input_device(
    names: &Vec<String>,
    microphone_only: bool,
    preferred_input_device: Option<&str>,
) -> (r: Result<DeviceChoice, DeviceError>)
    ensures
        choice_ok(
            names@.map_values(|n: String| lowercase(n@)),
            microphone_only,
            preferred_fragment(
                match preferred_input_device {
                    Some(p) => Some(p@),
                    None => None,
                },
            ),
            r,
        ),
{
    let mut lowered: Vec<Vec<char>> = Vec::new();
    let mut i: usize = 0;
    while i < names.len()
        invariant
            i <= names@.len(),
            lowered@.map_values(|v: Vec<char>| v@) == names@.take(i as int).map_values(
                |n: String| lowercase(n@),
            ),
        decreases names@.len() - i,
    {
        let lower = to_lowercase(names[i].as_str());
        let ghost before = lowered@;
        let lv = chars_of(lower.as_str());
        assert(lv@ == lowercase(names@[i as int]@));
        lowered.push(lv);
        let ghost lhs = lowered@.map_values(|v: Vec<char>| v@);
        let ghost rhs = names@.take(i + 1).map_values(|n: String| lowercase(n@));
        let ghost prev = names@.take(i as int).map_values(|n: String| lowercase(n@));
        assert(before.map_values(|v: Vec<char>| v@) == prev);
        assert(prev.len() == i);
        assert(before.len() == i);
        assert(lhs.len() == rhs.len());
        assert forall|j: int| 0 <= j < lhs.len() implies lhs[j] == rhs[j] by {
            if j < i {
                assert(lowered@[j] == before[j]);
                assert(before.map_values(|v: Vec<char>| v@)[j] == prev[j]);
                assert(names@.take(i + 1)[j] == names@.take(i as int)[j]);
            } else {
                assert(names@.take(i + 1)[j] == names@[i as int]);
            }
        }
        assert(lowered@.map_values(|v: Vec<char>| v@) =~= names@.take(i + 1).map_values(
            |n: String| lowercase(n@),
        ));
        i = i + 1;
    }
    assert(names@.take(names@.len() as int) =~= names@);
    let fragment: Option<Vec<char>> = match preferred_input_device {
        Some(p) => {
            let t = trim_str(p);
            if t.len() == 0 {
                None
            } else {
                let trimmed = string_from_chars(&t);
                let lower = to_lowercase(trimmed.as_str());
                Some(chars_of(lower.as_str()))
            }
        },
        None => None,
    };
    match &fragment {
        Some(f) => select_among_lowered(&lowered, microphone_only, Some(f)),
        None => select_among_lowered(&lowered, microphone_only, None),
    }
}

/// With only microphones allowed, a loopback device is never chosen: the
/// choice is a listed device that does not look like a loopback, or an error.
pub proof fn law_microphone_only_never_loopback(
    lowered: Seq<Seq<char>>,
    preferred: Option<Seq<char>>,
    r: Result<DeviceChoice, DeviceError>,
)
    requires
        choice_ok(lowered, true, preferred, r),
    ensures
        match r {
            Ok(DeviceChoice::Listed(i)) => !loopback_name(lowered[i as int]),
            Ok(_) => false,
            Err(_) => true,
        },
{
}

/// A preferred fragment is honoured: a listed microphone is chosen only when
/// its lower-cased name contains the fragment.
pub proof fn law_preferred_fragment_honoured(
    lowered: Seq<Seq<char>>,
    microphone_only: bool,
    fragment: Seq<char>,
    r: Result<DeviceChoice, DeviceError>,
)
    requires
        choice_ok(lowered, microphone_only, Some(fragment), r),
    ensures
        match r {
            Ok(DeviceChoice::Listed(i)) => has_substring(lowered[i as int], fragment),
            _ => true,
        },
{
}

/// A lower-cased device name is taken for a loopback device exactly when it
/// contains one of the markers "stereo mix", "what u hear", "loopback",
/// "wave out" or "mix".
pub proof fn law_loopback_markers(lower: Seq<char>)
    ensures
        loopback_name(lower) <==> (has_substring(lower, "stereo mix"@) || has_substring(
            lower,
            "what u hear"@,
        ) || has_substring(lower, "loopback"@) || has_substring(lower, "wave out"@)
            || has_substring(lower, "mix"@)),
{
}

/// Whether a lower-cased name holds none of the loopback markers.
pub open spec fn no_loopback_marker(lower: Seq<char>) -> bool {
    !has_substring(lower, "stereo mix"@) && !has_substring(lower, "what u hear"@)
        && !has_substring(lower, "loopback"@) && !has_substring(lower, "wave out"@)
        && !has_substring(lower, "mix"@)
}

/// With no preferred fragment, the first device whose lower-cased name holds
/// none of the loopback markers is chosen, microphones only or not.
pub proof fn law_first_plain_device_chosen(
    lowered: Seq<Seq<char>>,
    microphone_only: bool,
    r: Result<DeviceChoice, DeviceError>,
    i: int,
)
    requires
        choice_ok(lowered, microphone_only, None, r),
        0 <= i < lowered.len(),
        no_loopback_marker(lowered[i]),
        forall|j: int| 0 <= j < i ==> !no_loopback_marker(#[trigger] lowered[j]),
    ensures
        r == Ok::<DeviceChoice, DeviceError>(DeviceChoice::Listed(i as usize)),
{
    assert(eligible(lowered[i], None));
    match r {
        Ok(DeviceChoice::Listed(k)) => {
            if (k as int) < i {
                assert(!no_loopback_marker(lowered[k as int]));
            } else if (k as int) > i {
                assert(!eligible(lowered[i], None));
            }
        },
        _ => {},
    }
}

/// With a preferred fragment, the first device whose lower-cased name holds
/// none of the loopback markers and contains the fragment is chosen.
pub proof fn law_first_preferred_device_chosen(
    lowered: Seq<Seq<char>>,
    microphone_only: bool,
    fragment: Seq<char>,
    r: Result<DeviceChoice, DeviceError>,
    i: int,
)
    requires
        choice_ok(lowered, microphone_only, Some(fragment), r),
        0 <= i < lowered.len(),
        no_loopback_marker(lowered[i]),
        has_substring(lowered[i], fragment),
        forall|j: int|
            0 <= j < i ==> !(no_loopback_marker(#[trigger] lowered[j]) && has_substring(
                lowered[j],
                fragment,
            )),
    ensures
        r == Ok::<DeviceChoice, DeviceError>(DeviceChoice::Listed(i as usize)),
{
    assert(eligible(lowered[i], Some(fragment)));
    match r {
        Ok(DeviceChoice::Listed(k)) => {
            if (k as int) < i {
                assert(eligible(lowered[k as int], Some(fragment)));
            } else if (k as int) > i {
                assert(!eligible(lowered[i], Some(fragment)));
            }
        },
        _ => {},
    }
}

/// When no device fits and loopback devices are allowed, the first device
/// that looks like a loopback is chosen; with none, the system default.
pub proof fn law_loopback_fallback(
    lowered: Seq<Seq<char>>,
    preferred: Option<Seq<char>>,
    r: Result<DeviceChoice, DeviceError>,
)
    requires
        choice_ok(lowered, false, preferred, r),
        forall|j: int| 0 <= j < lowered.len() ==> !eligible(#[trigger] lowered[j], preferred),
    ensures
        forall|i: int|
            0 <= i < lowered.len() && !no_loopback_marker(lowered[i]) && (forall|j: int|
                0 <= j < i ==> no_loopback_marker(#[trigger] lowered[j])) ==> r == Ok::<
                DeviceChoice,
                DeviceError,
            >(DeviceChoice::LoopbackFallback(i as usize)),
        (forall|j: int| 0 <= j < lowered.len() ==> no_loopback_marker(#[trigger] lowered[j])) ==> r
            == Ok::<DeviceChoice, DeviceError>(DeviceChoice::SystemDefault),
        r is Ok,
{
    assert forall|i: int|
        0 <= i < lowered.len() && !no_loopback_marker(lowered[i]) && (forall|j: int|
            0 <= j < i ==> no_loopback_marker(#[trigger] lowered[j])) implies r == Ok::<
        DeviceChoice,
        DeviceError,
    >(DeviceChoice::LoopbackFallback(i as usize)) by {
        match r {
            Ok(DeviceChoice::LoopbackFallback(k)) => {
                if (k as int) < i {
                    assert(no_loopback_marker(lowered[k as int]));
                } else if (k as int) > i {
                    assert(loopback_name(lowered[i]));
                }
            },
            Ok(DeviceChoice::SystemDefault) => {
                assert(!loopback_name(lowered[i]));
            },
            _ => {},
        }
    }
    if forall|j: int| 0 <= j < lowered.len() ==> no_loopback_marker(#[trigger] lowered[j]) {
        match r {
            Ok(DeviceChoice::LoopbackFallback(k)) => {
                assert(no_loopback_marker(lowered[k as int]));
            },
            _ => {},
        }
    }
}

/// The preferred fragment counts only when it is not blank, and it is
/// compared trimmed and lower-cased.
pub proof fn law_preferred_fragment(p: Seq<char>)
    ensures
        trim(p).len() == 0 ==> preferred_fragment(Some(p)) is None,
        trim(p).len() > 0 ==> preferred_fragment(Some(p)) == Some(lowercase(trim(p))),
        preferred_fragment(None) is None,
{
}

} // verus!

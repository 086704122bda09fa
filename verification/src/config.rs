//! The user-facing settings that the verified core reads, with their defaults.
use vstd::prelude::*;
use crate::text::{chars_of, trim, trim_str};

verus! {

broadcast use vstd::string::group_string_axioms;

/// The global hot key that starts and stops recording.
#[derive(Debug)]
pub struct HotkeyConfig {
    pub start_stop: String,
}

impl Default for HotkeyConfig {
    /// F9 starts and stops recording.
    fn default() -> (r: HotkeyConfig)
        ensures
            r.start_stop@ == "F9"@,
    {
        HotkeyConfig { start_stop: String::from_str("F9") }
    }
}

/// The look of the floating button.
#[derive(Debug)]
pub struct UiConfig {
    pub opacity: u8,
    pub size: u32,
}

impl Default for UiConfig {
    /// Mostly opaque (220 of 255), 48 pixels wide.
    fn default() -> (r: UiConfig)
        ensures
            r.opacity == 220,
            r.size == 48,
    {
        UiConfig { opacity: 220, size: 48 }
    }
}

/// Which input device to capture from, and how often to poll it.
#[derive(Debug)]
pub struct AudioConfig {
    pub microphone_only: bool,
    pub preferred_input_device: String,
    pub worker_sleep_ms: u64,
}

impl Default for AudioConfig {
    /// Microphones only, no preferred device, polling every 10 ms.
    fn default() -> (r: AudioConfig)
        ensures
            r.microphone_only,
            r.preferred_input_device@ == Seq::<char>::empty(),
            r.worker_sleep_ms == 10,
    {
        AudioConfig {
            microphone_only: true,
            preferred_input_device: String::new(),
            worker_sleep_ms: 10,
        }
    }
}

impl AudioConfig {
    /// The preferred device fragment, as configured; none when it is blank.
    pub fn preferred_device(&self) -> (r: Option<String>)
        ensures
            match r {
                Some(p) => trim(self.preferred_input_device@).len() > 0 && p@
                    == self.preferred_input_device@,
                None => trim(self.preferred_input_device@).len() == 0,
            },
    {
        let t = trim_str(self.preferred_input_device.as_str());
        if t.len() == 0 {
            None
        } else {
            Some(self.preferred_input_device.clone())
        }
    }

    /// The polling interval of the audio worker in milliseconds: the
    /// configured one, at least one.
    pub fn worker_sleep(&self) -> (r: u64)
        ensures
            r == if self.worker_sleep_ms < 1 { 1 } else { self.worker_sleep_ms },
    {
        if self.worker_sleep_ms < 1 {
            1
        } else {
            self.worker_sleep_ms
        }
    }
}

/// Whether a file name has the extension `bin`, as `Path::extension` reads
/// it: the part after the last dot, where a dot that starts the name does not
/// begin an extension.
pub open spec fn has_bin_extension(file_name: Seq<char>) -> bool {
    file_name.len() > 4 && file_name.subrange(file_name.len() - 4, file_name.len() as int)
        == ".bin"@
}

/// One entry of the models directory: its file name, and its full path when
/// that is valid Unicode.
pub struct ModelFile {
    pub file_name: String,
    pub path: Option<String>,
}

/// The model loaded when none is configured: the first `.bin` file of the
/// models directory whose path is valid Unicode, else the large turbo model.
pub open spec fn default_model_choice(files: Seq<ModelFile>) -> Seq<char>
    decreases files.len(),
{
    if files.len() == 0 {
        "models/ggml-large-v3-turbo.bin"@
    } else if has_bin_extension(files[0].file_name@) && files[0].path is Some {
        files[0].path.unwrap()@
    } else {
        default_model_choice(files.drop_first())
    }
}

/// Whether `file_name` has the extension `bin`.
pub fn is_model_file_name(file_name: &str) -> (r: bool)
    ensures
        r == has_bin_extension(file_name@),
{
    let v = chars_of(file_name);
    let n = v.len();
    if n <= 4 {
        return false;
    }
    let tail = v[n - 4] == '.' && v[n - 3] == 'b' && v[n - 2] == 'i' && v[n - 1] == 'n';
    proof {
        reveal_strlit(".bin");
        let t = v@.subrange(n - 4, n as int);
        if tail {
            assert(t =~= ".bin"@);
        } else {
            assert(t[0] != ".bin"@[0] || t[1] != ".bin"@[1] || t[2] != ".bin"@[2] || t[3]
                != ".bin"@[3]);
        }
    }
    tail
}

/// The model to load when none is configured, given the entries of the models
/// directory in the order the system lists them.
pub fn default_model_path(files: &Vec<ModelFile>) -> (r: String)
    ensures
        r@ == default_model_choice(files@),
{
    let mut i: usize = 0;
    assert(files@.skip(0) =~= files@);
    while i < files.len()
        invariant
            i <= files@.len(),
            default_model_choice(files@) == default_model_choice(files@.skip(i as int)),
        decreases files@.len() - i,
    {
        let ghost rest = files@.skip(i as int);
        assert(rest[0] == files@[i as int]);
        assert(rest.drop_first() =~= files@.skip(i + 1));
        if is_model_file_name(files[i].file_name.as_str()) {
            match &files[i].path {
                Some(p) => {
                    return p.clone();
                },
                None => {},
            }
        }
        i = i + 1;
    }
    assert(files@.skip(files@.len() as int) =~= Seq::<ModelFile>::empty());
    String::from_str("models/ggml-large-v3-turbo.bin")
}

/// Every file name made of a non-empty stem and `.bin` has the bin extension,
/// whatever the stem holds, dots included.
pub proof fn law_any_stem_with_bin_extension(stem: Seq<char>)
    requires
        stem.len() > 0,
    ensures
        has_bin_extension(stem + ".bin"@),
{
    reveal_strlit(".bin");
    let f = stem + ".bin"@;
    assert(f.subrange(f.len() - 4, f.len() as int) =~= ".bin"@);
}

/// The default model is the first entry that has the bin extension and a
/// Unicode path, whatever else its name holds.
pub proof fn law_first_model_file_wins(files: Seq<ModelFile>, i: int, path: String)
    requires
        0 <= i < files.len(),
        forall|j: int|
            0 <= j < i ==> !(has_bin_extension(#[trigger] files[j].file_name@) && files[j].path is Some),
        has_bin_extension(files[i].file_name@),
        files[i].path == Some(path),
    ensures
        default_model_choice(files) == path@,
    decreases i,
{
    if i > 0 {
        let rest = files.drop_first();
        assert forall|j: int|
            0 <= j < i - 1 implies !(has_bin_extension(#[trigger] rest[j].file_name@) && rest[j].path is Some) by {
            assert(rest[j] == files[j + 1]);
        }
        assert(!(has_bin_extension(files[0].file_name@) && files[0].path is Some));
        law_first_model_file_wins(rest, i - 1, path);
    }
}

/// With no entry that has the bin extension and a Unicode path, the large
/// turbo model is the default.
pub proof fn law_no_model_file_gives_fallback(files: Seq<ModelFile>)
    requires
        forall|j: int|
            0 <= j < files.len() ==> !(has_bin_extension(#[trigger] files[j].file_name@) && files[j].path is Some),
    ensures
        default_model_choice(files) == "models/ggml-large-v3-turbo.bin"@,
    decreases files.len(),
{
    if files.len() > 0 {
        let rest = files.drop_first();
        assert forall|j: int|
            0 <= j < rest.len() implies !(has_bin_extension(#[trigger] rest[j].file_name@) && rest[j].path is Some) by {
            assert(rest[j] == files[j + 1]);
        }
        assert(!(has_bin_extension(files[0].file_name@) && files[0].path is Some));
        law_no_model_file_gives_fallback(rest);
    }
}

/// Only names that end in `.bin` after a non-empty stem have the bin
/// extension.
pub proof fn law_bin_extension_needs_suffix(file_name: Seq<char>)
    ensures
        has_bin_extension(file_name) <==> (file_name.len() > 4 && file_name[file_name.len() - 4]
            == '.' && file_name[file_name.len() - 3] == 'b' && file_name[file_name.len() - 2] == 'i'
            && file_name[file_name.len() - 1] == 'n'),
{
    reveal_strlit(".bin");
    if file_name.len() > 4 {
        let t = file_name.subrange(file_name.len() - 4, file_name.len() as int);
        if file_name[file_name.len() - 4] == '.' && file_name[file_name.len() - 3] == 'b'
            && file_name[file_name.len() - 2] == 'i' && file_name[file_name.len() - 1] == 'n' {
            assert(t =~= ".bin"@);
        }
        if t == ".bin"@ {
            assert(t[0] == file_name[file_name.len() - 4]);
            assert(t[1] == file_name[file_name.len() - 3]);
            assert(t[2] == file_name[file_name.len() - 2]);
            assert(t[3] == file_name[file_name.len() - 1]);
        }
    }
}

} // verus!

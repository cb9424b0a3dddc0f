//! The finished run configuration and its validation. The shell parses the
//! command line and stats the filesystem; everything it observed comes in
//! as plain facts, and the decisions — which runs are rejected, which
//! warnings are due, which output path a run really uses — are made here.

use vstd::prelude::*;

verus! {

use crate::arguments::ArgumentResult;

/// The platform convention in force: it decides path separators, the
/// illegal output characters and the shared-library naming scheme.
#[derive(Clone, Copy, PartialEq, Eq, Structural)]
pub enum Platform {
    Linux,
    Windows,
    MacOs,
}

/// The finished configuration a run works from.
#[derive(Clone)]
pub struct Options {
    pub input: String,
    pub output: String,
    /// Write the cut timestamps instead of rendering a video.
    pub tsonly: bool,
    pub generator_args: Vec<ArgumentResult>,
    pub render_args: Vec<ArgumentResult>,
}

/// What the shell observed on disk before validation.
#[derive(Clone, Copy)]
pub struct FsFacts {
    pub input_exists: bool,
    pub input_is_file: bool,
    pub input_is_dir: bool,
    /// Content sniff of an input file; meaningful only when it is a file.
    pub input_is_video: bool,
    pub output_exists: bool,
    pub output_is_dir: bool,
    pub output_dir_readable: bool,
    pub output_dir_empty: bool,
    /// Whether the automatically derived output path is already taken.
    pub auto_output_exists: bool,
}

/// Why a configuration is rejected before any module is loaded.
#[derive(Clone, Copy, PartialEq, Eq, Structural, Debug)]
pub enum ValidateError {
    InputMissing,
    InputNotFileOrDir,
    OutputIllegalChars,
    OutputNotDirectory,
    OutputDirUnreadable,
    OutputExists,
}

/// What a validated run carries forward: fixed-up paths, the warnings to
/// print, and whether the output directory must be created first.
pub struct ValidationPlan {
    pub input: String,
    pub output: String,
    pub warn_not_video: bool,
    pub warn_dir_not_empty: bool,
    pub create_output_dir: bool,
}

/// A character no output path may hold on the given platform.
pub open spec fn illegal_path_char(c: char, platform: Platform) -> bool {
    match platform {
        Platform::Windows => c == '<' || c == '>' || c == '"' || c == '|' || c == '?' || c == '*'
            || (c as u32) < 32,
        _ => c == '\u{0}',
    }
}

/// Whether some character of a path is illegal on the platform.
pub open spec fn has_illegal_path_char(s: Seq<char>, platform: Platform) -> bool {
    exists|i: int| 0 <= i < s.len() && illegal_path_char(s[i], platform)
}

/// The text with every occurrence of one character replaced by another.
pub open spec fn replaced(s: Seq<char>, from: char, to: char) -> Seq<char> {
    s.map_values(|c: char| if c == from { to } else { c })
}

/// The extension suffix appended to a timestamps-only output name.
pub open spec fn txt_suffix() -> Seq<char> {
    seq!['.', 't', 'x', 't']
}

/// The marker spliced into an automatically derived video output name.
pub open spec fn cut_marker() -> Seq<char> {
    seq!['_', 'c', 'u', 't']
}

/// Where the extension of a path's last component starts, or -1 when that
/// component has none: the position of the last dot after the last
/// separator.
pub open spec fn ext_start(s: Seq<char>) -> int
    decreases s.len(),
{
    if s.len() == 0 {
        -1
    } else if s.last() == '.' {
        s.len() - 1
    } else if s.last() == '/' || s.last() == '\\' {
        -1
    } else {
        ext_start(s.drop_last())
    }
}

/// The output path derived from an input when none was named: `.txt` beside
/// the input for a timestamps run, otherwise a cut marker spliced in before
/// the extension (or appended when there is none).
pub open spec fn automatic_path(input: Seq<char>, tsonly: bool) -> Seq<char> {
    if tsonly {
        input + txt_suffix()
    } else if ext_start(input) >= 0 {
        input.take(ext_start(input)) + cut_marker() + input.skip(ext_start(input))
    } else {
        input + cut_marker()
    }
}

/// The path separator of the platform.
pub open spec fn path_sep(platform: Platform) -> char {
    match platform {
        Platform::Windows => '\\',
        _ => '/',
    }
}

/// The verdict validation reaches from the observed facts, if the
/// configuration is rejected.
pub open spec fn validate_verdict(output: Seq<char>, facts: FsFacts, platform: Platform) -> Option<
    ValidateError,
> {
    if !facts.input_exists {
        Some(ValidateError::InputMissing)
    } else if !facts.input_is_file && !facts.input_is_dir {
        Some(ValidateError::InputNotFileOrDir)
    } else if output.len() > 0 {
        if has_illegal_path_char(output, platform) {
            Some(ValidateError::OutputIllegalChars)
        } else if facts.input_is_dir {
            if facts.output_exists {
                if !facts.output_is_dir {
                    Some(ValidateError::OutputNotDirectory)
                } else if !facts.output_dir_readable {
                    Some(ValidateError::OutputDirUnreadable)
                } else {
                    None
                }
            } else {
                None
            }
        } else {
            if facts.output_exists {
                Some(ValidateError::OutputExists)
            } else {
                None
            }
        }
    } else {
        if !facts.input_is_dir && facts.auto_output_exists {
            Some(ValidateError::OutputExists)
        } else {
            None
        }
    }
}

/// Relies on alloc::string::String::push: it appends exactly the one
/// character.
#[verifier::external_body]
fn push_char(s: &mut String, c: char)
    ensures
        final(s)@ == old(s)@.push(c),
{
    s.push(c);
}

/// The text with every occurrence of one character replaced by another —
/// the slash fix-up applied to input paths on Windows.
pub fn replace_char(s: &String, from: char, to: char) -> (r: String)
    ensures
        r@ == replaced(s@, from, to),
{
    let n = s.as_str().unicode_len();
    let mut out = String::new();
    let mut i: usize = 0;
    while i < n
        invariant
            n == s@.len(),
            0 <= i <= n,
            out@ == replaced(s@.take(i as int), from, to),
        decreases n - i,
    {
        let c = s.as_str().get_char(i);
        if c == from {
            push_char(&mut out, to);
        } else {
            push_char(&mut out, c);
        }
        proof {
            assert(out@ =~= replaced(s@.take(i + 1), from, to));
        }
        i += 1;
    }
    proof {
        assert(s@.take(n as int) =~= s@);
    }
    out
}

/// Whether a path holds a character the platform refuses.
pub fn path_has_illegal_char(s: &String, platform: Platform) -> (r: bool)
    ensures
        r == has_illegal_path_char(s@, platform),
{
    let n = s.as_str().unicode_len();
    let mut i: usize = 0;
    while i < n
        invariant
            n == s@.len(),
            0 <= i <= n,
            forall|j: int| 0 <= j < i ==> !illegal_path_char(s@[j], platform),
        decreases n - i,
    {
        let c = s.as_str().get_char(i);
        let bad = match platform {
            Platform::Windows => c == '<' || c == '>' || c == '"' || c == '|' || c == '?' || c
                == '*' || (c as u32) < 32,
            _ => c == '\u{0}',
        };
        if bad {
            proof {
                assert(illegal_path_char(s@[i as int], platform));
            }
            return true;
        }
        i += 1;
    }
    false
}

/// Where the final component's extension starts, if it has one.
fn find_ext_start(s: &String) -> (r: Option<usize>)
    ensures
        r matches Some(i) ==> i == ext_start(s@) && i < s@.len(),
        r is None ==> ext_start(s@) == -1,
{
    let n = s.as_str().unicode_len();
    let mut k: usize = n;
    proof {
        assert(s@.take(n as int) =~= s@);
    }
    while k > 0
        invariant
            n == s@.len(),
            0 <= k <= n,
            ext_start(s@) == ext_start(s@.take(k as int)),
        decreases k,
    {
        let c = s.as_str().get_char(k - 1);
        proof {
            assert(s@.take(k as int).last() == s@[k - 1]);
            assert(s@.take(k as int).drop_last() =~= s@.take(k - 1));
        }
        if c == '.' {
            return Some(k - 1);
        }
        if c == '/' || c == '\\' {
            return None;
        }
        k -= 1;
    }
    None
}

/// The output path used when none was named.
pub fn derive_automatic_path(input: &String, tsonly: bool) -> (r: String)
    ensures
        r@ == automatic_path(input@, tsonly),
{
    if tsonly {
        let mut out = input.clone();
        out.append(".txt");
        proof {
            reveal_strlit(".txt");
            assert(".txt"@ =~= txt_suffix());
        }
        out
    } else {
        match find_ext_start(input) {
            Some(i) => {
                let n = input.as_str().unicode_len();
                let mut out = String::from_str(input.as_str().substring_char(0, i));
                out.append("_cut");
                out.append(input.as_str().substring_char(i, n));
                proof {
                    reveal_strlit("_cut");
                    assert("_cut"@ =~= cut_marker());
                    assert(input@.subrange(0, i as int) =~= input@.take(i as int));
                    assert(input@.subrange(i as int, n as int) =~= input@.skip(i as int));
                }
                out
            },
            None => {
                let mut out = input.clone();
                out.append("_cut");
                proof {
                    reveal_strlit("_cut");
                    assert("_cut"@ =~= cut_marker());
                }
                out
            },
        }
    }
}

/// A directory output joined with one entry's file name.
pub fn joined_output_path(dir: &String, file_name: &String, platform: Platform) -> (r: String)
    ensures
        r@ == dir@ + seq![path_sep(platform)] + file_name@,
{
    let mut out = dir.clone();
    match platform {
        Platform::Windows => {
            out.append("\\");
            proof {
                reveal_strlit("\\");
                assert("\\"@ =~= seq!['\\']);
            }
        },
        _ => {
            out.append("/");
            proof {
                reveal_strlit("/");
                assert("/"@ =~= seq!['/']);
            }
        },
    }
    out.append(file_name.as_str());
    out
}

/// Whether a sniffed media type names a video — the batch filter and the
/// basis of the non-video warning.
pub fn is_video_mime(mime: &String) -> (r: bool)
    ensures
        r <==> (mime@.len() >= 5 && mime@.take(5) == "video"@),
{
    proof {
        reveal_strlit("video");
    }
    let n = mime.as_str().unicode_len();
    if n < 5 {
        return false;
    }
    let r = mime.as_str().get_char(0) == 'v' && mime.as_str().get_char(1) == 'i'
        && mime.as_str().get_char(2) == 'd' && mime.as_str().get_char(3) == 'e'
        && mime.as_str().get_char(4) == 'o';
    proof {
        if r {
            assert(mime@.take(5) =~= "video"@);
        } else {
            if mime@.take(5) == "video"@ {
                assert(mime@[0] == "video"@[0]);
                assert(mime@[1] == "video"@[1]);
                assert(mime@[2] == "video"@[2]);
                assert(mime@[3] == "video"@[3]);
                assert(mime@[4] == "video"@[4]);
            }
        }
    }
    r
}

/// Whether the pre-run warning about a non-MP4 input is due.
pub fn needs_mp4_warning(mime: &String) -> (r: bool)
    ensures
        r == (mime@ != "video/mp4"@),
{
    let expected = String::from_str("video/mp4");
    !(*mime == expected)
}

/// Validate a configuration against the observed facts. Rejections carry
/// the first failing check, in the order the checks run; an accepted run
/// comes back with its paths fixed up, its due warnings, and whether the
/// output directory still has to be created.
pub fn validate_args(options: &Options, facts: &FsFacts, platform: Platform) -> (r: Result<
    ValidationPlan,
    ValidateError,
>)
    ensures
        r matches Err(e) ==> validate_verdict(options.output@, *facts, platform) == Some(e),
        r is Ok <==> validate_verdict(options.output@, *facts, platform) is None,
        r matches Ok(p) ==> {
            &&& p.input@ == if platform == Platform::Windows {
                replaced(options.input@, '/', '\\')
            } else {
                options.input@
            }
            &&& p.output@ == if options.output@.len() > 0 {
                options.output@
            } else if !facts.input_is_dir {
                automatic_path(options.input@, options.tsonly)
            } else {
                options.output@
            }
            &&& p.warn_not_video == (facts.input_is_file && !facts.input_is_video)
            &&& p.warn_dir_not_empty == (options.output@.len() > 0 && facts.input_is_dir
                && facts.output_exists && facts.output_is_dir && facts.output_dir_readable
                && !facts.output_dir_empty)
            &&& p.create_output_dir == (options.output@.len() > 0 && facts.input_is_dir
                && !facts.output_exists)
        },
{
    if !facts.input_exists {
        return Err(ValidateError::InputMissing);
    }
    if !facts.input_is_file && !facts.input_is_dir {
        return Err(ValidateError::InputNotFileOrDir);
    }
    let warn_not_video = facts.input_is_file && !facts.input_is_video;
    let input = if platform == Platform::Windows {
        replace_char(&options.input, '/', '\\')
    } else {
        options.input.clone()
    };
    let mut warn_dir_not_empty = false;
    let mut create_output_dir = false;
    let output: String;
    if !options.output.as_str().is_empty() {
        if path_has_illegal_char(&options.output, platform) {
            return Err(ValidateError::OutputIllegalChars);
        }
        if facts.input_is_dir {
            if facts.output_exists {
                if !facts.output_is_dir {
                    return Err(ValidateError::OutputNotDirectory);
                }
                if !facts.output_dir_readable {
                    return Err(ValidateError::OutputDirUnreadable);
                }
                warn_dir_not_empty = !facts.output_dir_empty;
            } else {
                create_output_dir = true;
            }
        } else {
            if facts.output_exists {
                return Err(ValidateError::OutputExists);
            }
        }
        output = options.output.clone();
    } else {
        if !facts.input_is_dir {
            if facts.auto_output_exists {
                return Err(ValidateError::OutputExists);
            }
            output = derive_automatic_path(&options.input, options.tsonly);
        } else {
            output = options.output.clone();
        }
    }
    Ok(ValidationPlan { input, output, warn_not_video, warn_dir_not_empty, create_output_dir })
}

} // verus!

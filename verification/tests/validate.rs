//! Validation verdicts, path derivation and media-type decisions.

use lecturecut::options::{FsFacts, Options, Platform, ValidateError, derive_automatic_path,
    is_video_mime, joined_output_path, needs_mp4_warning, path_has_illegal_char, replace_char,
    validate_args};

fn options(input: &str, output: &str, tsonly: bool) -> Options {
    Options {
        input: input.to_string(),
        output: output.to_string(),
        tsonly,
        generator_args: Vec::new(),
        render_args: Vec::new(),
    }
}

fn file_input_facts() -> FsFacts {
    FsFacts {
        input_exists: true,
        input_is_file: true,
        input_is_dir: false,
        input_is_video: true,
        output_exists: false,
        output_is_dir: false,
        output_dir_readable: false,
        output_dir_empty: false,
        auto_output_exists: false,
    }
}

#[test]
fn existing_output_rejected_before_any_module_load() {
    // A single-file input whose named output is already taken must fail
    // validation outright; no module is loaded for such a run.
    let opts = options("talk.mp4", "talk_cut.mp4", false);
    let facts = FsFacts { output_exists: true, ..file_input_facts() };
    let verdict = validate_args(&opts, &facts, Platform::Linux);
    assert_eq!(verdict.err(), Some(ValidateError::OutputExists));
}

#[test]
fn existing_automatic_output_also_rejected() {
    let opts = options("talk.mp4", "", false);
    let facts = FsFacts { auto_output_exists: true, ..file_input_facts() };
    let verdict = validate_args(&opts, &facts, Platform::Linux);
    assert_eq!(verdict.err(), Some(ValidateError::OutputExists));
}

#[test]
fn missing_input_rejected() {
    let opts = options("absent.mp4", "", false);
    let facts = FsFacts {
        input_exists: false,
        input_is_file: false,
        input_is_video: false,
        ..file_input_facts()
    };
    let verdict = validate_args(&opts, &facts, Platform::Linux);
    assert_eq!(verdict.err(), Some(ValidateError::InputMissing));
}

#[test]
fn special_file_input_rejected() {
    let opts = options("/dev/null", "", false);
    let facts = FsFacts { input_is_file: false, input_is_video: false, ..file_input_facts() };
    let verdict = validate_args(&opts, &facts, Platform::Linux);
    assert_eq!(verdict.err(), Some(ValidateError::InputNotFileOrDir));
}

#[test]
fn illegal_output_characters_rejected_on_windows() {
    let opts = options("talk.mp4", "out?put.mp4", false);
    let verdict = validate_args(&opts, &file_input_facts(), Platform::Windows);
    assert_eq!(verdict.err(), Some(ValidateError::OutputIllegalChars));
    let accepted = validate_args(&opts, &file_input_facts(), Platform::Linux);
    assert!(accepted.is_ok());
}

#[test]
fn dir_input_needs_dir_output() {
    let opts = options("clips", "not_a_dir.txt", false);
    let facts = FsFacts {
        input_is_file: false,
        input_is_dir: true,
        input_is_video: false,
        output_exists: true,
        output_is_dir: false,
        ..file_input_facts()
    };
    let verdict = validate_args(&opts, &facts, Platform::Linux);
    assert_eq!(verdict.err(), Some(ValidateError::OutputNotDirectory));
}

#[test]
fn unreadable_output_dir_rejected() {
    let opts = options("clips", "out", false);
    let facts = FsFacts {
        input_is_file: false,
        input_is_dir: true,
        input_is_video: false,
        output_exists: true,
        output_is_dir: true,
        output_dir_readable: false,
        ..file_input_facts()
    };
    let verdict = validate_args(&opts, &facts, Platform::Linux);
    assert_eq!(verdict.err(), Some(ValidateError::OutputDirUnreadable));
}

#[test]
fn non_empty_output_dir_only_warns() {
    let opts = options("clips", "out", false);
    let facts = FsFacts {
        input_is_file: false,
        input_is_dir: true,
        input_is_video: false,
        output_exists: true,
        output_is_dir: true,
        output_dir_readable: true,
        output_dir_empty: false,
        ..file_input_facts()
    };
    let plan = validate_args(&opts, &facts, Platform::Linux).expect("accepted");
    assert!(plan.warn_dir_not_empty);
    assert!(!plan.create_output_dir);
}

#[test]
fn absent_output_dir_is_created() {
    let opts = options("clips", "out", false);
    let facts = FsFacts {
        input_is_file: false,
        input_is_dir: true,
        input_is_video: false,
        output_exists: false,
        ..file_input_facts()
    };
    let plan = validate_args(&opts, &facts, Platform::Linux).expect("accepted");
    assert!(plan.create_output_dir);
    assert!(!plan.warn_dir_not_empty);
    assert_eq!(plan.output, "out");
}

#[test]
fn accepted_single_file_run_gets_automatic_output() {
    let opts = options("talk.mp4", "", false);
    let plan = validate_args(&opts, &file_input_facts(), Platform::Linux).expect("accepted");
    assert_eq!(plan.input, "talk.mp4");
    assert_eq!(plan.output, "talk_cut.mp4");
    assert!(!plan.warn_not_video);
}

#[test]
fn non_video_file_warns_but_passes() {
    let opts = options("notes.txt", "notes_out.txt", false);
    let facts = FsFacts { input_is_video: false, ..file_input_facts() };
    let plan = validate_args(&opts, &facts, Platform::Linux).expect("accepted");
    assert!(plan.warn_not_video);
}

#[test]
fn windows_input_slashes_are_fixed_up() {
    let opts = options("clips/talk.mp4", "out.mp4", false);
    let plan = validate_args(&opts, &file_input_facts(), Platform::Windows).expect("accepted");
    assert_eq!(plan.input, "clips\\talk.mp4");
}

#[test]
fn automatic_path_splices_marker_before_extension() {
    assert_eq!(derive_automatic_path(&"talk.mp4".to_string(), false), "talk_cut.mp4");
    assert_eq!(derive_automatic_path(&"a/b/talk.mp4".to_string(), false), "a/b/talk_cut.mp4");
    assert_eq!(derive_automatic_path(&"archive.tar.mp4".to_string(), false), "archive.tar_cut.mp4");
}

#[test]
fn automatic_path_appends_marker_without_extension() {
    assert_eq!(derive_automatic_path(&"talk".to_string(), false), "talk_cut");
    assert_eq!(derive_automatic_path(&"a.b/video".to_string(), false), "a.b/video_cut");
}

#[test]
fn automatic_path_for_timestamps_appends_txt() {
    assert_eq!(derive_automatic_path(&"talk.mp4".to_string(), true), "talk.mp4.txt");
}

#[test]
fn illegal_character_scan() {
    assert!(path_has_illegal_char(&"a<b".to_string(), Platform::Windows));
    assert!(path_has_illegal_char(&"a\tb".to_string(), Platform::Windows));
    assert!(!path_has_illegal_char(&"a<b".to_string(), Platform::Linux));
    assert!(path_has_illegal_char(&"a\0b".to_string(), Platform::Linux));
    assert!(!path_has_illegal_char(&"plain.mp4".to_string(), Platform::Windows));
}

#[test]
fn replace_char_touches_every_occurrence() {
    assert_eq!(replace_char(&"a/b/c".to_string(), '/', '\\'), "a\\b\\c");
    assert_eq!(replace_char(&"none".to_string(), '/', '\\'), "none");
}

#[test]
fn joined_paths_use_platform_separator() {
    let dir = "out".to_string();
    let name = "talk.mp4".to_string();
    assert_eq!(joined_output_path(&dir, &name, Platform::Linux), "out/talk.mp4");
    assert_eq!(joined_output_path(&dir, &name, Platform::Windows), "out\\talk.mp4");
    assert_eq!(joined_output_path(&dir, &name, Platform::MacOs), "out/talk.mp4");
}

#[test]
fn video_mime_detection() {
    assert!(is_video_mime(&"video/mp4".to_string()));
    assert!(is_video_mime(&"video/webm".to_string()));
    assert!(is_video_mime(&"video".to_string()));
    assert!(!is_video_mime(&"vide".to_string()));
    assert!(!is_video_mime(&"text/plain".to_string()));
    assert!(!is_video_mime(&"audio/ogg".to_string()));
}

#[test]
fn mp4_warning_only_for_other_types() {
    assert!(!needs_mp4_warning(&"video/mp4".to_string()));
    assert!(needs_mp4_warning(&"video/webm".to_string()));
    assert!(needs_mp4_warning(&"text/plain".to_string()));
}

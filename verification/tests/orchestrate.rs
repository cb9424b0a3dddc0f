//! Batch selection, per-entry output paths, work planning and the module
//! discovery names.

use lecturecut::cuts::{Cut, GeneratorStats};
use lecturecut::loader::{ModuleKind, missing_module_message, module_file_name};
use lecturecut::options::{Options, Platform};
use lecturecut::orchestrate::{DirEntry, WorkAction, entry_output_path, plan_work,
    process_single_file, select_video_files};

fn options(input: &str, output: &str, tsonly: bool) -> Options {
    Options {
        input: input.to_string(),
        output: output.to_string(),
        tsonly,
        generator_args: Vec::new(),
        render_args: Vec::new(),
    }
}

fn entry(path: &str, name: &str, is_file: bool, mime: &str) -> DirEntry {
    DirEntry {
        path: path.to_string(),
        name: name.to_string(),
        is_file,
        mime: mime.to_string(),
    }
}

#[test]
fn only_video_files_are_selected() {
    // Three directory entries, two sniffed as non-video: the batch takes
    // exactly the one video file.
    let entries = vec![
        entry("clips/notes.txt", "notes.txt", true, "text/plain"),
        entry("clips/talk.mp4", "talk.mp4", true, "video/mp4"),
        entry("clips/cover.png", "cover.png", true, "image/png"),
    ];
    let selected = select_video_files(entries);
    assert_eq!(selected.len(), 1);
    assert_eq!(selected[0].path, "clips/talk.mp4");

    let opts = options("clips/talk.mp4", "clips/talk_cut.mp4", false);
    let stats = GeneratorStats { len_pre_cut_ms: 600_000, len_post_cut_ms: 540_000 };
    let rows = process_single_file(&opts, stats);
    assert_eq!(rows.len(), 1);
}

#[test]
fn directories_are_not_selected() {
    let entries = vec![
        entry("clips/sub", "sub", false, "video/mp4"),
        entry("clips/a.webm", "a.webm", true, "video/webm"),
    ];
    let selected = select_video_files(entries);
    assert_eq!(selected.len(), 1);
    assert_eq!(selected[0].name, "a.webm");
}

#[test]
fn selection_keeps_directory_order() {
    let entries = vec![
        entry("d/b.mp4", "b.mp4", true, "video/mp4"),
        entry("d/a.mp4", "a.mp4", true, "video/mp4"),
    ];
    let selected = select_video_files(entries);
    assert_eq!(selected[0].name, "b.mp4");
    assert_eq!(selected[1].name, "a.mp4");
}

#[test]
fn entry_output_joins_named_directory() {
    let opts = options("clips", "out", false);
    let e = entry("clips/talk.mp4", "talk.mp4", true, "video/mp4");
    assert_eq!(entry_output_path(&e, &opts, Platform::Linux), "out/talk.mp4");
    assert_eq!(entry_output_path(&e, &opts, Platform::Windows), "out\\talk.mp4");
}

#[test]
fn entry_output_falls_back_to_automatic_path() {
    let opts = options("clips", "", true);
    let e = entry("clips/talk.mp4", "talk.mp4", true, "video/mp4");
    assert_eq!(entry_output_path(&e, &opts, Platform::Linux), "clips/talk.mp4.txt");
}

#[test]
fn timestamps_run_plans_a_file_write() {
    let opts = options("talk.mp4", "talk.mp4.txt", true);
    let cuts = vec![Cut { start_ms: 2000, end_ms: 4000 }];
    match plan_work(&opts, cuts) {
        WorkAction::WriteTimestamps { path, content } => {
            assert_eq!(path, "talk.mp4.txt");
            assert_eq!(content, "2,4\n");
        },
        WorkAction::Render { .. } => panic!("timestamps run must not render"),
    }
}

#[test]
fn video_run_plans_a_render_call() {
    let opts = options("talk.mp4", "talk_cut.mp4", false);
    let cuts = vec![Cut { start_ms: 2000, end_ms: 4000 }, Cut { start_ms: 6000, end_ms: 6500 }];
    match plan_work(&opts, cuts.clone()) {
        WorkAction::Render { input, output, cuts: planned } => {
            assert_eq!(input, "talk.mp4");
            assert_eq!(output, "talk_cut.mp4");
            assert_eq!(planned, cuts);
        },
        WorkAction::WriteTimestamps { .. } => panic!("video run must render"),
    }
}

#[test]
fn single_file_report_has_one_row() {
    let opts = options("talk.mp4", "talk_cut.mp4", false);
    let stats = GeneratorStats { len_pre_cut_ms: 10_000, len_post_cut_ms: 8_000 };
    let rows = process_single_file(&opts, stats);
    assert_eq!(rows.len(), 1);
    assert_eq!(rows[0].input, "talk.mp4");
    assert_eq!(rows[0].output, "talk_cut.mp4");
    assert_eq!(rows[0].stats, stats);
}

#[test]
fn module_file_names_follow_platform_convention() {
    assert_eq!(module_file_name(ModuleKind::Generator, Platform::Linux), "modules/libgenerator.so");
    assert_eq!(module_file_name(ModuleKind::Generator, Platform::Windows), "modules/generator.dll");
    assert_eq!(
        module_file_name(ModuleKind::Generator, Platform::MacOs),
        "modules/libgenerator.dylib"
    );
    assert_eq!(module_file_name(ModuleKind::Render, Platform::Linux), "modules/librender.so");
    assert_eq!(module_file_name(ModuleKind::Render, Platform::Windows), "modules/render.dll");
    assert_eq!(module_file_name(ModuleKind::Render, Platform::MacOs), "modules/librender.dylib");
}

#[test]
fn missing_module_messages_name_the_module() {
    let path = "modules/librender.so".to_string();
    assert_eq!(
        missing_module_message(&path, ModuleKind::Render),
        "modules/librender.so does not exist. Please compile the render module first."
    );
    let path = "modules/libgenerator.so".to_string();
    assert_eq!(
        missing_module_message(&path, ModuleKind::Generator),
        "modules/libgenerator.so does not exist. Please compile the generator module first."
    );
}

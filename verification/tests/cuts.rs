//! Cut-list copy-out and the timestamps-only output format.

use lecturecut::cuts::{Cut, CutList, GeneratorStats, copy_cut_list, format_cut_line,
    format_cut_lines, format_seconds, u64_to_decimal};

#[test]
fn copy_survives_foreign_buffer_reuse() {
    // The generator's buffer is call-scoped: clobbering it after the copy
    // must not reach the host-owned cuts.
    let mut foreign = CutList { cuts: vec![Cut { start_ms: 2000, end_ms: 4000 }] };
    let owned = copy_cut_list(&foreign);
    foreign.cuts[0] = Cut { start_ms: 0, end_ms: 0 };
    foreign.cuts.clear();
    assert_eq!(owned, vec![Cut { start_ms: 2000, end_ms: 4000 }]);
}

#[test]
fn copy_preserves_order_and_length() {
    let foreign = CutList {
        cuts: vec![
            Cut { start_ms: 1000, end_ms: 1500 },
            Cut { start_ms: 3250, end_ms: 9000 },
            Cut { start_ms: 10, end_ms: 20 },
        ],
    };
    let owned = copy_cut_list(&foreign);
    assert_eq!(owned, foreign.cuts);
}

#[test]
fn ten_second_clip_scenario() {
    // A single ten-second clip whose generator cut out seconds two to four:
    // the timestamps file holds exactly the line `2,4`.
    let foreign = CutList { cuts: vec![Cut { start_ms: 2000, end_ms: 4000 }] };
    let stats = GeneratorStats { len_pre_cut_ms: 10_000, len_post_cut_ms: 8_000 };
    let owned = copy_cut_list(&foreign);
    let content = format_cut_lines(&owned);
    assert_eq!(content, "2,4\n");
    assert_eq!(stats.len_pre_cut_ms, 10_000);
    assert_eq!(stats.len_post_cut_ms, 8_000);
}

#[test]
fn decimal_rendering() {
    assert_eq!(u64_to_decimal(0), "0");
    assert_eq!(u64_to_decimal(7), "7");
    assert_eq!(u64_to_decimal(10), "10");
    assert_eq!(u64_to_decimal(905), "905");
    assert_eq!(u64_to_decimal(u64::MAX), "18446744073709551615");
}

#[test]
fn seconds_rendering_trims_trailing_zeros() {
    assert_eq!(format_seconds(0), "0");
    assert_eq!(format_seconds(2000), "2");
    assert_eq!(format_seconds(2500), "2.5");
    assert_eq!(format_seconds(2050), "2.05");
    assert_eq!(format_seconds(50), "0.05");
    assert_eq!(format_seconds(1), "0.001");
    assert_eq!(format_seconds(61000), "61");
    assert_eq!(format_seconds(90125), "90.125");
}

#[test]
fn one_line_per_cut() {
    let cuts = vec![
        Cut { start_ms: 0, end_ms: 1500 },
        Cut { start_ms: 2000, end_ms: 4000 },
        Cut { start_ms: 8250, end_ms: 9999 },
    ];
    assert_eq!(format_cut_lines(&cuts), "0,1.5\n2,4\n8.25,9.999\n");
}

#[test]
fn single_line_format() {
    assert_eq!(format_cut_line(&Cut { start_ms: 500, end_ms: 10_000 }), "0.5,10\n");
}

#[test]
fn empty_cut_list_gives_empty_file() {
    let cuts: Vec<Cut> = Vec::new();
    assert_eq!(format_cut_lines(&cuts), "");
}

use frame_inspector::demo::combine_cycle_halves;
use frame_inspector::demo::cycles_between;
use frame_inspector::demo::demo_function;
use frame_inspector::demo::demo_function_call;
use frame_inspector::greeting::make_greeting;
use frame_inspector::render::decimal_string;
use frame_inspector::render::render_file_row;
use frame_inspector::render::render_stats;
use frame_inspector::wordcount::FileStats;
use frame_inspector::wordcount::Stats;

#[test]
fn test_decimal_rendering() {
    assert_eq!(decimal_string(0), "0");
    assert_eq!(decimal_string(7), "7");
    assert_eq!(decimal_string(24), "24");
    assert_eq!(decimal_string(90210), "90210");
}

#[test]
fn test_file_row_layout() {
    let row = render_file_row(&FileStats {
        name: "file1.txt".to_string(),
        lines: Some(3),
        words: Some(4),
        chars: Some(24),
    });
    assert_eq!(row, "3\t4\t24\tfile1.txt");
}

#[test]
fn test_file_row_skips_missing_counts() {
    let row = render_file_row(&FileStats {
        name: "file1.txt".to_string(),
        lines: None,
        words: Some(4),
        chars: None,
    });
    assert_eq!(row, "\t4\tfile1.txt");
}

#[test]
fn test_report_single_file_has_no_total() {
    let stats = Stats {
        files: vec![FileStats {
            name: "a".to_string(),
            lines: Some(1),
            words: Some(2),
            chars: Some(8),
        }],
        total_lines: Some(1),
        total_words: Some(2),
        total_chars: Some(8),
    };
    assert_eq!(render_stats(&stats), vec!["1\t2\t8\ta".to_string()]);
}

#[test]
fn test_report_two_files_ends_with_total() {
    let stats = Stats {
        files: vec![
            FileStats {
                name: "a".to_string(),
                lines: Some(3),
                words: Some(4),
                chars: Some(24),
            },
            FileStats {
                name: "b".to_string(),
                lines: Some(1),
                words: Some(2),
                chars: Some(8),
            },
        ],
        total_lines: Some(4),
        total_words: Some(6),
        total_chars: Some(32),
    };
    assert_eq!(
        render_stats(&stats),
        vec![
            "3\t4\t24\ta".to_string(),
            "1\t2\t8\tb".to_string(),
            "4\t6\t32\ttotal".to_string(),
        ]
    );
}

#[test]
fn test_report_no_files() {
    let stats = Stats {
        files: Vec::new(),
        total_lines: Some(0),
        total_words: Some(0),
        total_chars: Some(0),
    };
    assert_eq!(render_stats(&stats), vec!["No files processed.".to_string()]);
}

#[test]
fn test_casual_greeting() {
    assert_eq!(make_greeting("World", false, false), "Hello, World!");
}

#[test]
fn test_formal_greeting() {
    assert_eq!(make_greeting("Ada", false, true), "Good day, Ada!");
}

#[test]
fn test_shouted_greeting_is_uppercased() {
    assert_eq!(make_greeting("world", true, false), "HELLO, WORLD!");
    assert_eq!(make_greeting("Ada", true, true), "GOOD DAY, ADA!");
}

#[test]
fn test_demo_function_arithmetic() {
    assert_eq!(demo_function(10, 20), 230);
    assert_eq!(demo_function(42, 17), 773);
    assert_eq!(demo_function(1, 2), 5);
    demo_function_call();
}

#[test]
fn test_cycle_counter_combination() {
    assert_eq!(combine_cycle_halves(0x89ab_cdef, 0x0123_4567), 0x0123_4567_89ab_cdef);
    assert_eq!(combine_cycle_halves(5, 0), 5);
    // A reading one carry later holds a larger count.
    assert!(combine_cycle_halves(0, 1) > combine_cycle_halves(u32::MAX, 0));
}

#[test]
fn test_cycles_between() {
    assert_eq!(cycles_between(10, 25), 15);
    assert_eq!(cycles_between(7, 7), 0);
}

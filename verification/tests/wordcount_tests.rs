use frame_inspector::wordcount::aggregate_stats;
use frame_inspector::wordcount::calculate_file_stats;
use frame_inspector::wordcount::CountFlags;
use frame_inspector::wordcount::FileStats;

#[test]
fn test_basic_calculations() {
    let input = "line1\nword2 word3\nline4";
    let flags = CountFlags {
        lines: true,
        words: true,
        chars: true,
    };
    let stats = calculate_file_stats("file1.txt", input, &flags);
    assert_eq!(stats.lines, Some(3));
    assert_eq!(stats.words, Some(4));
    assert_eq!(stats.chars, Some(24));
}

#[test]
fn test_selected_calculations() {
    let input = "line1\nword2 word3\nline4";
    let flags = CountFlags {
        lines: false,
        words: true,
        chars: true,
    };
    let stats = calculate_file_stats("file1.txt", input, &flags);
    assert_eq!(stats.lines, None);
    assert_eq!(stats.words, Some(4));
    assert_eq!(stats.chars, Some(24));
}

#[test]
fn test_empty_content() {
    let flags = CountFlags {
        lines: true,
        words: true,
        chars: true,
    };
    let stats = calculate_file_stats("empty.txt", "", &flags);
    assert_eq!(stats.name, "empty.txt");
    assert_eq!(stats.lines, Some(0));
    assert_eq!(stats.words, Some(0));
    assert_eq!(stats.chars, Some(0));
}

#[test]
fn test_trailing_newline_counts_once() {
    let flags = CountFlags {
        lines: true,
        words: true,
        chars: true,
    };
    let stats = calculate_file_stats("f", "one two\n", &flags);
    assert_eq!(stats.lines, Some(1));
    assert_eq!(stats.words, Some(2));
    assert_eq!(stats.chars, Some(8));
}

#[test]
fn test_carriage_return_belongs_to_break() {
    let flags = CountFlags {
        lines: true,
        words: true,
        chars: true,
    };
    // "a\r\nb": two lines of one character each, each with one break char.
    let stats = calculate_file_stats("f", "a\r\nb", &flags);
    assert_eq!(stats.lines, Some(2));
    assert_eq!(stats.words, Some(2));
    assert_eq!(stats.chars, Some(4));
}

#[test]
fn test_lone_carriage_return_is_kept() {
    let flags = CountFlags {
        lines: true,
        words: false,
        chars: true,
    };
    // A '\r' that no '\n' follows stays a character of its line.
    let stats = calculate_file_stats("f", "a\r", &flags);
    assert_eq!(stats.lines, Some(1));
    assert_eq!(stats.chars, Some(3));
}

#[test]
fn test_aggregate_totals() {
    let files = vec![
        FileStats {
            name: "a".to_string(),
            lines: Some(3),
            words: Some(4),
            chars: Some(24),
        },
        FileStats {
            name: "b".to_string(),
            lines: Some(1),
            words: Some(2),
            chars: Some(8),
        },
    ];
    let stats = aggregate_stats(files);
    assert_eq!(stats.files.len(), 2);
    assert_eq!(stats.total_lines, Some(4));
    assert_eq!(stats.total_words, Some(6));
    assert_eq!(stats.total_chars, Some(32));
}

#[test]
fn test_aggregate_missing_count_gives_no_total() {
    let files = vec![
        FileStats {
            name: "a".to_string(),
            lines: None,
            words: Some(4),
            chars: Some(24),
        },
        FileStats {
            name: "b".to_string(),
            lines: Some(1),
            words: Some(2),
            chars: None,
        },
    ];
    let stats = aggregate_stats(files);
    assert_eq!(stats.total_lines, None);
    assert_eq!(stats.total_words, Some(6));
    assert_eq!(stats.total_chars, None);
}

#[test]
fn test_aggregate_no_files() {
    let stats = aggregate_stats(Vec::new());
    assert_eq!(stats.files.len(), 0);
    assert_eq!(stats.total_lines, Some(0));
    assert_eq!(stats.total_words, Some(0));
    assert_eq!(stats.total_chars, Some(0));
}

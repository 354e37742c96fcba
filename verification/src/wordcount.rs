//! Counting lines, words and characters of a text, and summing the counts
//! over several files.
//!
//! The text is split into lines at `'\n'`, a line's trailing `'\r'` belongs
//! to the break (the splitting of `std::io::BufRead::lines`), and a final
//! line without a break still counts. Each line contributes one character
//! for its break, its remaining characters, and one word per maximal run of
//! non-whitespace characters.

use vstd::prelude::*;
use vstd::string::StrSliceExecFns;

verus! {

/// Which of the three counts a caller asked for.
#[derive(Clone, Copy, Debug, PartialEq, Eq, Structural)]
pub struct CountFlags {
    pub lines: bool,
    pub words: bool,
    pub chars: bool,
}

/// The requested counts of one file; a count that was not asked for is
/// `None`.
#[derive(Debug)]
pub struct FileStats {
    pub name: String,
    pub lines: Option<usize>,
    pub words: Option<usize>,
    pub chars: Option<usize>,
}

/// Per-file counts together with their sums; a total is `None` when any
/// file misses that count.
#[derive(Debug)]
pub struct Stats {
    pub files: Vec<FileStats>,
    pub total_lines: Option<usize>,
    pub total_words: Option<usize>,
    pub total_chars: Option<usize>,
}

/// A whitespace character (the Unicode `White_Space` set, as
/// `char::is_whitespace` decides it).
pub open spec fn spec_is_whitespace(c: char) -> bool {
    let u = c as u32;
    ||| u == 0x09
    ||| u == 0x0a
    ||| u == 0x0b
    ||| u == 0x0c
    ||| u == 0x0d
    ||| u == 0x20
    ||| u == 0x85
    ||| u == 0xa0
    ||| u == 0x1680
    ||| (0x2000 <= u && u <= 0x200a)
    ||| u == 0x2028
    ||| u == 0x2029
    ||| u == 0x202f
    ||| u == 0x205f
    ||| u == 0x3000
}

/// Runtime test of [`spec_is_whitespace`].
pub fn is_whitespace_char(c: char) -> (ws: bool)
    ensures
        ws == spec_is_whitespace(c),
{
    let u = c as u32;
    u == 0x09 || u == 0x0a || u == 0x0b || u == 0x0c || u == 0x0d || u == 0x20 || u == 0x85 || u
        == 0xa0 || u == 0x1680 || (0x2000 <= u && u <= 0x200a) || u == 0x2028 || u == 0x2029 || u
        == 0x202f || u == 0x205f || u == 0x3000
}

/// How many of the first `n` characters are line breaks.
pub open spec fn newlines_in(s: Seq<char>, n: int) -> int
    decreases n,
{
    if n <= 0 {
        0
    } else {
        newlines_in(s, n - 1) + if s[n - 1] == '\n' {
            1int
        } else {
            0int
        }
    }
}

/// How many words start among the first `n` characters: a word starts at a
/// non-whitespace character that opens the text or follows whitespace.
pub open spec fn word_starts_in(s: Seq<char>, n: int) -> int
    decreases n,
{
    if n <= 0 {
        0
    } else {
        word_starts_in(s, n - 1) + if !spec_is_whitespace(s[n - 1]) && (n - 1 == 0
            || spec_is_whitespace(s[n - 2])) {
            1int
        } else {
            0int
        }
    }
}

/// How many of the first `n` characters count: every character but a `'\r'`
/// that a `'\n'` follows, which belongs to its line's break.
pub open spec fn counted_chars_in(s: Seq<char>, n: int) -> int
    decreases n,
{
    if n <= 0 {
        0
    } else {
        counted_chars_in(s, n - 1) + if s[n - 1] == '\r' && n < s.len() && s[n] == '\n' {
            0int
        } else {
            1int
        }
    }
}

/// The number of lines: one per line break, and one more for a final line
/// without a break.
pub open spec fn spec_line_count(s: Seq<char>) -> int {
    if s.len() == 0 {
        0
    } else if s[s.len() - 1] == '\n' {
        newlines_in(s, s.len() as int)
    } else {
        newlines_in(s, s.len() as int) + 1
    }
}

/// The number of words of the whole text.
pub open spec fn spec_word_count(s: Seq<char>) -> int {
    word_starts_in(s, s.len() as int)
}

/// The number of characters: each line's characters and one per line,
/// counting a final line without a break like a broken one.
pub open spec fn spec_char_count(s: Seq<char>) -> int {
    if s.len() == 0 {
        0
    } else if s[s.len() - 1] == '\n' {
        counted_chars_in(s, s.len() as int)
    } else {
        counted_chars_in(s, s.len() as int) + 1
    }
}

/// Counts `content` and keeps, under `name`, the counts that `flags` ask
/// for.
#[verifier::loop_isolation(false)]
pub fn calculate_file_stats(name: &str, content: &str, flags: &CountFlags) -> (stats: FileStats)
    requires
        content@.len() < usize::MAX,
    ensures
        stats.name@ == name@,
        stats.lines == (if flags.lines {
            Some(spec_line_count(content@) as usize)
        } else {
            None::<usize>
        }),
        stats.words == (if flags.words {
            Some(spec_word_count(content@) as usize)
        } else {
            None::<usize>
        }),
        stats.chars == (if flags.chars {
            Some(spec_char_count(content@) as usize)
        } else {
            None::<usize>
        }),
{
    let n = content.unicode_len();
    let mut i: usize = 0;
    let mut newlines: usize = 0;
    let mut words: usize = 0;
    let mut counted: usize = 0;
    let mut prev_ws = true;
    while i < n
        invariant
            i <= n,
            newlines == newlines_in(content@, i as int),
            newlines <= i,
            words == word_starts_in(content@, i as int),
            words <= i,
            counted == counted_chars_in(content@, i as int),
            counted <= i,
            prev_ws == (i == 0 || spec_is_whitespace(content@[i as int - 1])),
        decreases n - i,
    {
        let c = content.get_char(i);
        if c == '\n' {
            newlines = newlines + 1;
        }
        let ws = is_whitespace_char(c);
        if !ws && prev_ws {
            words = words + 1;
        }
        let breaks_next = c == '\r' && i + 1 < n && content.get_char(i + 1) == '\n';
        if !breaks_next {
            counted = counted + 1;
        }
        prev_ws = ws;
        i = i + 1;
    }
    let mut line_total = newlines;
    let mut char_total = counted;
    if n > 0 && content.get_char(n - 1) != '\n' {
        line_total = line_total + 1;
        char_total = char_total + 1;
    }
    FileStats {
        name: name.to_owned(),
        lines: if flags.lines {
            Some(line_total)
        } else {
            None
        },
        words: if flags.words {
            Some(words)
        } else {
            None
        },
        chars: if flags.chars {
            Some(char_total)
        } else {
            None
        },
    }
}

/// The sum of a sequence of optional counts: the sum of all of them, or
/// `None` as soon as one is missing.
pub open spec fn sum_counts(counts: Seq<Option<usize>>) -> Option<int>
    decreases counts.len(),
{
    if counts.len() == 0 {
        Some(0int)
    } else {
        match (sum_counts(counts.drop_last()), counts.last()) {
            (Some(acc), Some(c)) => Some(acc + c),
            _ => None::<int>,
        }
    }
}

/// An executable count agrees with a mathematical sum.
pub open spec fn matches_sum(total: Option<usize>, sum: Option<int>) -> bool {
    match (total, sum) {
        (Some(t), Some(s)) => t == s,
        (None, None) => true,
        _ => false,
    }
}

/// The line counts of a run of files, in order.
pub open spec fn lines_of(files: Seq<FileStats>) -> Seq<Option<usize>> {
    files.map_values(|f: FileStats| f.lines)
}

/// The word counts of a run of files, in order.
pub open spec fn words_of(files: Seq<FileStats>) -> Seq<Option<usize>> {
    files.map_values(|f: FileStats| f.words)
}

/// The character counts of a run of files, in order.
pub open spec fn chars_of(files: Seq<FileStats>) -> Seq<Option<usize>> {
    files.map_values(|f: FileStats| f.chars)
}

/// Every partial sum of the counts that is a number fits in a machine word,
/// so summing them left to right cannot overflow.
pub open spec fn partial_sums_fit(counts: Seq<Option<usize>>) -> bool {
    forall|i: int|
        0 <= i <= counts.len() ==> (match sum_counts(#[trigger] counts.take(i)) {
            Some(t) => t <= usize::MAX,
            None => true,
        })
}

/// Sums the per-file counts into totals: a total is the sum of that count
/// over all files, or `None` when any file misses it.
#[verifier::loop_isolation(false)]
pub fn aggregate_stats(files: Vec<FileStats>) -> (stats: Stats)
    requires
        partial_sums_fit(lines_of(files@)),
        partial_sums_fit(words_of(files@)),
        partial_sums_fit(chars_of(files@)),
    ensures
        stats.files == files,
        matches_sum(stats.total_lines, sum_counts(lines_of(files@))),
        matches_sum(stats.total_words, sum_counts(words_of(files@))),
        matches_sum(stats.total_chars, sum_counts(chars_of(files@))),
{
    let mut total_lines: Option<usize> = Some(0);
    let mut total_words: Option<usize> = Some(0);
    let mut total_chars: Option<usize> = Some(0);
    let mut i: usize = 0;
    while i < files.len()
        invariant
            i <= files.len(),
            matches_sum(total_lines, sum_counts(lines_of(files@).take(i as int))),
            matches_sum(total_words, sum_counts(words_of(files@).take(i as int))),
            matches_sum(total_chars, sum_counts(chars_of(files@).take(i as int))),
        decreases files.len() - i,
    {
        proof {
            lemma_take_step(lines_of(files@), i as int);
            lemma_take_step(words_of(files@), i as int);
            lemma_take_step(chars_of(files@), i as int);
        }
        let f = &files[i];
        total_lines = add_count(total_lines, f.lines);
        total_words = add_count(total_words, f.words);
        total_chars = add_count(total_chars, f.chars);
        i = i + 1;
    }
    proof {
        assert(lines_of(files@).take(files@.len() as int) =~= lines_of(files@));
        assert(words_of(files@).take(files@.len() as int) =~= words_of(files@));
        assert(chars_of(files@).take(files@.len() as int) =~= chars_of(files@));
    }
    Stats { files, total_lines, total_words, total_chars }
}

/// One more count taken into a running sum that is built left to right.
proof fn lemma_take_step(counts: Seq<Option<usize>>, i: int)
    requires
        0 <= i < counts.len(),
    ensures
        counts.take(i + 1).drop_last() =~= counts.take(i),
        counts.take(i + 1).last() == counts[i],
        sum_counts(counts.take(i + 1)) == (match (sum_counts(counts.take(i)), counts[i]) {
            (Some(acc), Some(c)) => Some(acc + c),
            _ => None::<int>,
        }),
{
    assert(counts.take(i + 1).drop_last() =~= counts.take(i));
}

/// Adds one optional count to a running total.
fn add_count(acc: Option<usize>, count: Option<usize>) -> (sum: Option<usize>)
    requires
        (match (acc, count) {
            (Some(a), Some(c)) => a + c <= usize::MAX,
            _ => true,
        }),
    ensures
        sum == (match (acc, count) {
            (Some(a), Some(c)) => Some((a + c) as usize),
            _ => None::<usize>,
        }),
{
    match (acc, count) {
        (Some(a), Some(c)) => Some(a + c),
        _ => None,
    }
}

} // verus!

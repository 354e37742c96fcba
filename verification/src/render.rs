//! Laying counts out as tab-separated report rows.
//!
//! A file's row holds the counts that were asked for, in the order lines,
//! words, characters, each after a tab except a leading line count, and the
//! file's name last. A report of more than one file ends with the same row
//! over the totals, named `total`; a report of no files is a single notice.

use crate::wordcount::FileStats;
use crate::wordcount::Stats;
use vstd::prelude::*;
use vstd::string::StringExecFns;

verus! {

/// The decimal digit character of `d`.
pub open spec fn digit_char(d: int) -> char {
    if d == 0 {
        '0'
    } else if d == 1 {
        '1'
    } else if d == 2 {
        '2'
    } else if d == 3 {
        '3'
    } else if d == 4 {
        '4'
    } else if d == 5 {
        '5'
    } else if d == 6 {
        '6'
    } else if d == 7 {
        '7'
    } else if d == 8 {
        '8'
    } else {
        '9'
    }
}

/// The decimal numeral of `n`, most significant digit first.
pub open spec fn spec_decimal(n: int) -> Seq<char>
    decreases n,
{
    if n < 10 {
        seq![digit_char(n)]
    } else {
        spec_decimal(n / 10) + seq![digit_char(n % 10)]
    }
}

/// The one-character string of a decimal digit.
fn digit_str(d: usize) -> (s: &'static str)
    requires
        d < 10,
    ensures
        s@ == seq![digit_char(d as int)],
{
    let s: &'static str = if d == 0 {
        "0"
    } else if d == 1 {
        "1"
    } else if d == 2 {
        "2"
    } else if d == 3 {
        "3"
    } else if d == 4 {
        "4"
    } else if d == 5 {
        "5"
    } else if d == 6 {
        "6"
    } else if d == 7 {
        "7"
    } else if d == 8 {
        "8"
    } else {
        "9"
    };
    proof {
        reveal_strlit("0");
        reveal_strlit("1");
        reveal_strlit("2");
        reveal_strlit("3");
        reveal_strlit("4");
        reveal_strlit("5");
        reveal_strlit("6");
        reveal_strlit("7");
        reveal_strlit("8");
        reveal_strlit("9");
        assert(s@ =~= seq![digit_char(d as int)]);
    }
    s
}

/// Writes `n` in decimal.
pub fn decimal_string(n: usize) -> (s: String)
    ensures
        s@ == spec_decimal(n as int),
    decreases n,
{
    if n < 10 {
        digit_str(n).to_owned()
    } else {
        let mut s = decimal_string(n / 10);
        s.append(digit_str(n % 10));
        proof {
            assert(s@ =~= spec_decimal(n as int));
        }
        s
    }
}

/// One cell of a row: empty for a count that was not asked for, else the
/// count in decimal, after a tab where `lead_tab` says so.
pub open spec fn spec_cell(count: Option<usize>, lead_tab: bool) -> Seq<char> {
    match count {
        Some(c) => if lead_tab {
            seq!['\t'] + spec_decimal(c as int)
        } else {
            spec_decimal(c as int)
        },
        None => Seq::empty(),
    }
}

/// The row of one file: its counts, then its name, tab-separated.
pub open spec fn spec_file_row(f: FileStats) -> Seq<char> {
    spec_cell(f.lines, false) + spec_cell(f.words, true) + spec_cell(f.chars, true) + seq!['\t']
        + f.name@
}

/// The closing row of a report over several files: the totals, named
/// `total`.
pub open spec fn spec_total_row(stats: Stats) -> Seq<char> {
    spec_cell(stats.total_lines, false) + spec_cell(stats.total_words, true) + spec_cell(
        stats.total_chars,
        true,
    ) + seq!['\t'] + "total"@
}

/// The rows of a whole report: one per file, the totals after them when
/// there is more than one file, and a notice for none.
pub open spec fn spec_stats_rows(stats: Stats) -> Seq<Seq<char>> {
    if stats.files@.len() == 0 {
        seq!["No files processed."@]
    } else if stats.files@.len() == 1 {
        stats.files@.map_values(|f: FileStats| spec_file_row(f))
    } else {
        stats.files@.map_values(|f: FileStats| spec_file_row(f)) + seq![spec_total_row(stats)]
    }
}

/// Appends one cell to a row under construction.
fn push_cell(row: &mut String, count: Option<usize>, lead_tab: bool)
    ensures
        final(row)@ == old(row)@ + spec_cell(count, lead_tab),
{
    match count {
        Some(c) => {
            if lead_tab {
                row.append("\t");
            }
            let d = decimal_string(c);
            row.append(d.as_str());
            proof {
                reveal_strlit("\t");
                assert(row@ =~= old(row)@ + spec_cell(count, lead_tab));
            }
        },
        None => {
            proof {
                assert(row@ =~= old(row)@ + spec_cell(count, lead_tab));
            }
        },
    }
}

/// Renders the row of one file.
pub fn render_file_row(f: &FileStats) -> (row: String)
    ensures
        row@ == spec_file_row(*f),
{
    let mut row = String::new();
    push_cell(&mut row, f.lines, false);
    push_cell(&mut row, f.words, true);
    push_cell(&mut row, f.chars, true);
    row.append("\t");
    row.append(f.name.as_str());
    proof {
        reveal_strlit("\t");
        assert(row@ =~= spec_file_row(*f));
    }
    row
}

/// Renders the closing totals row.
pub fn render_total_row(stats: &Stats) -> (row: String)
    ensures
        row@ == spec_total_row(*stats),
{
    let mut row = String::new();
    push_cell(&mut row, stats.total_lines, false);
    push_cell(&mut row, stats.total_words, true);
    push_cell(&mut row, stats.total_chars, true);
    row.append("\t");
    row.append("total");
    proof {
        reveal_strlit("\t");
        assert(row@ =~= spec_total_row(*stats));
    }
    row
}

/// Renders the whole report, one row per output line.
#[verifier::loop_isolation(false)]
pub fn render_stats(stats: &Stats) -> (rows: Vec<String>)
    ensures
        rows@.map_values(|r: String| r@) == spec_stats_rows(*stats),
{
    let mut rows: Vec<String> = Vec::new();
    if stats.files.len() == 0 {
        rows.push("No files processed.".to_owned());
        proof {
            assert(rows@.map_values(|r: String| r@) =~= spec_stats_rows(*stats));
        }
        return rows;
    }
    let mut i: usize = 0;
    while i < stats.files.len()
        invariant
            i <= stats.files@.len(),
            rows@.len() == i,
            forall|j: int| 0 <= j < i ==> (#[trigger] rows@[j])@ == spec_file_row(stats.files@[j]),
        decreases stats.files@.len() - i,
    {
        let row = render_file_row(&stats.files[i]);
        rows.push(row);
        i = i + 1;
    }
    if stats.files.len() > 1 {
        let row = render_total_row(stats);
        rows.push(row);
    }
    proof {
        let frows = stats.files@.map_values(|f: FileStats| spec_file_row(f));
        if stats.files@.len() == 1 {
            assert(rows@.map_values(|r: String| r@) =~= frows);
        } else {
            assert(rows@.map_values(|r: String| r@) =~= frows + seq![spec_total_row(*stats)]);
        }
    }
    rows
}

} // verus!

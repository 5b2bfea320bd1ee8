//! Telling the format of a file by its name.

use crate::data_source::schema::{DataSourceFormat, DataSourceFormatView};
use crate::text::{
    chars_of, ends_with, first_index_of, index_of, lemma_ends_with_after_run,
    lemma_first_index_after_run, lemma_first_index_bounds, prefix_ends_with, trim_end,
    trimmed_end,
};
use vstd::prelude::*;
use vstd::string::*;

verus! {

/// The name names a sheet of a spreadsheet: it holds a `#`, and what stands
/// before the first one ends in `.xlsx`.
pub open spec fn names_sheet(name: Seq<char>) -> bool {
    let at = first_index_of(name, '#');
    at < name.len() && ends_with(name.subrange(0, at), ".xlsx"@)
}

/// The format that a name without trailing quotes stands for.
pub open spec fn format_by_suffix(name: Seq<char>) -> Option<DataSourceFormatView> {
    if ends_with(name, ".csv"@) {
        Some(DataSourceFormatView::CSV)
    } else if ends_with(name, ".json"@) {
        Some(DataSourceFormatView::JSON)
    } else if ends_with(name, ".log"@) {
        Some(DataSourceFormatView::NdJson { file_extension: ".log"@ })
    } else if ends_with(name, ".txt"@) {
        Some(DataSourceFormatView::NdJson { file_extension: ".txt"@ })
    } else if ends_with(name, ".tsv"@) {
        Some(DataSourceFormatView::TSV)
    } else if ends_with(name, ".xlsx"@) || names_sheet(name) {
        Some(DataSourceFormatView::XLSX)
    } else {
        None
    }
}

/// The format that a file name stands for. Single quotes at the end of
/// the name do not count. The suffix decides, letter case included:
/// `.csv`, `.json`, `.log`, `.txt`, `.tsv`, `.xlsx`, or `.xlsx` followed
/// by `#` and the name of a sheet.
pub open spec fn format_of(file_name: Seq<char>) -> Option<DataSourceFormatView> {
    format_by_suffix(trim_end(file_name, '\''))
}

/// The format that a file name stands for, if it stands for one.
pub fn get_format(file_name: &str) -> (format: Option<DataSourceFormat>)
    ensures
        match format_of(file_name@) {
            Some(expected) => format matches Some(found) && found@ == expected,
            None => format is None,
        },
{
    let chars = chars_of(file_name);
    let end = trimmed_end(&chars, '\'');
    let csv = chars_of(".csv");
    let json = chars_of(".json");
    let log = chars_of(".log");
    let txt = chars_of(".txt");
    let tsv = chars_of(".tsv");
    let xlsx = chars_of(".xlsx");
    if prefix_ends_with(&chars, end, &csv) {
        Some(DataSourceFormat::CSV)
    } else if prefix_ends_with(&chars, end, &json) {
        Some(DataSourceFormat::JSON)
    } else if prefix_ends_with(&chars, end, &log) {
        Some(DataSourceFormat::NdJson { file_extension: String::from_str(".log") })
    } else if prefix_ends_with(&chars, end, &txt) {
        Some(DataSourceFormat::NdJson { file_extension: String::from_str(".txt") })
    } else if prefix_ends_with(&chars, end, &tsv) {
        Some(DataSourceFormat::TSV)
    } else if prefix_ends_with(&chars, end, &xlsx) {
        Some(DataSourceFormat::XLSX)
    } else {
        let at = index_of(&chars, '#');
        proof {
            lemma_first_index_in_prefix(file_name@, end as int, '#');
        }
        if at < end && prefix_ends_with(&chars, at, &xlsx) {
            proof {
                let name = file_name@.subrange(0, end as int);
                assert(name.subrange(0, at as int) =~= file_name@.subrange(0, at as int));
            }
            Some(DataSourceFormat::XLSX)
        } else {
            proof {
                let name = file_name@.subrange(0, end as int);
                if at < end {
                    assert(name.subrange(0, at as int) =~= file_name@.subrange(0, at as int));
                }
            }
            None
        }
    }
}

/// The first `c` of a prefix of `s` is the first `c` of `s`, as long as it
/// lies within the prefix.
pub proof fn lemma_first_index_in_prefix(s: Seq<char>, end: int, c: char)
    requires
        0 <= end <= s.len(),
    ensures
        first_index_of(s, c) < end ==> first_index_of(s.subrange(0, end), c) == first_index_of(
            s,
            c,
        ),
        first_index_of(s, c) >= end ==> first_index_of(s.subrange(0, end), c) == end,
    decreases end,
{
    let prefix = s.subrange(0, end);
    lemma_first_index_bounds(s, c);
    if end == 0 {
    } else if s[0] == c {
    } else {
        assert(prefix.drop_first() =~= s.drop_first().subrange(0, end - 1));
        lemma_first_index_in_prefix(s.drop_first(), end - 1, c);
    }
}

/// Leading single quotes do not count either: a name stands for the same
/// format with and without them.
proof fn lemma_format_after_quotes(name: Seq<char>, k: int)
    requires
        0 <= k <= name.len(),
        forall|i: int| 0 <= i < k ==> name[i] == '\'',
    ensures
        format_by_suffix(name.subrange(k, name.len() as int)) == format_by_suffix(name),
{
    let rest = name.subrange(k, name.len() as int);
    reveal_strlit(".csv");
    reveal_strlit(".json");
    reveal_strlit(".log");
    reveal_strlit(".txt");
    reveal_strlit(".tsv");
    reveal_strlit(".xlsx");
    lemma_ends_with_after_run(name, k, '\'', ".csv"@);
    lemma_ends_with_after_run(name, k, '\'', ".json"@);
    lemma_ends_with_after_run(name, k, '\'', ".log"@);
    lemma_ends_with_after_run(name, k, '\'', ".txt"@);
    lemma_ends_with_after_run(name, k, '\'', ".tsv"@);
    lemma_ends_with_after_run(name, k, '\'', ".xlsx"@);
    lemma_first_index_after_run(name, k, '\'', '#');
    lemma_first_index_bounds(rest, '#');
    let at = first_index_of(name, '#');
    let before = name.subrange(0, at);
    assert forall|i: int| 0 <= i < k implies before[i] == '\'' by {
    }
    lemma_ends_with_after_run(before, k, '\'', ".xlsx"@);
    assert(before.subrange(k, before.len() as int) =~= rest.subrange(0, at - k));
}

/// The quotes around a name do not count: a name stands for the same
/// format with and without the single quotes at its ends.
pub proof fn lemma_format_without_quotes(name: Seq<char>)
    ensures
        format_of(crate::text::trim_both(name, '\'')) == format_of(name),
{
    let inner = trim_end(name, '\'');
    crate::text::lemma_trim_end_is_prefix(name, '\'');
    crate::text::lemma_trim_start_is_suffix(inner, '\'');
    let k = crate::text::leading_run(inner, '\'');
    lemma_format_after_quotes(inner, k);
}

} // verus!

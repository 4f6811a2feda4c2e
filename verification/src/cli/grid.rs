//! Tables as they are printed.

use crate::text;
use vstd::prelude::*;

verus! {

/// The text that comfy-table makes of a header and rows, in its full UTF-8 style.
pub uninterp spec fn table_text(header: Seq<Seq<char>>, rows: Seq<Seq<Seq<char>>>) -> Seq<char>;

/// Calls `comfy_table::Table`: a new table with the preset `UTF8_FULL`, the header, the
/// rows, and its `Display`. The text depends on the header and the rows alone: the
/// terminal's width is asked for only by other content arrangements than the default
/// one, and colours only where a cell has one. What the table looks like is left unsaid.
#[verifier::external_body]
pub(crate) fn render_table(header: &Vec<String>, rows: &Vec<Vec<String>>) -> (r: String)
    ensures
        r@ == table_text(text::texts(header@), text::rows(rows@)),
{
    let mut table = comfy_table::Table::new();
    table.load_preset(comfy_table::presets::UTF8_FULL);
    table.set_header(header.clone());
    table.add_rows(rows.clone());
    table.to_string()
}

/// A row of two cells.
pub fn pair(name: &str, value: String) -> (r: Vec<String>)
    ensures
        text::texts(r@) == seq![name@, value@],
{
    let r: Vec<String> = vec![name.to_owned(), value];
    assert(text::texts(r@) =~= seq![name@, value@]);
    r
}

/// `rows` with `row` behind them.
pub(crate) fn add_row(rows: &mut Vec<Vec<String>>, row: Vec<String>)
    ensures
        text::rows(final(rows)@) == text::rows(old(rows)@).push(text::texts(row@)),
{
    let ghost before = rows@;
    rows.push(row);
    assert(text::rows(rows@) =~= text::rows(before).push(text::texts(rows@.last()@)));
}

/// `true` or `false`.
pub open spec fn bool_text(b: bool) -> Seq<char> {
    if b {
        "true"@
    } else {
        "false"@
    }
}

/// `true` or `false`.
pub fn show_bool(b: bool) -> (r: String)
    ensures
        r@ == bool_text(b),
{
    if b {
        "true".to_owned()
    } else {
        "false".to_owned()
    }
}

/// An optional text, with something in its place where it is missing.
pub open spec fn text_or(t: Option<String>, missing: Seq<char>) -> Seq<char> {
    match t {
        Some(s) => s@,
        None => missing,
    }
}

/// An optional text, with `missing` in its place where it is missing.
pub fn show_or(t: &Option<String>, missing: &str) -> (r: String)
    ensures
        r@ == text_or(*t, missing@),
{
    match t {
        Some(s) => s.clone(),
        None => missing.to_owned(),
    }
}

} // verus!

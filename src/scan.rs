//! The line scanner: classifies each line and folds the lines into tables.
use vstd::prelude::*;
use vstd::string::*;
use crate::coerce::{coerce, spec_coerce, CharPolicy};
use crate::table::{fields_view, Table, TableModel};
use crate::text::{find_char, first_index, trim, trim_str};
use crate::value::Value;

verus! {

/// What one line of the file says.
pub ghost enum LineModel {
    /// Blank, a `#` comment, or a line with no `=` that is no header.
    Skip,
    /// `[name]`.
    Header(Seq<char>),
    /// `key = raw`, both sides trimmed.
    Assign(Seq<char>, Seq<char>),
}

/// Classifies a line: trimmed, a blank or `#` line is skipped, `[...]` is a
/// header whose name is what stands between the outer brackets, and otherwise
/// the first `=` splits a key from a raw value.
pub open spec fn line_kind(l: Seq<char>) -> LineModel {
    let t = trim(l);
    if t.len() == 0 || t[0] == '#' {
        LineModel::Skip
    } else if t[0] == '[' && t.last() == ']' {
        LineModel::Header(t.subrange(1, t.len() - 1))
    } else {
        let e = first_index(t, '=');
        if e == t.len() {
            LineModel::Skip
        } else {
            LineModel::Assign(trim(t.subrange(0, e)), trim(t.subrange(e + 1, t.len() as int)))
        }
    }
}

/// A classified line.
#[derive(Debug, Clone, PartialEq)]
pub enum Line {
    Skip,
    Header(String),
    Assign(String, String),
}

impl View for Line {
    type V = LineModel;

    open spec fn view(&self) -> LineModel {
        match self {
            Line::Skip => LineModel::Skip,
            Line::Header(n) => LineModel::Header(n@),
            Line::Assign(k, v) => LineModel::Assign(k@, v@),
        }
    }
}

/// The scanner's state between lines: the sealed tables and the open one.
pub ghost struct ScanState {
    pub done: Seq<TableModel>,
    pub cur: Option<TableModel>,
}

pub open spec fn initial() -> ScanState {
    ScanState { done: Seq::empty(), cur: None }
}

/// The sealed tables, followed by the open one if there is one.
pub open spec fn seal(st: ScanState) -> Seq<TableModel> {
    match st.cur {
        Some(t) => st.done.push(t),
        None => st.done,
    }
}

/// One line's effect: a header seals the open table and opens an empty one;
/// an assignment appends its coerced value to the open table, and is dropped
/// when no table is open.
pub open spec fn step(st: ScanState, line: Seq<char>, policy: CharPolicy) -> ScanState {
    match line_kind(line) {
        LineModel::Skip => st,
        LineModel::Header(name) => ScanState {
            done: seal(st),
            cur: Some(TableModel { name, fields: Seq::empty() }),
        },
        LineModel::Assign(key, raw) => match st.cur {
            None => st,
            Some(t) => ScanState {
                done: st.done,
                cur: Some(
                    TableModel { name: t.name, fields: t.fields.push((key, spec_coerce(raw, policy))) },
                ),
            },
        },
    }
}

/// The state after the lines, from `st`.
pub open spec fn scan_from(st: ScanState, lines: Seq<Seq<char>>, policy: CharPolicy) -> ScanState
    decreases lines.len(),
{
    if lines.len() == 0 {
        st
    } else {
        step(scan_from(st, lines.drop_last(), policy), lines.last(), policy)
    }
}

/// The tables of a file, in header order.
pub open spec fn spec_parse(lines: Seq<Seq<char>>, policy: CharPolicy) -> Seq<TableModel> {
    seal(scan_from(initial(), lines, policy))
}

pub open spec fn lines_view(lines: Seq<String>) -> Seq<Seq<char>> {
    lines.map_values(|s: String| s@)
}

pub open spec fn tables_view(tables: Seq<Table>) -> Seq<TableModel> {
    tables.map_values(|t: Table| t@)
}

/// Classifies one line of the file.
pub fn classify(line: &str) -> (r: Line)
    ensures
        r@ == line_kind(line@),
{
    let t = trim_str(line);
    let n = t.unicode_len();
    if n == 0 {
        return Line::Skip;
    }
    let first = t.get_char(0);
    if first == '#' {
        return Line::Skip;
    }
    if first == '[' && t.get_char(n - 1) == ']' {
        return Line::Header(String::from_str(t.substring_char(1, n - 1)));
    }
    match find_char(t, '=') {
        None => Line::Skip,
        Some(e) => {
            let key = trim_str(t.substring_char(0, e));
            let raw = trim_str(t.substring_char(e + 1, n));
            Line::Assign(String::from_str(key), String::from_str(raw))
        },
    }
}

/// Scans the lines of a file into its tables, in header order, each with its
/// fields in line order.
pub fn parse_lines(lines: &Vec<String>, policy: CharPolicy) -> (r: Vec<Table>)
    ensures
        tables_view(r@) == spec_parse(lines_view(lines@), policy),
{
    let ghost lv = lines_view(lines@);
    let mut done: Vec<Table> = Vec::new();
    let mut open = false;
    let mut name = String::new();
    let mut fields: Vec<(String, Value)> = Vec::new();
    let mut i: usize = 0;
    assert(lv.subrange(0, 0) =~= Seq::<Seq<char>>::empty());
    assert(tables_view(done@) =~= Seq::<TableModel>::empty());
    while i < lines.len()
        invariant
            lv == lines_view(lines@),
            i <= lines@.len(),
            scan_from(initial(), lv.subrange(0, i as int), policy) == (ScanState {
                done: tables_view(done@),
                cur: if open {
                    Some(TableModel { name: name@, fields: fields_view(fields@) })
                } else {
                    None
                },
            }),
        decreases lines@.len() - i,
    {
        let ghost pre = lv.subrange(0, i as int);
        assert(lv.subrange(0, i + 1).drop_last() =~= pre);
        assert(lv.subrange(0, i + 1).last() == lines@[i as int]@);
        match classify(lines[i].as_str()) {
            Line::Skip => {},
            Line::Header(h) => {
                if open {
                    let ghost before = done@;
                    let t = Table { name, fields };
                    done.push(t);
                    assert(tables_view(done@) =~= tables_view(before).push(t@));
                }
                open = true;
                name = h;
                fields = Vec::new();
                assert(fields_view(fields@) =~= Seq::<(Seq<char>, crate::value::Scalar)>::empty());
            },
            Line::Assign(k, raw) => {
                if open {
                    let v = coerce(raw.as_str(), policy);
                    let ghost before = fields@;
                    let ghost kv = k@;
                    fields.push((k, v));
                    assert(fields_view(fields@) =~= fields_view(before).push((kv, v@)));
                }
            },
        }
        i = i + 1;
    }
    assert(lv.subrange(0, lines@.len() as int) =~= lv);
    if open {
        let ghost before = done@;
        let t = Table { name, fields };
        done.push(t);
        assert(tables_view(done@) =~= tables_view(before).push(t@));
    }
    done
}

} // verus!

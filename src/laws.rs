//! Properties of the scanner and of materialization, over the spec model.
use vstd::prelude::*;
use crate::coerce::{spec_coerce, CharPolicy};
use crate::scan::{initial, line_kind, scan_from, seal, spec_parse, step, LineModel, ScanState};
use crate::table::{lemma_materialize_err_prefix, lookup, spec_materialize, TableModel};
use crate::text::trim;
use crate::value::{kind_of, Kind, Scalar};

verus! {

/// The names of the header lines, in line order.
pub open spec fn header_names(lines: Seq<Seq<char>>) -> Seq<Seq<char>>
    decreases lines.len(),
{
    if lines.len() == 0 {
        Seq::empty()
    } else {
        match line_kind(lines.last()) {
            LineModel::Header(n) => header_names(lines.drop_last()).push(n),
            _ => header_names(lines.drop_last()),
        }
    }
}

pub open spec fn names(tables: Seq<TableModel>) -> Seq<Seq<char>> {
    tables.map_values(|t: TableModel| t.name)
}

/// A blank line or a `#` comment.
pub open spec fn is_comment_or_blank(l: Seq<char>) -> bool {
    trim(l).len() == 0 || trim(l)[0] == '#'
}

proof fn lemma_scan_names(lines: Seq<Seq<char>>, policy: CharPolicy)
    ensures
        names(seal(scan_from(initial(), lines, policy))) == header_names(lines),
        scan_from(initial(), lines, policy).cur is None <==> header_names(lines).len() == 0,
    decreases lines.len(),
{
    if lines.len() > 0 {
        let pre = lines.drop_last();
        lemma_scan_names(pre, policy);
        let st = scan_from(initial(), pre, policy);
        match line_kind(lines.last()) {
            LineModel::Header(n) => {
                let t = TableModel { name: n, fields: Seq::empty() };
                assert(names(seal(st).push(t)) =~= names(seal(st)).push(n));
            },
            LineModel::Assign(k, raw) => {
                if let Some(t) = st.cur {
                    let t2 = TableModel {
                        name: t.name,
                        fields: t.fields.push((k, spec_coerce(raw, policy))),
                    };
                    assert(names(st.done.push(t2)) =~= names(st.done.push(t)));
                }
            },
            LineModel::Skip => {},
        }
    } else {
        assert(names(Seq::<TableModel>::empty()) =~= Seq::<Seq<char>>::empty());
    }
}

proof fn lemma_scan_append(st: ScanState, a: Seq<Seq<char>>, b: Seq<Seq<char>>, policy: CharPolicy)
    ensures
        scan_from(st, a + b, policy) == scan_from(scan_from(st, a, policy), b, policy),
    decreases b.len(),
{
    if b.len() == 0 {
        assert(a + b =~= a);
    } else {
        assert((a + b).drop_last() =~= a + b.drop_last());
        lemma_scan_append(st, a, b.drop_last(), policy);
    }
}

proof fn lemma_no_header_no_state(lines: Seq<Seq<char>>, policy: CharPolicy)
    requires
        header_names(lines).len() == 0,
    ensures
        scan_from(initial(), lines, policy) == initial(),
    decreases lines.len(),
{
    if lines.len() > 0 {
        let pre = lines.drop_last();
        match line_kind(lines.last()) {
            LineModel::Header(n) => {
                assert(header_names(lines).len() == header_names(pre).len() + 1);
            },
            _ => {
                lemma_no_header_no_state(pre, policy);
            },
        }
    }
}

/// Tables come out in the order of their header lines, one per header.
pub proof fn lemma_tables_in_header_order(lines: Seq<Seq<char>>, policy: CharPolicy)
    ensures
        names(spec_parse(lines, policy)) == header_names(lines),
{
    lemma_scan_names(lines, policy);
}

/// An assignment line after some header appends its key and coerced value
/// at the end of the last table, whatever keys that table already has, and
/// changes nothing else.
pub proof fn lemma_assignment_appends(
    lines: Seq<Seq<char>>,
    line: Seq<char>,
    policy: CharPolicy,
)
    requires
        header_names(lines).len() > 0,
        line_kind(line) is Assign,
    ensures
        ({
            let p = spec_parse(lines, policy);
            let (k, raw) = (line_kind(line)->Assign_0, line_kind(line)->Assign_1);
            spec_parse(lines.push(line), policy) == p.update(
                p.len() - 1,
                TableModel { name: p.last().name, fields: p.last().fields.push((k, spec_coerce(raw, policy))) },
            )
        }),
{
    lemma_scan_names(lines, policy);
    assert(lines.push(line).drop_last() =~= lines);
    let st = scan_from(initial(), lines, policy);
    let t = st.cur->0;
    let (k, raw) = (line_kind(line)->Assign_0, line_kind(line)->Assign_1);
    let t2 = TableModel { name: t.name, fields: t.fields.push((k, spec_coerce(raw, policy))) };
    assert(st.done.push(t2) =~= st.done.push(t).update(st.done.len() as int, t2));
}

/// The table opened by the last header is in the output even though no
/// header follows it.
pub proof fn lemma_last_table_sealed(lines: Seq<Seq<char>>, policy: CharPolicy)
    requires
        header_names(lines).len() > 0,
    ensures
        spec_parse(lines, policy).len() == header_names(lines).len(),
        spec_parse(lines, policy).last().name == header_names(lines).last(),
{
    lemma_scan_names(lines, policy);
    let p = spec_parse(lines, policy);
    assert(names(p)[p.len() - 1] == p.last().name);
}

/// Lines before the first header contribute nothing.
pub proof fn lemma_orphans_dropped(pre: Seq<Seq<char>>, rest: Seq<Seq<char>>, policy: CharPolicy)
    requires
        header_names(pre).len() == 0,
    ensures
        spec_parse(pre + rest, policy) == spec_parse(rest, policy),
{
    lemma_scan_append(initial(), pre, rest, policy);
    lemma_no_header_no_state(pre, policy);
}

/// A blank or comment line, wherever it stands, changes no table.
pub proof fn lemma_comments_ignored(
    a: Seq<Seq<char>>,
    c: Seq<char>,
    b: Seq<Seq<char>>,
    policy: CharPolicy,
)
    requires
        is_comment_or_blank(c),
    ensures
        spec_parse(a.push(c) + b, policy) == spec_parse(a + b, policy),
{
    lemma_scan_append(initial(), a.push(c), b, policy);
    lemma_scan_append(initial(), a, b, policy);
    assert(a.push(c).drop_last() =~= a);
    assert(step(scan_from(initial(), a, policy), c, policy) == scan_from(initial(), a, policy));
}

/// When every field the record names is present with the named kind, the
/// record takes exactly the first-match value of each, in the record's order.
pub proof fn lemma_materialize_present(
    fields: Seq<(Seq<char>, Scalar)>,
    shape: Seq<(Seq<char>, Kind)>,
)
    requires
        forall|i: int|
            0 <= i < shape.len() ==> #[trigger] lookup(fields, shape[i].0) is Some && kind_of(
                lookup(fields, shape[i].0)->0,
            ) == shape[i].1,
    ensures
        spec_materialize(fields, shape) == Ok::<Seq<Scalar>, crate::table::FieldFault>(
            shape.map_values(|p: (Seq<char>, Kind)| lookup(fields, p.0)->0),
        ),
    decreases shape.len(),
{
    if shape.len() > 0 {
        let pre = shape.drop_last();
        assert forall|i: int| 0 <= i < pre.len() implies #[trigger] lookup(fields, pre[i].0) is Some
            && kind_of(lookup(fields, pre[i].0)->0) == pre[i].1 by {
            assert(pre[i] == shape[i]);
        }
        lemma_materialize_present(fields, pre);
        assert(lookup(fields, shape[shape.len() - 1].0) is Some);
        assert(shape.map_values(|p: (Seq<char>, Kind)| lookup(fields, p.0)->0) =~= pre.map_values(
            |p: (Seq<char>, Kind)| lookup(fields, p.0)->0,
        ).push(lookup(fields, shape.last().0)->0));
    } else {
        assert(shape.map_values(|p: (Seq<char>, Kind)| lookup(fields, p.0)->0) =~= Seq::<
            Scalar,
        >::empty());
    }
}

/// A record that names a field the table lacks is never built.
pub proof fn lemma_missing_field_fails(
    fields: Seq<(Seq<char>, Scalar)>,
    shape: Seq<(Seq<char>, Kind)>,
    i: int,
)
    requires
        0 <= i < shape.len(),
        lookup(fields, shape[i].0) is None,
    ensures
        spec_materialize(fields, shape) is Err,
{
    let pre = shape.subrange(0, i + 1);
    assert(pre.drop_last() =~= shape.subrange(0, i));
    assert(pre.last() == shape[i]);
    assert(spec_materialize(fields, pre) is Err);
    lemma_materialize_err_prefix(fields, shape, i + 1);
}

/// How many fields the tables hold in all.
pub open spec fn total_fields(tables: Seq<TableModel>) -> nat
    decreases tables.len(),
{
    if tables.len() == 0 {
        0
    } else {
        total_fields(tables.drop_last()) + tables.last().fields.len()
    }
}

/// How many assignment lines stand after the first header.
pub open spec fn kept_assignments(lines: Seq<Seq<char>>) -> nat
    decreases lines.len(),
{
    if lines.len() == 0 {
        0
    } else if line_kind(lines.last()) is Assign && header_names(lines.drop_last()).len() > 0 {
        kept_assignments(lines.drop_last()) + 1
    } else {
        kept_assignments(lines.drop_last())
    }
}

/// Every assignment line after the first header gives exactly one field:
/// coercion always yields a value, so none is lost and none is added.
pub proof fn lemma_every_assignment_kept(lines: Seq<Seq<char>>, policy: CharPolicy)
    ensures
        total_fields(spec_parse(lines, policy)) == kept_assignments(lines),
    decreases lines.len(),
{
    lemma_scan_names(lines, policy);
    if lines.len() > 0 {
        let pre = lines.drop_last();
        lemma_every_assignment_kept(pre, policy);
        lemma_scan_names(pre, policy);
        let st = scan_from(initial(), pre, policy);
        match line_kind(lines.last()) {
            LineModel::Header(n) => {
                let t = TableModel { name: n, fields: Seq::empty() };
                assert(seal(st).push(t).drop_last() =~= seal(st));
            },
            LineModel::Assign(k, raw) => {
                if let Some(t) = st.cur {
                    let t2 = TableModel {
                        name: t.name,
                        fields: t.fields.push((k, spec_coerce(raw, policy))),
                    };
                    assert(st.done.push(t2).drop_last() =~= st.done);
                    assert(st.done.push(t).drop_last() =~= st.done);
                }
            },
            LineModel::Skip => {},
        }
    }
}

} // verus!

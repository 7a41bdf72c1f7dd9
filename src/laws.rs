use vstd::prelude::*;

use crate::choice::Choice;
use crate::separator::fields_of;

verus! {

/// A single index selects the field at that position when it exists, and
/// nothing otherwise.
pub proof fn single_field_law<A>(i: u32, fields: Seq<A>, exclusive: bool)
    ensures
        Choice::Field(i).selected(fields, exclusive) == if (i as int) < fields.len() {
            seq![fields[i as int]]
        } else {
            Seq::<A>::empty()
        },
{
    if (i as int) < fields.len() {
        assert(Choice::Field(i).selected(fields, exclusive) =~= seq![fields[i as int]]);
    }
}

/// An inclusive range `s..=e` with `s <= e` selects the existing fields at
/// positions `s` through `e`, in ascending order: at most `e - s + 1` of them.
pub proof fn ascending_range_law<A>(s: u32, e: u32, fields: Seq<A>)
    requires
        s <= e,
    ensures
        ({
            let r = Choice::FieldRange((Some(s), Some(e))).selected(fields, false);
            let top = if (e as int) < fields.len() {
                e as int + 1
            } else {
                fields.len() as int
            };
            &&& r.len() == if (s as int) < top {
                top - s
            } else {
                0
            }
            &&& r.len() <= e - s + 1
            &&& forall|k: int| 0 <= k < r.len() ==> #[trigger] r[k] == fields[s + k]
        }),
{
}

/// A reversed range (`s > e`) is recognised as such, and selects the existing
/// fields at positions `e` through `s` in descending order, starting from the
/// highest existing position that is at most `s`.
pub proof fn reversed_range_law<A>(s: u32, e: u32, fields: Seq<A>)
    requires
        s > e,
    ensures
        ({
            let c = Choice::FieldRange((Some(s), Some(e)));
            let r = c.selected(fields, false);
            let top = if (s as int) < fields.len() {
                s as int + 1
            } else {
                fields.len() as int
            };
            &&& c.is_reversed()
            &&& r.len() == if (e as int) < top {
                top - e
            } else {
                0
            }
            &&& forall|k: int| 0 <= k < r.len() ==> #[trigger] r[k] == fields[top - 1 - k]
        }),
{
}

/// With an exclusive end, a range `s..e` with `s < e` selects what the
/// inclusive range `s..=e-1` selects, and a range with `s == e` selects
/// nothing.
pub proof fn exclusive_range_law<A>(s: u32, e: u32, fields: Seq<A>)
    requires
        s <= e,
    ensures
        s < e ==> Choice::FieldRange((Some(s), Some(e))).selected(fields, true)
            == Choice::FieldRange((Some(s), Some((e - 1) as u32))).selected(fields, false),
        s == e ==> Choice::FieldRange((Some(s), Some(e))).selected(fields, true)
            == Seq::<A>::empty(),
{
}

/// A range with neither bound selects every field in its original order,
/// whether or not ends are exclusive.
pub proof fn full_range_law<A>(fields: Seq<A>, exclusive: bool)
    ensures
        Choice::FieldRange((None, None)).selected(fields, exclusive) == fields,
{
}

/// Splitting never yields an empty field: the empty pieces that repeated
/// separators leave between them are dropped, and every non-empty piece is kept.
pub proof fn no_empty_fields_law(pieces: Seq<Seq<char>>)
    ensures
        forall|i: int| 0 <= i < fields_of(pieces).len() ==> #[trigger] fields_of(pieces)[i].len() > 0,
        forall|p: Seq<char>| pieces.contains(p) && p.len() > 0 ==> #[trigger] fields_of(pieces).contains(p),
{
    let pred = |p: Seq<char>| p.len() > 0;
    assert forall|i: int| 0 <= i < fields_of(pieces).len() implies #[trigger] fields_of(pieces)[i].len() > 0 by {
        pieces.lemma_filter_pred(pred, i);
    }
    assert forall|p: Seq<char>| pieces.contains(p) && p.len() > 0 implies #[trigger] fields_of(pieces).contains(p) by {
        pieces.lemma_filter_contains_rev(pred, p);
    }
}

} // verus!

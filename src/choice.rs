use vstd::prelude::*;

use crate::config::Config;
use crate::output::{rendered, write_fields};
use crate::separator::{fields_of, split_of, views};

verus! {

/// Bounds of a field range: a missing start means "from the first field",
/// a missing end means "through the last field".
pub type Range = (Option<u32>, Option<u32>);

/// A selection directive: one field position, or a range of positions.
#[derive(Debug, Clone, Copy, PartialEq, Eq)]
pub enum Choice {
    Field(u32),
    FieldRange(Range),
}

/// The position one past the last one that an end bound `e` admits.
pub open spec fn end_bound(e: u32, exclusive: bool) -> int {
    if exclusive {
        e as int
    } else {
        e as int + 1
    }
}

/// The fields at positions `lo <= p < hi` that exist, in ascending order.
pub open spec fn span<A>(fields: Seq<A>, lo: int, hi: int) -> Seq<A> {
    let top = if hi < fields.len() {
        hi
    } else {
        fields.len() as int
    };
    if 0 <= lo < top {
        fields.subrange(lo, top)
    } else {
        Seq::empty()
    }
}

/// `min(s, n)`: a start bound held within the field count.
fn clamp_start(s: u32, n: usize) -> (r: usize)
    ensures
        r as int == if s as int <= n as int {
            s as int
        } else {
            n as int
        },
{
    if (s as usize) < n {
        s as usize
    } else {
        n
    }
}

/// `min(end_bound(e, exclusive), n)`: an end bound held within the field count.
fn clamp_end(e: u32, exclusive: bool, n: usize) -> (r: usize)
    ensures
        r as int == if end_bound(e, exclusive) <= n as int {
            end_bound(e, exclusive)
        } else {
            n as int
        },
{
    if (e as usize) < n {
        if exclusive {
            e as usize
        } else {
            e as usize + 1
        }
    } else {
        n
    }
}

/// The fields at positions `lo <= p < hi`, in ascending order.
fn collect_up<'a>(fields: &[&'a str], lo: usize, hi: usize) -> (r: Vec<&'a str>)
    requires
        lo <= hi <= fields@.len(),
    ensures
        r@ == fields@.subrange(lo as int, hi as int),
{
    let mut r: Vec<&'a str> = Vec::new();
    let mut i: usize = lo;
    while i < hi
        invariant
            lo <= i <= hi <= fields@.len(),
            r@ == fields@.subrange(lo as int, i as int),
        decreases hi - i,
    {
        r.push(fields[i]);
        i = i + 1;
        assert(r@ =~= fields@.subrange(lo as int, i as int));
    }
    r
}

/// The fields at positions `lo <= p < hi`, in descending order.
fn collect_down<'a>(fields: &[&'a str], lo: usize, hi: usize) -> (r: Vec<&'a str>)
    requires
        lo <= hi <= fields@.len(),
    ensures
        r@ == fields@.subrange(lo as int, hi as int).reverse(),
{
    let mut r: Vec<&'a str> = Vec::new();
    let mut i: usize = hi;
    while i > lo
        invariant
            lo <= i <= hi <= fields@.len(),
            r@ =~= fields@.subrange(i as int, hi as int).reverse(),
        decreases i - lo,
    {
        i = i - 1;
        r.push(fields[i]);
        assert(r@ =~= fields@.subrange(i as int, hi as int).reverse());
    }
    r
}

impl Choice {
    /// A range whose stated start lies after its stated end.
    pub open spec fn is_reversed(self) -> bool {
        match self {
            Choice::FieldRange((Some(s), Some(e))) => e < s,
            _ => false,
        }
    }

    /// The fields this choice selects, in the order they are emitted.
    /// Under `exclusive`, a concrete end bound drops the field at that position;
    /// a reversed range is emitted from its start down to its end.
    pub open spec fn selected<A>(self, fields: Seq<A>, exclusive: bool) -> Seq<A> {
        match self {
            Choice::Field(i) => span(fields, i as int, i as int + 1),
            Choice::FieldRange((None, None)) => fields,
            Choice::FieldRange((Some(s), None)) => span(fields, s as int, fields.len() as int),
            Choice::FieldRange((None, Some(e))) => span(fields, 0, end_bound(e, exclusive)),
            Choice::FieldRange((Some(s), Some(e))) => if e < s {
                let lo = if exclusive {
                    e as int + 1
                } else {
                    e as int
                };
                span(fields, lo, s as int + 1).reverse()
            } else {
                span(fields, s as int, end_bound(e, exclusive))
            },
        }
    }

    /// Selecting commutes with mapping each field.
    pub proof fn lemma_selected_map<A, B>(
        self,
        fields: Seq<A>,
        exclusive: bool,
        f: spec_fn(A) -> B,
    )
        ensures
            self.selected(fields.map_values(f), exclusive) == self.selected(
                fields,
                exclusive,
            ).map_values(f),
    {
        let mapped = fields.map_values(f);
        assert forall|lo: int, hi: int|
            #[trigger] span(mapped, lo, hi) =~= span(fields, lo, hi).map_values(f) by {}
        match self {
            Choice::FieldRange((Some(s), Some(e))) => if e < s {
                let lo = if exclusive {
                    e as int + 1
                } else {
                    e as int
                };
                assert(span(mapped, lo, s as int + 1).reverse() =~= span(
                    fields,
                    lo,
                    s as int + 1,
                ).reverse().map_values(f));
            },
            Choice::FieldRange((None, None)) => {
                assert(mapped =~= fields.map_values(f));
            },
            _ => {},
        }
    }

    /// Whether this is a range given backwards, start after end.
    pub fn is_reverse_range(&self) -> (r: bool)
        ensures
            r == self.is_reversed(),
    {
        match self {
            Choice::Field(_) => false,
            Choice::FieldRange(r) => match r {
                (Some(start), Some(end)) => *end < *start,
                _ => false,
            },
        }
    }

    /// The fields of one line that this choice selects, in emission order.
    /// Positions past the last field are skipped silently.
    pub fn get_choice_slice<'a>(&self, fields: &[&'a str], exclusive: bool) -> (r: Vec<
        &'a str,
    >)
        ensures
            r@ == self.selected(fields@, exclusive),
    {
        let n = fields.len();
        let (lo, hi, backwards) = match self {
            Choice::Field(i) => (clamp_start(*i, n), clamp_end(*i, false, n), false),
            Choice::FieldRange(r) => match r {
                (None, None) => (0, n, false),
                (Some(s), None) => (clamp_start(*s, n), n, false),
                (None, Some(e)) => (0, clamp_end(*e, exclusive, n), false),
                (Some(s), Some(e)) => if *e < *s {
                    let lo = if exclusive {
                        clamp_end(*e, false, n)
                    } else {
                        clamp_start(*e, n)
                    };
                    (lo, clamp_end(*s, false, n), true)
                } else {
                    (clamp_start(*s, n), clamp_end(*e, exclusive, n), false)
                },
            },
        };
        if lo >= hi {
            return Vec::new();
        }
        if backwards {
            collect_down(fields, lo, hi)
        } else {
            collect_up(fields, lo, hi)
        }
    }

    /// Writes the fields of `line` that this choice selects to `out`, each
    /// followed by a single space.
    pub fn print_choice(&self, line: &str, config: &Config, out: &mut String)
        ensures
            final(out)@ == old(out)@ + rendered(
                self.selected(fields_of(split_of(config.separator@, line@)), config.exclusive),
            ),
    {
        let fields = config.separator.split(line);
        let chosen = self.get_choice_slice(fields.as_slice(), config.exclusive);
        proof {
            self.lemma_selected_map(fields@, config.exclusive, |x: &str| x@);
        }
        write_fields(chosen.as_slice(), out);
    }
}

} // verus!

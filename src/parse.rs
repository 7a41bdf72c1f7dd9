use vstd::prelude::*;

use crate::choice::Choice;

verus! {

/// A non-empty run of decimal digits.
pub open spec fn is_digits(s: Seq<char>) -> bool {
    s.len() > 0 && forall|i: int| 0 <= i < s.len() ==> '0' <= #[trigger] s[i] <= '9'
}

/// The value of a run of decimal digits, most significant first.
pub open spec fn number(s: Seq<char>) -> int
    decreases s.len(),
{
    if s.len() == 0 {
        0
    } else {
        number(s.drop_last()) * 10 + (s.last() as int - '0' as int)
    }
}

/// The field position that `s` writes, if it is a decimal number that fits in a `u32`.
pub open spec fn position_of(s: Seq<char>) -> Option<u32> {
    if is_digits(s) && number(s) <= u32::MAX {
        Some(number(s) as u32)
    } else {
        None
    }
}

/// A range bound: empty text is an absent bound, otherwise a position.
pub open spec fn bound_of(s: Seq<char>) -> Option<Option<u32>> {
    if s.len() == 0 {
        Some(None)
    } else {
        match position_of(s) {
            Some(p) => Some(Some(p)),
            None => None,
        }
    }
}

/// The choice that an argument writes: `N` for a single field, `S:E` for a
/// range, where either bound may be left out.
pub open spec fn choice_of(s: Seq<char>) -> Option<Choice> {
    match s.index_of_first(':') {
        None => match position_of(s) {
            Some(p) => Some(Choice::Field(p)),
            None => None,
        },
        Some(k) => match (bound_of(s.take(k)), bound_of(s.skip(k + 1))) {
            (Some(a), Some(b)) => Some(Choice::FieldRange((a, b))),
            _ => None,
        },
    }
}

/// The characters of `text`, in order.
fn chars_of(text: &str) -> (r: Vec<char>)
    ensures
        r@ == text@,
{
    let n = text.unicode_len();
    let mut r: Vec<char> = Vec::new();
    let mut i: usize = 0;
    while i < n
        invariant
            n == text@.len(),
            i <= n,
            r@ == text@.take(i as int),
        decreases n - i,
    {
        r.push(text.get_char(i));
        i = i + 1;
        assert(r@ =~= text@.take(i as int));
    }
    assert(text@.take(n as int) =~= text@);
    r
}

/// The position written by `chars[lo..hi]`, if it is one.
fn parse_position(chars: &[char], lo: usize, hi: usize) -> (r: Option<u32>)
    requires
        lo <= hi <= chars@.len(),
    ensures
        r == position_of(chars@.subrange(lo as int, hi as int)),
{
    let ghost s = chars@.subrange(lo as int, hi as int);
    if lo == hi {
        return None;
    }
    let mut value: u32 = 0;
    let mut too_large = false;
    let mut i: usize = lo;
    while i < hi
        invariant
            lo <= i <= hi <= chars@.len(),
            s == chars@.subrange(lo as int, hi as int),
            forall|j: int| lo <= j < i ==> '0' <= #[trigger] chars@[j] <= '9',
            too_large ==> number(chars@.subrange(lo as int, i as int)) > u32::MAX,
            !too_large ==> value == number(chars@.subrange(lo as int, i as int)),
        decreases hi - i,
    {
        let c = chars[i];
        if c < '0' || c > '9' {
            assert(s[i - lo] == c);
            return None;
        }
        let d = (c as u32) - ('0' as u32);
        let ghost prefix = chars@.subrange(lo as int, i + 1);
        assert(prefix.drop_last() =~= chars@.subrange(lo as int, i as int));
        assert(number(prefix) == number(prefix.drop_last()) * 10 + d);
        if !too_large {
            if value > (u32::MAX - d) / 10 {
                too_large = true;
            } else {
                value = value * 10 + d;
            }
        }
        i = i + 1;
    }
    assert(chars@.subrange(lo as int, hi as int) =~= s);
    if too_large {
        None
    } else {
        Some(value)
    }
}

/// The bound written by `chars[lo..hi]`: absent when empty.
fn parse_bound(chars: &[char], lo: usize, hi: usize) -> (r: Option<Option<u32>>)
    requires
        lo <= hi <= chars@.len(),
    ensures
        r == bound_of(chars@.subrange(lo as int, hi as int)),
{
    if lo == hi {
        Some(None)
    } else {
        match parse_position(chars, lo, hi) {
            Some(p) => Some(Some(p)),
            None => None,
        }
    }
}

impl Choice {
    /// Reads a choice from its argument text: `N` selects field `N`, and
    /// `S:E`, `S:`, `:E` or `:` select a range. Anything else is refused.
    pub fn parse(text: &str) -> (r: Option<Choice>)
        ensures
            r == choice_of(text@),
    {
        let chars = chars_of(text);
        let n = chars.len();
        let mut k: usize = 0;
        while k < n && chars[k] != ':'
            invariant
                n == chars@.len(),
                k <= n,
                forall|j: int| 0 <= j < k ==> chars@[j] != ':',
            decreases n - k,
        {
            k = k + 1;
        }
        proof {
            chars@.index_of_first_ensures(':');
        }
        if k == n {
            assert(!chars@.contains(':'));
            assert(chars@.subrange(0, n as int) =~= chars@);
            match parse_position(chars.as_slice(), 0, n) {
                Some(p) => Some(Choice::Field(p)),
                None => None,
            }
        } else {
            assert(chars@.contains(':'));
            assert(chars@.take(k as int) =~= chars@.subrange(0, k as int));
            assert(chars@.skip(k + 1) =~= chars@.subrange(k + 1, n as int));
            let start = parse_bound(chars.as_slice(), 0, k);
            let end = parse_bound(chars.as_slice(), k + 1, n);
            match (start, end) {
                (Some(a), Some(b)) => Some(Choice::FieldRange((a, b))),
                _ => None,
            }
        }
    }
}

} // verus!

use vstd::prelude::*;

use crate::separator::views;

verus! {

/// How selected fields are written out: each one followed by a single space.
pub open spec fn rendered(words: Seq<Seq<char>>) -> Seq<char>
    decreases words.len(),
{
    if words.len() == 0 {
        Seq::empty()
    } else {
        rendered(words.drop_last()) + words.last() + seq![' ']
    }
}

/// Appends each of `words` to `out`, each followed by a single space.
pub fn write_fields(words: &[&str], out: &mut String)
    ensures
        final(out)@ == old(out)@ + rendered(views(words@)),
{
    let ghost start = out@;
    let mut i: usize = 0;
    while i < words.len()
        invariant
            i <= words@.len(),
            out@ == start + rendered(views(words@.subrange(0, i as int))),
        decreases words@.len() - i,
    {
        let ghost before = out@;
        out.append(words[i]);
        out.append(" ");
        proof {
            reveal_strlit(" ");
            let done = views(words@.subrange(0, i + 1));
            assert(done.drop_last() =~= views(words@.subrange(0, i as int)));
            assert(done.last() == words@[i as int]@);
            assert(out@ =~= start + rendered(done));
        }
        i = i + 1;
    }
    assert(words@.subrange(0, words@.len() as int) =~= words@);
}

} // verus!

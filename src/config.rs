use vstd::prelude::*;

use crate::choice::Choice;
use crate::output::rendered;
use crate::separator::{fields_of, split_of, Separator};

verus! {

/// What one line's output holds for some choices over its fields: the
/// rendered selection of each choice, in the order the choices are given.
pub open spec fn line_output(choices: Seq<Choice>, fields: Seq<Seq<char>>, exclusive: bool) -> Seq<
    char,
>
    decreases choices.len(),
{
    if choices.len() == 0 {
        Seq::empty()
    } else {
        line_output(choices.drop_last(), fields, exclusive) + rendered(
            choices.last().selected(fields, exclusive),
        )
    }
}

/// The settings of a run: how lines are split, whether range ends are
/// exclusive, and which choices are applied to each line.
pub struct Config {
    pub separator: Separator,
    pub exclusive: bool,
    pub choices: Vec<Choice>,
}

impl Config {
    pub fn new(separator: Separator, exclusive: bool, choices: Vec<Choice>) -> (r: Config)
        ensures
            r.separator@ == separator@,
            r.exclusive == exclusive,
            r.choices@ == choices@,
    {
        Config { separator, exclusive, choices }
    }

    /// Writes the output for one line to `out`: every choice in turn, then a
    /// line terminator.
    pub fn process_line(&self, line: &str, out: &mut String)
        ensures
            final(out)@ == old(out)@ + line_output(
                self.choices@,
                fields_of(split_of(self.separator@, line@)),
                self.exclusive,
            ) + seq!['\n'],
    {
        let ghost start = out@;
        let ghost fields = fields_of(split_of(self.separator@, line@));
        let mut i: usize = 0;
        while i < self.choices.len()
            invariant
                i <= self.choices@.len(),
                fields == fields_of(split_of(self.separator@, line@)),
                out@ == start + line_output(self.choices@.subrange(0, i as int), fields, self.exclusive),
            decreases self.choices@.len() - i,
        {
            self.choices[i].print_choice(line, self, out);
            proof {
                let done = self.choices@.subrange(0, i + 1);
                assert(done.drop_last() =~= self.choices@.subrange(0, i as int));
                assert(done.last() == self.choices@[i as int]);
                assert(out@ =~= start + line_output(done, fields, self.exclusive));
            }
            i = i + 1;
        }
        assert(self.choices@.subrange(0, self.choices@.len() as int) =~= self.choices@);
        out.append("\n");
        proof {
            reveal_strlit("\n");
        }
    }
}

} // verus!

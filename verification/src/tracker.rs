use vstd::prelude::*;

verus! {

/// Concatenates a sequence of lines into one flat character sequence.
pub open spec fn concat_lines(lines: Seq<Seq<char>>) -> Seq<char>
    decreases lines.len(),
{
    if lines.len() == 0 {
        Seq::empty()
    } else {
        concat_lines(lines.drop_last()) + lines.last()
    }
}

/// A trace of the characters the planner visits, grouped into the shelf rows
/// they land on. It is an explicit value threaded through the planner's trace
/// path, so a trace depends only on the one build that filled it.
pub struct CharTracker {
    pub lines: Vec<Vec<char>>,
    pub current: Vec<char>,
}

impl CharTracker {
    /// All characters the tracker has seen, in visit order.
    pub open spec fn spec_tracked(self) -> Seq<char> {
        concat_lines(self.lines@.map_values(|v: Vec<char>| v@)) + self.current@
    }

    /// An empty trace.
    pub fn new() -> (r: CharTracker)
        ensures
            r.lines@.len() == 0,
            r.current@.len() == 0,
            r.spec_tracked() == Seq::<char>::empty(),
    {
        let r = CharTracker { lines: Vec::new(), current: Vec::new() };
        proof {
            assert(r.lines@.map_values(|v: Vec<char>| v@).len() == 0);
            assert(r.spec_tracked() =~= Seq::<char>::empty());
        }
        r
    }

    /// Records one visited character on the open row.
    pub fn track_char(&mut self, c: char)
        ensures
            final(self).lines == old(self).lines,
            final(self).current@ == old(self).current@.push(c),
            final(self).spec_tracked() == old(self).spec_tracked().push(c),
    {
        self.current.push(c);
        proof {
            assert(final(self).spec_tracked() =~= old(self).spec_tracked().push(c));
        }
    }

    /// Closes the open row: its characters become a finished line and the
    /// open row starts empty.
    pub fn flush_chars(&mut self)
        ensures
            final(self).lines@.len() == old(self).lines@.len() + 1,
            final(self).lines@.last()@ == old(self).current@,
            final(self).lines@.drop_last() == old(self).lines@,
            final(self).current@.len() == 0,
            final(self).spec_tracked() == old(self).spec_tracked(),
    {
        let mut done: Vec<char> = Vec::new();
        core::mem::swap(&mut done, &mut self.current);
        self.lines.push(done);
        proof {
            let old_mapped = old(self).lines@.map_values(|v: Vec<char>| v@);
            let new_mapped = final(self).lines@.map_values(|v: Vec<char>| v@);
            assert(new_mapped =~= old_mapped.push(old(self).current@));
            assert(new_mapped.drop_last() =~= old_mapped);
            assert(final(self).spec_tracked() =~= old(self).spec_tracked());
        }
    }

    /// The number of finished rows.
    pub fn line_count(&self) -> (r: usize)
        ensures
            r == self.lines@.len(),
    {
        self.lines.len()
    }
}

} // verus!

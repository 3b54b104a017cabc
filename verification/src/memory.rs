//! The memory of one execution: the outputs of the tasks that have run.

use vstd::prelude::*;

verus! {

/// The outputs of the tasks of one execution, each under its task's id, in
/// the order in which the tasks ran. Entries are only ever added at the end.
#[derive(Debug)]
pub struct Memory {
    entries: Vec<(String, String)>,
}

impl View for Memory {
    type V = Seq<(Seq<char>, Seq<char>)>;

    /// The entries, oldest first, each as task id and output.
    closed spec fn view(&self) -> Seq<(Seq<char>, Seq<char>)> {
        self.entries.deep_view()
    }
}

impl Memory {
    /// A memory that holds nothing.
    pub fn new() -> (memory: Memory)
        ensures
            memory@ == Seq::<(Seq<char>, Seq<char>)>::empty(),
    {
        let memory = Memory { entries: Vec::new() };
        assert(memory.entries.deep_view() =~= Seq::empty());
        memory
    }

    /// Adds `output` under `task_id` behind all earlier entries, which stay
    /// as they are.
    pub fn record(&mut self, task_id: String, output: String)
        ensures
            final(self)@ == old(self)@.push((task_id@, output@)),
    {
        self.entries.push((task_id, output));
        assert(self.entries.deep_view() =~= old(self).entries.deep_view().push(
            (task_id@, output@),
        ));
    }

    /// The entries as they stand, oldest first.
    pub fn snapshot(&self) -> (entries: &Vec<(String, String)>)
        ensures
            entries.deep_view() == self@,
    {
        &self.entries
    }

    /// The output recorded last, `None` while nothing is recorded.
    pub fn latest(&self) -> (res: Option<&String>)
        ensures
            match res {
                Some(output) => self@.len() > 0 && output@ == self@.last().1,
                None => self@.len() == 0,
            },
    {
        let n = self.entries.len();
        if n == 0 {
            None
        } else {
            Some(&self.entries[n - 1].1)
        }
    }
}

} // verus!

//! The history: the invocations that earlier sessions composed.
use vstd::prelude::*;
use vstd::string::*;

verus! {

/// One composed invocation, as it is kept in the history.
#[derive(Clone, PartialEq, Eq, Debug)]
pub struct History {
    pub command: String,
    pub argument: Vec<String>,
}

/// What a [`History`] stands for.
pub struct Record {
    pub command: Seq<char>,
    pub argument: Seq<Seq<char>>,
}

impl View for History {
    type V = Record;

    open spec fn view(&self) -> Record {
        Record { command: self.command@, argument: self.argument.deep_view() }
    }
}

impl DeepView for History {
    type V = Record;

    open spec fn deep_view(&self) -> Record {
        self@
    }
}

/// What can be recalled for `command` from the records: the argument lists
/// of its invocations, in order, each followed by an empty argument for
/// what is typed next.
pub open spec fn replays(command: Seq<char>, records: Seq<Record>) -> Seq<Seq<Seq<char>>>
    decreases records.len(),
{
    if records.len() == 0 {
        Seq::<Seq<Seq<char>>>::empty()
    } else {
        let front = replays(command, records.drop_last());
        if records.last().command == command {
            front.push(records.last().argument.push(Seq::<char>::empty()))
        } else {
            front
        }
    }
}

/// Every argument list that can be recalled holds an argument.
pub proof fn lemma_replays(command: Seq<char>, records: Seq<Record>)
    ensures
        forall|i: int|
            0 <= i < replays(command, records).len() ==> (#[trigger] replays(
                command,
                records,
            )[i]).len() >= 1,
    decreases records.len(),
{
    if records.len() > 0 {
        lemma_replays(command, records.drop_last());
        let front = replays(command, records.drop_last());
        let all = replays(command, records);
        assert forall|i: int| 0 <= i < all.len() implies (#[trigger] all[i]).len() >= 1 by {
            if i < front.len() {
                assert(all[i] == front[i]);
            }
        }
    }
}

impl History {
    /// What can be recalled for `command` from the records that were read.
    pub fn read(command: &String, records: &Vec<History>) -> (arguments: Vec<Vec<String>>)
        ensures
            arguments.deep_view() == replays(command@, records.deep_view()),
    {
        let mut arguments: Vec<Vec<String>> = Vec::new();
        let mut i: usize = 0;
        proof {
            assert(records.deep_view().take(0) == Seq::<Record>::empty());
            assert(arguments.deep_view() == Seq::<Seq<Seq<char>>>::empty());
        }
        while i < records.len()
            invariant
                i <= records.len(),
                arguments.deep_view() == replays(command@, records.deep_view().take(i as int)),
            decreases records.len() - i,
        {
            proof {
                let next = records.deep_view().take(i + 1);
                assert(next.drop_last() == records.deep_view().take(i as int));
                assert(next.last() == records@[i as int]@);
            }
            if *command == records[i].command {
                let mut argument = records[i].argument.clone();
                assert(argument.deep_view() == records@[i as int]@.argument);
                let ghost past = argument.deep_view();
                argument.push(String::new());
                assert(argument.deep_view() == past.push(Seq::<char>::empty()));
                let ghost done = arguments.deep_view();
                let ghost shown = argument.deep_view();
                arguments.push(argument);
                assert(arguments.deep_view() == done.push(shown));
            }
            i = i + 1;
        }
        assert(records.deep_view().take(i as int) == records.deep_view());
        arguments
    }
}

} // verus!

//! Lifecycle of a group of worker threads: what a join of all of them yields.

use vstd::prelude::*;

verus! {

/// How one worker thread ended.
#[derive(Clone, Copy, Debug, PartialEq, Eq, Structural)]
pub enum WorkerExit {
    /// The thread ran to its end.
    Clean,
    /// The thread panicked or returned an error.
    Failed,
}

/// Whether every worker of `exits` ended cleanly.
pub open spec fn all_clean(exits: Seq<WorkerExit>) -> bool {
    forall|i: int| 0 <= i < exits.len() ==> exits[i] == WorkerExit::Clean
}

/// Whether `at` is the position of the first worker of `exits` that failed.
pub open spec fn first_failure_at(exits: Seq<WorkerExit>, at: int) -> bool {
    &&& 0 <= at < exits.len()
    &&& exits[at] == WorkerExit::Failed
    &&& forall|i: int| 0 <= i < at ==> exits[i] == WorkerExit::Clean
}

/// The result of joining a service, given how each of its workers ended, in
/// the order in which they were started. Every worker has been waited on
/// before this is asked: `Ok` when all ended cleanly, else the position of the
/// first one that failed.
pub fn join_outcome(exits: &Vec<WorkerExit>) -> (res: Result<(), usize>)
    ensures
        res is Ok <==> all_clean(exits@),
        res matches Err(at) ==> first_failure_at(exits@, at as int),
{
    let mut i: usize = 0;
    while i < exits.len()
        invariant
            i <= exits.len(),
            forall|j: int| 0 <= j < i ==> exits@[j] == WorkerExit::Clean,
        decreases exits.len() - i,
    {
        match exits[i] {
            WorkerExit::Failed => {
                return Err(i);
            },
            WorkerExit::Clean => {},
        }
        i += 1;
    }
    Ok(())
}

} // verus!

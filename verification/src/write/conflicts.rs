//! Collecting the lock conflicts that the keys of a command meet.

use vstd::prelude::*;
use crate::errors::{is_locked_entry, locked_entry, Error, StorageError, StorageResult};
use crate::mvcc::MvccError;

verus! {

/// The conflicts collected so far, after one more key was answered with
/// `reply`: a lock conflict is collected, any other error ends the command.
pub open spec fn collect_step(locks: Seq<StorageResult<()>>, reply: Result<(), MvccError>) -> Result<
    Seq<StorageResult<()>>,
    Error,
> {
    match reply {
        Ok(_) => Ok(locks),
        Err(e) => if e is KeyIsLocked {
            Ok(locks.push(locked_entry(e)))
        } else {
            Err(Error::Mvcc(e))
        },
    }
}

/// The conflicts collected from a sequence of answers, or the first error
/// among them that is no lock conflict.
pub open spec fn collect_locks(replies: Seq<Result<(), MvccError>>) -> Result<Seq<StorageResult<()>>, Error>
    decreases replies.len(),
{
    if replies.len() == 0 {
        Ok(Seq::empty())
    } else {
        match collect_locks(replies.drop_last()) {
            Err(e) => Err(e),
            Ok(locks) => collect_step(locks, replies.last()),
        }
    }
}

/// Whether an answer is an error other than a lock conflict.
pub open spec fn is_fatal(reply: Result<(), MvccError>) -> bool {
    match reply {
        Ok(_) => false,
        Err(e) => !(e is KeyIsLocked),
    }
}

/// Whether an answer is a lock conflict.
pub open spec fn is_conflict(reply: Result<(), MvccError>) -> bool {
    match reply {
        Ok(_) => false,
        Err(e) => e is KeyIsLocked,
    }
}

/// Files the answer to one key: returns whether a conflict was collected.
pub fn collect_lock(locks: &mut Vec<StorageResult<()>>, reply: Result<(), MvccError>) -> (r: Result<bool, Error>)
    ensures
        match collect_step(old(locks)@, reply) {
            Ok(s) => final(locks)@ == s && r == Ok::<bool, Error>(is_conflict(reply)),
            Err(e) => final(locks)@ == old(locks)@ && r == Err::<bool, Error>(e),
        },
{
    match reply {
        Ok(_) => Ok(false),
        Err(e) => {
            if e.is_key_locked() {
                locks.push(Err(StorageError::Txn(Error::Mvcc(e))));
                Ok(true)
            } else {
                Err(Error::Mvcc(e))
            }
        },
    }
}

/// The collected conflicts are the lock conflicts among the answers, one
/// entry for each and in their order; collecting fails if and only if some
/// answer is an error of another kind, and then with the first such.
pub proof fn lemma_collect_locks(replies: Seq<Result<(), MvccError>>)
    ensures
        collect_locks(replies) is Err <==> exists|i: int| 0 <= i < replies.len() && is_fatal(#[trigger] replies[i]),
        collect_locks(replies) matches Err(err) ==> exists|i: int|
            0 <= i < replies.len() && is_fatal(#[trigger] replies[i]) && err == Error::Mvcc(replies[i]->Err_0)
                && forall|j: int| 0 <= j < i ==> !is_fatal(#[trigger] replies[j]),
        collect_locks(replies) matches Ok(locks) ==> {
            &&& locks.len() == replies.filter(|r: Result<(), MvccError>| is_conflict(r)).len()
            &&& locks.len() <= replies.len()
            &&& forall|k: int| 0 <= k < locks.len() ==> is_locked_entry(#[trigger] locks[k])
            &&& (locks.len() == 0 <==> forall|i: int| 0 <= i < replies.len() ==> (#[trigger] replies[i]) is Ok)
        },
    decreases replies.len(),
{
    let p = |r: Result<(), MvccError>| is_conflict(r);
    if replies.len() == 0 {
        assert(replies.filter(p) =~= Seq::empty()) by {
            reveal(Seq::filter);
        }
    } else {
        let front = replies.drop_last();
        let last = replies.last();
        lemma_collect_locks(front);
        assert(forall|i: int| 0 <= i < front.len() ==> front[i] == replies[i]);
        assert(replies[replies.len() - 1] == last);
        assert(replies.filter(p).len() == front.filter(p).len() + if p(last) {
            1int
        } else {
            0int
        }) by {
            reveal(Seq::filter);
        }
        match collect_locks(front) {
            Err(err) => {
                let i = choose|i: int|
                    0 <= i < front.len() && is_fatal(#[trigger] front[i]) && err == Error::Mvcc(front[i]->Err_0)
                        && forall|j: int| 0 <= j < i ==> !is_fatal(#[trigger] front[j]);
                assert(is_fatal(replies[i]));
                assert(forall|j: int| 0 <= j < i ==> front[j] == replies[j]);
            },
            Ok(locks) => {
                assert(forall|i: int| 0 <= i < front.len() ==> !is_fatal(#[trigger] front[i]));
                if is_fatal(last) {
                    let i = replies.len() - 1;
                    assert(is_fatal(replies[i]));
                    assert forall|j: int| 0 <= j < i implies !is_fatal(#[trigger] replies[j]) by {
                        assert(front[j] == replies[j]);
                    }
                } else {
                    assert forall|i: int| 0 <= i < replies.len() implies !is_fatal(#[trigger] replies[i]) by {
                        if i < front.len() {
                            assert(front[i] == replies[i]);
                        }
                    }
                    let all = collect_locks(replies)->Ok_0;
                    if is_conflict(last) {
                        assert(all == locks.push(locked_entry(last->Err_0)));
                        assert(all[all.len() - 1] == locked_entry(last->Err_0));
                        assert(!(replies[replies.len() - 1] is Ok));
                    } else {
                        assert(all == locks);
                        if locks.len() == 0 {
                            assert forall|i: int| 0 <= i < replies.len() implies (#[trigger] replies[i]) is Ok by {
                                if i < front.len() {
                                    assert(front[i] == replies[i]);
                                }
                            }
                        } else {
                            let i = choose|i: int| 0 <= i < front.len() && !((#[trigger] front[i]) is Ok);
                            assert(replies[i] == front[i]);
                        }
                    }
                }
            },
        }
    }
}

} // verus!

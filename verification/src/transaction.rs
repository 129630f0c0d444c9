//! An atomic, rollback-capable sequence of mutations of an installation
//! root: an append-only log of reversible operations, each carrying the
//! pre-image it needs to undo itself.  Committing discards the log;
//! rolling back replays it in reverse and restores the starting state
//! exactly.

use vstd::prelude::*;
use crate::prefix::{
    Prefix, PrefixV, kv_lookup, lemma_kv_lookup_push, lemma_kv_lookup_remove,
    lemma_kv_lookup_update,
};

verus! {

/// One reversible step, stated positionally so that undoing it restores
/// the exact prior sequence of entries.
#[derive(Debug)]
pub enum UndoOp {
    /// Restore these contents at this file slot.
    SetFile(usize, String, Vec<u8>),
    /// Re-insert a removed file at its old slot.
    InsertFile(usize, String, Vec<u8>),
    /// Drop the file appended at the end.
    PopFile,
    /// Re-insert a removed receipt at its old slot.
    InsertReceipt(usize, String, Vec<String>),
    /// Drop the receipt appended at the end.
    PopReceipt,
    /// Restore whether the root existed.
    SetExists(bool),
}

/// The effect of replaying one undo step.
pub open spec fn apply_undo(p: PrefixV, op: UndoOp) -> PrefixV {
    match op {
        UndoOp::SetFile(i, k, v) => PrefixV {
            exists: p.exists,
            files: p.files.update(i as int, (k@, v@)),
            receipts: p.receipts,
        },
        UndoOp::InsertFile(i, k, v) => PrefixV {
            exists: p.exists,
            files: p.files.insert(i as int, (k@, v@)),
            receipts: p.receipts,
        },
        UndoOp::PopFile => PrefixV {
            exists: p.exists,
            files: p.files.drop_last(),
            receipts: p.receipts,
        },
        UndoOp::InsertReceipt(i, k, v) => PrefixV {
            exists: p.exists,
            files: p.files,
            receipts: p.receipts.insert(i as int, (k@, v@.map_values(|f: String| f@))),
        },
        UndoOp::PopReceipt => PrefixV {
            exists: p.exists,
            files: p.files,
            receipts: p.receipts.drop_last(),
        },
        UndoOp::SetExists(b) => PrefixV {
            exists: b,
            files: p.files,
            receipts: p.receipts,
        },
    }
}

/// Replaying a whole log, newest step first.
pub open spec fn undo_replay(p: PrefixV, ops: Seq<UndoOp>) -> PrefixV
    decreases ops.len(),
{
    if ops.len() == 0 {
        p
    } else {
        undo_replay(apply_undo(p, ops.last()), ops.drop_last())
    }
}

/// Whether one undo step fits the state it will replay on.
pub open spec fn undo_op_wf(p: PrefixV, op: UndoOp) -> bool {
    match op {
        UndoOp::SetFile(i, k, v) => i < p.files.len(),
        UndoOp::InsertFile(i, k, v) => i <= p.files.len(),
        UndoOp::PopFile => p.files.len() > 0,
        UndoOp::InsertReceipt(i, k, v) => i <= p.receipts.len(),
        UndoOp::PopReceipt => p.receipts.len() > 0,
        UndoOp::SetExists(b) => true,
    }
}

/// Whether a whole log fits, each step on the state its successors
/// leave behind.
pub open spec fn undo_log_wf(p: PrefixV, ops: Seq<UndoOp>) -> bool
    decreases ops.len(),
{
    if ops.len() == 0 {
        true
    } else {
        undo_op_wf(p, ops.last()) && undo_log_wf(apply_undo(p, ops.last()), ops.drop_last())
    }
}

/// A transaction: the undo log together with the state it opened on.
pub struct Transaction {
    pub undo: Vec<UndoOp>,
    pub original: Ghost<PrefixV>,
}

impl Transaction {
    /// Replaying the log on the current state reaches the opening state,
    /// and the current state is well formed.
    pub open spec fn inv(&self, current: PrefixV) -> bool {
        undo_replay(current, self.undo@) == self.original@
            && undo_log_wf(current, self.undo@)
    }

    pub fn new(prefix: &Prefix) -> (tx: Transaction)
        ensures
            tx.inv(prefix@),
            tx.original@ == prefix@,
    {
        Transaction { undo: Vec::new(), original: Ghost(prefix@) }
    }

    /// Writes a file, keeping the pre-image (or the fact that the path
    /// was fresh) in the log.
    pub fn write_file(&mut self, prefix: &mut Prefix, path: &str, contents: Vec<u8>)
        requires
            old(self).inv(old(prefix)@),
            old(prefix).wf(),
        ensures
            final(self).inv(final(prefix)@),
            final(self).original == old(self).original,
            final(prefix).wf(),
            final(prefix)@.exists == old(prefix)@.exists,
            final(prefix)@.receipts == old(prefix)@.receipts,
            kv_lookup(final(prefix)@.files, path@) == Some(contents@),
            forall|k: Seq<char>| k != path@
                ==> #[trigger] kv_lookup(final(prefix)@.files, k)
                    == kv_lookup(old(prefix)@.files, k),
    {
        let ghost pre = prefix@;
        match prefix.find_file(path) {
            Some(i) => {
                let old_contents = prefix.files[i].1.clone();
                let ghost old_pair = pre.files[i as int];
                self.undo.push(UndoOp::SetFile(i, path.to_owned(), old_contents));
                prefix.files.set(i, (path.to_owned(), contents));
                proof {
                    assert(prefix@.files =~= pre.files.update(i as int, (path@, contents@)));
                    lemma_kv_lookup_update(pre.files, i as int, contents@, path@);
                    assert forall|k: Seq<char>| k != path@
                        implies #[trigger] kv_lookup(prefix@.files, k)
                            == kv_lookup(pre.files, k) by {
                        lemma_kv_lookup_update(pre.files, i as int, contents@, k);
                    }
                    let op = self.undo@.last();
                    assert(apply_undo(prefix@, op).files
                        =~= pre.files.update(i as int, (path@, contents@))
                            .update(i as int, (path@, old_pair.1)));
                    assert(pre.files.update(i as int, (path@, contents@))
                        .update(i as int, (path@, old_pair.1)) =~= pre.files);
                    assert(apply_undo(prefix@, op) =~= pre);
                    assert(self.undo@.drop_last() =~= old(self).undo@);
                }
            },
            None => {
                self.undo.push(UndoOp::PopFile);
                prefix.files.push((path.to_owned(), contents));
                proof {
                    assert(prefix@.files =~= pre.files.push((path@, contents@)));
                    lemma_kv_lookup_push(pre.files, path@, contents@, path@);
                    assert forall|k: Seq<char>| k != path@
                        implies #[trigger] kv_lookup(prefix@.files, k)
                            == kv_lookup(pre.files, k) by {
                        lemma_kv_lookup_push(pre.files, path@, contents@, k);
                    }
                    let op = self.undo@.last();
                    assert(apply_undo(prefix@, op).files =~= pre.files);
                    assert(apply_undo(prefix@, op) =~= pre);
                    assert(self.undo@.drop_last() =~= old(self).undo@);
                }
            },
        }
        proof {
            assert(prefix@.receipts =~= pre.receipts);
        }
    }

    /// Removes a file, keeping its slot and contents in the log.
    /// Removing a path the root does not hold changes nothing and
    /// reports `false`.
    pub fn remove_file(&mut self, prefix: &mut Prefix, path: &str) -> (r: bool)
        requires
            old(self).inv(old(prefix)@),
            old(prefix).wf(),
        ensures
            final(self).inv(final(prefix)@),
            final(self).original == old(self).original,
            final(prefix).wf(),
            final(prefix)@.exists == old(prefix)@.exists,
            final(prefix)@.receipts == old(prefix)@.receipts,
            r == (kv_lookup(old(prefix)@.files, path@) is Some),
            kv_lookup(final(prefix)@.files, path@) is None,
            forall|k: Seq<char>| k != path@
                ==> #[trigger] kv_lookup(final(prefix)@.files, k)
                    == kv_lookup(old(prefix)@.files, k),
    {
        let ghost pre = prefix@;
        match prefix.find_file(path) {
            Some(i) => {
                let (old_path, old_contents) = prefix.files.remove(i);
                self.undo.push(UndoOp::InsertFile(i, old_path, old_contents));
                proof {
                    assert(prefix@.files =~= pre.files.remove(i as int));
                    lemma_kv_lookup_remove(pre.files, i as int, path@);
                    assert forall|k: Seq<char>| k != path@
                        implies #[trigger] kv_lookup(prefix@.files, k)
                            == kv_lookup(pre.files, k) by {
                        lemma_kv_lookup_remove(pre.files, i as int, k);
                    }
                    let op = self.undo@.last();
                    assert(apply_undo(prefix@, op).files
                        =~= pre.files.remove(i as int).insert(i as int, pre.files[i as int]));
                    assert(pre.files.remove(i as int).insert(i as int, pre.files[i as int])
                        =~= pre.files);
                    assert(apply_undo(prefix@, op) =~= pre);
                    assert(self.undo@.drop_last() =~= old(self).undo@);
                    assert(prefix@.receipts =~= pre.receipts);
                }
                true
            },
            None => false,
        }
    }

    /// Records a component receipt: the component's name and the files
    /// it owns.  The name must be fresh.
    pub fn add_receipt(&mut self, prefix: &mut Prefix, name: &str, files: Vec<String>)
        requires
            old(self).inv(old(prefix)@),
            old(prefix).wf(),
            kv_lookup(old(prefix)@.receipts, name@) is None,
        ensures
            final(self).inv(final(prefix)@),
            final(self).original == old(self).original,
            final(prefix).wf(),
            final(prefix)@.exists == old(prefix)@.exists,
            final(prefix)@.files == old(prefix)@.files,
            kv_lookup(final(prefix)@.receipts, name@)
                == Some(files@.map_values(|f: String| f@)),
            forall|k: Seq<char>| k != name@
                ==> #[trigger] kv_lookup(final(prefix)@.receipts, k)
                    == kv_lookup(old(prefix)@.receipts, k),
    {
        let ghost pre = prefix@;
        let ghost fview = files@.map_values(|f: String| f@);
        proof {
            crate::prefix::lemma_kv_lookup_none_keys(pre.receipts, name@);
        }
        self.undo.push(UndoOp::PopReceipt);
        prefix.receipts.push((name.to_owned(), files));
        proof {
            assert(prefix@.receipts =~= pre.receipts.push((name@, fview)));
            lemma_kv_lookup_push(pre.receipts, name@, fview, name@);
            assert forall|k: Seq<char>| k != name@
                implies #[trigger] kv_lookup(prefix@.receipts, k)
                    == kv_lookup(pre.receipts, k) by {
                lemma_kv_lookup_push(pre.receipts, name@, fview, k);
            }
            let op = self.undo@.last();
            assert(apply_undo(prefix@, op).receipts =~= pre.receipts);
            assert(apply_undo(prefix@, op) =~= pre);
            assert(self.undo@.drop_last() =~= old(self).undo@);
            assert(prefix@.files =~= pre.files);
        }
    }

    /// Removes a component receipt, keeping it in the log.  Reports
    /// `false`, changing nothing, when no receipt holds the name.
    pub fn remove_receipt(&mut self, prefix: &mut Prefix, name: &str) -> (r: bool)
        requires
            old(self).inv(old(prefix)@),
            old(prefix).wf(),
        ensures
            final(self).inv(final(prefix)@),
            final(self).original == old(self).original,
            final(prefix).wf(),
            final(prefix)@.exists == old(prefix)@.exists,
            final(prefix)@.files == old(prefix)@.files,
            r == (kv_lookup(old(prefix)@.receipts, name@) is Some),
            kv_lookup(final(prefix)@.receipts, name@) is None,
            r ==> final(prefix)@.receipts.len() == old(prefix)@.receipts.len() - 1,
            !r ==> final(prefix)@.receipts == old(prefix)@.receipts,
            forall|k: Seq<char>| k != name@
                ==> #[trigger] kv_lookup(final(prefix)@.receipts, k)
                    == kv_lookup(old(prefix)@.receipts, k),
    {
        let ghost pre = prefix@;
        match prefix.find_receipt(name) {
            Some(i) => {
                let (old_name, old_files) = prefix.receipts.remove(i);
                self.undo.push(UndoOp::InsertReceipt(i, old_name, old_files));
                proof {
                    assert(prefix@.receipts =~= pre.receipts.remove(i as int));
                    lemma_kv_lookup_remove(pre.receipts, i as int, name@);
                    assert forall|k: Seq<char>| k != name@
                        implies #[trigger] kv_lookup(prefix@.receipts, k)
                            == kv_lookup(pre.receipts, k) by {
                        lemma_kv_lookup_remove(pre.receipts, i as int, k);
                    }
                    let op = self.undo@.last();
                    assert(apply_undo(prefix@, op).receipts
                        =~= pre.receipts.remove(i as int)
                            .insert(i as int, pre.receipts[i as int]));
                    assert(pre.receipts.remove(i as int)
                        .insert(i as int, pre.receipts[i as int]) =~= pre.receipts);
                    assert(apply_undo(prefix@, op) =~= pre);
                    assert(self.undo@.drop_last() =~= old(self).undo@);
                    assert(prefix@.files =~= pre.files);
                }
                true
            },
            None => false,
        }
    }

    /// Marks the root as created, to be deleted again on rollback.
    pub fn create_root(&mut self, prefix: &mut Prefix)
        requires
            old(self).inv(old(prefix)@),
            old(prefix).wf(),
        ensures
            final(self).inv(final(prefix)@),
            final(self).original == old(self).original,
            final(prefix).wf(),
            final(prefix)@.exists,
            final(prefix)@.files == old(prefix)@.files,
            final(prefix)@.receipts == old(prefix)@.receipts,
    {
        let ghost pre = prefix@;
        let was = prefix.exists;
        self.undo.push(UndoOp::SetExists(was));
        prefix.exists = true;
        proof {
            assert(prefix@.files =~= pre.files);
            assert(prefix@.receipts =~= pre.receipts);
            let op = self.undo@.last();
            assert(apply_undo(prefix@, op) =~= pre);
            assert(self.undo@.drop_last() =~= old(self).undo@);
        }
    }

    /// Commits: the log is discarded and the state stands.
    pub fn commit(self) {
    }

    /// Rolls back: replays the log in reverse.  The root is restored to
    /// exactly the state the transaction opened on.
    pub fn rollback(self, prefix: &mut Prefix)
        requires
            self.inv(old(prefix)@),
        ensures
            final(prefix)@ == self.original@,
    {
        let mut undo = self.undo;
        while undo.len() > 0
            invariant
                undo_replay(prefix@, undo@) == self.original@,
                undo_log_wf(prefix@, undo@),
            decreases undo@.len(),
    {
            let ghost ops_before0 = undo@;
            let op = undo.pop().unwrap();
            let ghost pre = prefix@;
            let ghost ops_before = ops_before0;
            proof {
                assert(ops_before.last() == op);
                assert(ops_before.drop_last() =~= undo@);
                assert(undo_op_wf(pre, op));
                assert(undo_log_wf(apply_undo(pre, op), undo@));
            }
            match op {
                UndoOp::SetFile(i, k, v) => {
                    prefix.files.set(i, (k, v));
                    proof {
                        assert(prefix@.files =~= pre.files.update(i as int, (k@, v@)));
                        assert(prefix@ =~= apply_undo(pre, UndoOp::SetFile(i, k, v)));
                    }
                },
                UndoOp::InsertFile(i, k, v) => {
                    prefix.files.insert(i, (k, v));
                    proof {
                        assert(prefix@.files =~= pre.files.insert(i as int, (k@, v@)));
                        assert(prefix@ =~= apply_undo(pre, UndoOp::InsertFile(i, k, v)));
                    }
                },
                UndoOp::PopFile => {
                    proof {
                        assert(pre.files.len() > 0);
                    }
                    let _ = prefix.files.pop();
                    proof {
                        assert(prefix@.files =~= pre.files.drop_last());
                        assert(prefix@ =~= apply_undo(pre, UndoOp::PopFile));
                    }
                },
                UndoOp::InsertReceipt(i, k, v) => {
                    proof {
                        assert(i as int <= pre.receipts.len());
                    }
                    prefix.receipts.insert(i, (k, v));
                    proof {
                        assert(prefix@.receipts
                            =~= pre.receipts.insert(i as int, (k@, v@.map_values(|f: String| f@))));
                        assert(prefix@ =~= apply_undo(pre, UndoOp::InsertReceipt(i, k, v)));
                    }
                },
                UndoOp::PopReceipt => {
                    proof {
                        assert(pre.receipts.len() > 0);
                    }
                    let _ = prefix.receipts.pop();
                    proof {
                        assert(prefix@.receipts =~= pre.receipts.drop_last());
                        assert(prefix@ =~= apply_undo(pre, UndoOp::PopReceipt));
                    }
                },
                UndoOp::SetExists(b) => {
                    prefix.exists = b;
                    proof {
                        assert(prefix@ =~= apply_undo(pre, UndoOp::SetExists(b)));
                    }
                },
            }
        }
    }
}

} // verus!

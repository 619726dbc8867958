//! The registry of claimed drives, and what holds of every sequence of
//! claims and releases.
use super::errors::{MakeMkvError, MakeMkvErrorModel, Result};
use std::collections::HashSet;
use vstd::prelude::*;

verus! {

/// One operation on the registry.
pub enum DriveOp {
    Lock(u8),
    Unlock(u8),
}

impl DriveOp {
    /// The drive that the operation is about.
    pub open spec fn drive(self) -> u8 {
        match self {
            DriveOp::Lock(d) => d,
            DriveOp::Unlock(d) => d,
        }
    }
}

/// Whether `op` succeeds on the claimed drives `locked`: a claim succeeds on
/// a free drive only, a release always.
pub open spec fn succeeds(locked: Set<u8>, op: DriveOp) -> bool {
    match op {
        DriveOp::Lock(d) => !locked.contains(d),
        DriveOp::Unlock(d) => true,
    }
}

/// The claimed drives after `op`. A refused claim changes nothing: the drive
/// was claimed and stays so.
pub open spec fn apply(locked: Set<u8>, op: DriveOp) -> Set<u8> {
    match op {
        DriveOp::Lock(d) => locked.insert(d),
        DriveOp::Unlock(d) => locked.remove(d),
    }
}

/// The claimed drives after the operations `ops`, one after the other.
pub open spec fn apply_all(locked: Set<u8>, ops: Seq<DriveOp>) -> Set<u8>
    decreases ops.len(),
{
    if ops.len() == 0 {
        locked
    } else {
        apply(apply_all(locked, ops.drop_last()), ops.last())
    }
}

/// How many of `ops` are claims of `d`.
pub open spec fn claims_made(ops: Seq<DriveOp>, d: u8) -> nat
    decreases ops.len(),
{
    if ops.len() == 0 {
        0
    } else {
        claims_made(ops.drop_last(), d) + if ops.last() == DriveOp::Lock(d) {
            1nat
        } else {
            0nat
        }
    }
}

/// How many of `ops`, run from `locked`, are claims of `d` that succeed.
pub open spec fn claims_won(locked: Set<u8>, ops: Seq<DriveOp>, d: u8) -> nat
    decreases ops.len(),
{
    if ops.len() == 0 {
        0
    } else {
        claims_won(locked, ops.drop_last(), d) + if ops.last() == DriveOp::Lock(d) && succeeds(
            apply_all(locked, ops.drop_last()),
            ops.last(),
        ) {
            1nat
        } else {
            0nat
        }
    }
}

/// Of any number of claims of a free drive, in whatever order they and the
/// operations on other drives come, exactly one succeeds, as long as nobody
/// releases the drive; all the others are refused.
pub proof fn one_claim_wins(locked: Set<u8>, ops: Seq<DriveOp>, d: u8)
    requires
        !locked.contains(d),
        forall|i: int| 0 <= i < ops.len() ==> ops[i] != DriveOp::Unlock(d),
    ensures
        claims_won(locked, ops, d) == if claims_made(ops, d) >= 1 {
            1nat
        } else {
            0nat
        },
        apply_all(locked, ops).contains(d) == (claims_made(ops, d) >= 1),
    decreases ops.len(),
{
    if ops.len() > 0 {
        let before = ops.drop_last();
        assert forall|i: int| 0 <= i < before.len() implies before[i] != DriveOp::Unlock(d) by {
            assert(before[i] == ops[i]);
        }
        one_claim_wins(locked, before, d);
        assert(ops.last() == ops[ops.len() - 1]);
    }
}

/// Operations on other drives leave a drive as it is: whether a claim of `d`
/// succeeds does not depend on them.
pub proof fn other_drives_do_not_interfere(locked: Set<u8>, ops: Seq<DriveOp>, d: u8)
    requires
        forall|i: int| 0 <= i < ops.len() ==> ops[i].drive() != d,
    ensures
        apply_all(locked, ops).contains(d) == locked.contains(d),
        succeeds(apply_all(locked, ops), DriveOp::Lock(d)) == succeeds(locked, DriveOp::Lock(d)),
    decreases ops.len(),
{
    if ops.len() > 0 {
        let before = ops.drop_last();
        assert forall|i: int| 0 <= i < before.len() implies before[i].drive() != d by {
            assert(before[i] == ops[i]);
        }
        other_drives_do_not_interfere(locked, before, d);
        assert(ops.last() == ops[ops.len() - 1]);
    }
}

/// Claims of two different drives do not depend on their order.
pub proof fn claims_of_two_drives_commute(locked: Set<u8>, d1: u8, d2: u8)
    requires
        d1 != d2,
    ensures
        succeeds(apply(locked, DriveOp::Lock(d2)), DriveOp::Lock(d1)) == succeeds(
            locked,
            DriveOp::Lock(d1),
        ),
        apply(apply(locked, DriveOp::Lock(d1)), DriveOp::Lock(d2)) == apply(
            apply(locked, DriveOp::Lock(d2)),
            DriveOp::Lock(d1),
        ),
{
    assert(locked.insert(d1).insert(d2) =~= locked.insert(d2).insert(d1));
}

/// The drives that are claimed. A drive is claimed at most once: claiming a
/// claimed drive fails.
pub struct DriveRegistry {
    pub locked: HashSet<u8>,
}

impl View for DriveRegistry {
    type V = Set<u8>;

    open spec fn view(&self) -> Set<u8> {
        self.locked@
    }
}

impl DriveRegistry {
    /// A registry in which no drive is claimed.
    pub fn new() -> (r: DriveRegistry)
        ensures
            r@ == Set::<u8>::empty(),
    {
        DriveRegistry { locked: HashSet::new() }
    }

    /// Whether `drive_number` is claimed.
    pub fn is_locked(&self, drive_number: u8) -> (r: bool)
        ensures
            r == self@.contains(drive_number),
    {
        self.locked.contains(&drive_number)
    }

    /// Claims `drive_number`, or fails where it is claimed already.
    pub fn lock(&mut self, drive_number: u8) -> (r: Result<()>)
        ensures
            r is Ok <==> succeeds(old(self)@, DriveOp::Lock(drive_number)),
            r is Err ==> r->Err_0@ == MakeMkvErrorModel::DriveInUseError(drive_number),
            final(self)@ == apply(old(self)@, DriveOp::Lock(drive_number)),
    {
        if self.locked.contains(&drive_number) {
            return Err(MakeMkvError::DriveInUseError(drive_number));
        }
        self.locked.insert(drive_number);
        Ok(())
    }

    /// Gives `drive_number` up. A drive that is not claimed stays so.
    pub fn unlock(&mut self, drive_number: u8)
        ensures
            final(self)@ == apply(old(self)@, DriveOp::Unlock(drive_number)),
    {
        self.locked.remove(&drive_number);
    }
}

} // verus!

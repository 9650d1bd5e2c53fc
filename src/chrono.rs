//! Chronological orders: dense ranks, kept in a flag store, over a sparse set
//! of IDs.
//!
//! A rank of zero means that the ID is not part of the order. Ranks are given
//! from 1 upwards as entries are appended, and the largest rank given so far
//! is kept beside the store.
use vstd::prelude::*;

use crate::flags::{FlagStore, FlagType};

verus! {

/// How two stored ranks compare; an ID past the end of the store sorts
/// before every rank.
pub open spec fn compare_ranks(a: Option<u32>, b: Option<u32>) -> core::cmp::Ordering {
    match (a, b) {
        (None, None) => core::cmp::Ordering::Equal,
        (None, Some(_)) => core::cmp::Ordering::Less,
        (Some(_), None) => core::cmp::Ordering::Greater,
        (Some(x), Some(y)) => if x < y {
            core::cmp::Ordering::Less
        } else if x > y {
            core::cmp::Ordering::Greater
        } else {
            core::cmp::Ordering::Equal
        },
    }
}

/// The ranks and largest rank after appending `id` to the order: nothing
/// changes if `id` already has a rank, otherwise it gets the next rank.
pub open spec fn inserted(ranks: Seq<u32>, max: u8, id: int) -> (Seq<u32>, u8) {
    if ranks[id] != 0 {
        (ranks, max)
    } else {
        (ranks.update(id, (max + 1) as u32), (max + 1) as u8)
    }
}

/// The ranks and largest rank after removing `id` from the order. The
/// largest rank shrinks by one only when `id` held it.
pub open spec fn deleted(ranks: Seq<u32>, max: u8, id: int) -> (Seq<u32>, u8) {
    let new_max = if ranks[id] == max as u32 {
        if max == 0 {
            0u8
        } else {
            (max - 1) as u8
        }
    } else {
        max
    };
    (ranks.update(id, 0), new_max)
}

/// The order in which the player completed NPC community entries (fourth
/// DLC), kept as one byte-wide flag per entry and a largest rank.
pub struct CommunityChrono<'a> {
    pub flags: &'a mut FlagStore,
    pub order_max: &'a mut u8,
}

impl<'a> CommunityChrono<'a> {
    /// The flags are byte-wide and hold values a byte can hold.
    pub open spec fn wf(&self) -> bool {
        &&& self.flags.wf()
        &&& self.flags.flag_type_spec() == FlagType::Byte
    }

    /// Keeps an order over `flags` (byte-wide), with `order_max` as its
    /// largest rank.
    pub fn new(flags: &'a mut FlagStore, order_max: &'a mut u8) -> (r: CommunityChrono<'a>)
        requires
            old(flags).wf(),
            old(flags).flag_type_spec() == FlagType::Byte,
        ensures
            r.wf(),
            *r.flags == *old(flags),
            *r.order_max == *old(order_max),
            *final(r.flags) == *final(flags),
            *final(r.order_max) == *final(order_max),
    {
        CommunityChrono { flags, order_max }
    }

    /// Whether an NPC community entry is part of the order. An entry that is
    /// not had none of its tasks completed.
    pub fn is_present(&self, flag: usize) -> (r: bool)
        ensures
            r == (flag < old(self.flags).values().len() && old(self.flags).values()[flag as int]
                != 0),
    {
        match self.flags.get(flag) {
            Some(f) => f != 0,
            None => false,
        }
    }

    /// Removes an NPC community entry from the order.
    pub fn delete(&mut self, flag: usize)
        requires
            old(self).wf(),
            flag < old(self).flags.values().len(),
        ensures
            final(self).wf(),
            (final(self).flags.values(), *final(self).order_max) == deleted(
                old(self).flags.values(),
                *old(self).order_max,
                flag as int,
            ),
            *final(final(self).flags) == *final(old(self).flags),
            *final(final(self).order_max) == *final(old(self).order_max),
    {
        let val = match self.flags.get(flag) {
            Some(v) => v,
            None => 0,
        };
        if val == *self.order_max as u32 {
            // keeps the largest rank from growing without bound
            *self.order_max = if *self.order_max == 0 {
                0
            } else {
                *self.order_max - 1
            };
        }
        self.flags.set(flag, 0);
    }

    /// Compares the ranks of two NPC community entries (flag IDs).
    pub fn cmp_entries(&self, id_a: usize, id_b: usize) -> (r: core::cmp::Ordering)
        ensures
            r == compare_ranks(old(self.flags).get_spec(id_a), old(self.flags).get_spec(id_b)),
    {
        let a = self.flags.get(id_a);
        let b = self.flags.get(id_b);
        match (a, b) {
            (None, None) => core::cmp::Ordering::Equal,
            (None, Some(_)) => core::cmp::Ordering::Less,
            (Some(_), None) => core::cmp::Ordering::Greater,
            (Some(x), Some(y)) => if x < y {
                core::cmp::Ordering::Less
            } else if x > y {
                core::cmp::Ordering::Greater
            } else {
                core::cmp::Ordering::Equal
            },
        }
    }

    /// Swaps the ranks of two NPC community entries (flag IDs).
    pub fn swap(&mut self, id_a: usize, id_b: usize)
        requires
            old(self).wf(),
            id_a < old(self).flags.values().len(),
            id_b < old(self).flags.values().len(),
        ensures
            final(self).wf(),
            final(self).flags.values() == old(self).flags.values().update(
                id_a as int,
                old(self).flags.values()[id_b as int],
            ).update(id_b as int, old(self).flags.values()[id_a as int]),
            *final(self).order_max == *old(self).order_max,
            *final(final(self).flags) == *final(old(self).flags),
            *final(final(self).order_max) == *final(old(self).order_max),
    {
        let val_a = match self.flags.get(id_a) {
            Some(v) => v,
            None => 0,
        };
        let val_b = match self.flags.get(id_b) {
            Some(v) => v,
            None => 0,
        };
        self.flags.set(id_a, val_b);
        self.flags.set(id_b, val_a);
    }

    /// Appends an NPC community entry (flag ID) to the order, unless it is
    /// already part of it.
    pub fn insert(&mut self, id: usize)
        requires
            old(self).wf(),
            id < old(self).flags.values().len(),
            old(self).flags.values()[id as int] == 0 ==> *old(self).order_max < u8::MAX,
        ensures
            final(self).wf(),
            (final(self).flags.values(), *final(self).order_max) == inserted(
                old(self).flags.values(),
                *old(self).order_max,
                id as int,
            ),
            *final(final(self).flags) == *final(old(self).flags),
            *final(final(self).order_max) == *final(old(self).order_max),
    {
        if self.is_present(id) {
            return;
        }
        let val = *self.order_max + 1;
        self.flags.set(id, val as u32);
        *self.order_max = val;
    }
}

/// Appending an ID that is already part of the order changes nothing, so
/// appending twice is appending once.
pub proof fn lemma_insert_idempotent(ranks: Seq<u32>, max: u8, id: int)
    requires
        0 <= id < ranks.len(),
        ranks[id] == 0 ==> max < u8::MAX,
    ensures
        inserted(inserted(ranks, max, id).0, inserted(ranks, max, id).1, id) == inserted(
            ranks,
            max,
            id,
        ),
{
}

/// Appending to an order gives the new entry a rank above every rank held
/// so far, and the largest rank is then that entry's rank.
pub proof fn lemma_insert_ranks_last(ranks: Seq<u32>, max: u8, id: int)
    requires
        0 <= id < ranks.len(),
        ranks[id] == 0,
        max < u8::MAX,
        forall|i: int| 0 <= i < ranks.len() ==> #[trigger] ranks[i] <= max,
    ensures
        inserted(ranks, max, id).0[id] == inserted(ranks, max, id).1 as u32,
        forall|i: int|
            0 <= i < ranks.len() && i != id ==> #[trigger] ranks[i] < inserted(ranks, max, id).0[id],
        forall|i: int|
            0 <= i < ranks.len() ==> #[trigger] inserted(ranks, max, id).0[i] <= inserted(
                ranks,
                max,
                id,
            ).1,
{
}

} // verus!

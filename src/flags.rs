//! Flag storage: a numbered array of small unsigned values of one width.
use vstd::prelude::*;

verus! {

/// The width of the values in a flag store.
#[derive(Debug, Clone, Copy, PartialEq, Eq, Structural)]
pub enum FlagType {
    Bit,
    TwoBits,
    FourBits,
    Byte,
    Short,
    Int,
}

impl FlagType {
    /// The largest value a flag of this width holds.
    pub open spec fn max_value_spec(self) -> u32 {
        match self {
            FlagType::Bit => 1,
            FlagType::TwoBits => 3,
            FlagType::FourBits => 15,
            FlagType::Byte => 255,
            FlagType::Short => 65535,
            FlagType::Int => 0xffff_ffff,
        }
    }

    /// The largest value a flag of this width holds.
    pub fn max_value(self) -> (r: u32)
        ensures
            r == self.max_value_spec(),
    {
        match self {
            FlagType::Bit => 1,
            FlagType::TwoBits => 3,
            FlagType::FourBits => 15,
            FlagType::Byte => 255,
            FlagType::Short => 65535,
            FlagType::Int => 0xffff_ffff,
        }
    }
}

/// A numbered array of flags of one width.
#[derive(Debug, PartialEq, Eq)]
pub struct FlagStore {
    flag_type: FlagType,
    values: Vec<u32>,
}

impl FlagStore {
    /// The values of the flags, by number.
    pub closed spec fn values(&self) -> Seq<u32> {
        self.values@
    }

    pub closed spec fn flag_type_spec(&self) -> FlagType {
        self.flag_type
    }

    /// Every flag holds a value its width can hold.
    pub open spec fn wf(&self) -> bool {
        forall|i: int|
            0 <= i < self.values().len() ==> #[trigger] self.values()[i]
                <= self.flag_type_spec().max_value_spec()
    }

    /// A store of `count` flags of the given width, all zero.
    pub fn new(flag_type: FlagType, count: usize) -> (r: FlagStore)
        ensures
            r.wf(),
            r.flag_type_spec() == flag_type,
            r.values() == Seq::new(count as nat, |i: int| 0u32),
    {
        let mut values: Vec<u32> = Vec::new();
        let mut i: usize = 0;
        while i < count
            invariant
                i <= count,
                values@ == Seq::new(i as nat, |k: int| 0u32),
            decreases count - i,
        {
            values.push(0);
            i = i + 1;
            proof {
                assert(values@ =~= Seq::new(i as nat, |k: int| 0u32));
            }
        }
        FlagStore { flag_type, values }
    }

    pub fn flag_type(&self) -> (r: FlagType)
        ensures
            r == self.flag_type_spec(),
    {
        self.flag_type
    }

    /// The value of flag `index`, or `None` past the end of the store.
    pub open spec fn get_spec(&self, index: usize) -> Option<u32> {
        if index < self.values().len() {
            Some(self.values()[index as int])
        } else {
            None
        }
    }

    /// The number of flags in the store.
    pub fn len(&self) -> (r: usize)
        ensures
            r == self.values().len(),
    {
        self.values.len()
    }

    /// The value of flag `index`, or `None` past the end of the store.
    pub fn get(&self, index: usize) -> (r: Option<u32>)
        ensures
            r == self.get_spec(index),
    {
        if index < self.values.len() {
            Some(self.values[index])
        } else {
            None
        }
    }

    /// Sets flag `index` to `value`.
    pub fn set(&mut self, index: usize, value: u32)
        requires
            old(self).wf(),
            index < old(self).values().len(),
            value <= old(self).flag_type_spec().max_value_spec(),
        ensures
            final(self).wf(),
            final(self).flag_type_spec() == old(self).flag_type_spec(),
            final(self).values() == old(self).values().update(index as int, value),
    {
        self.values.set(index, value);
    }
}

} // verus!

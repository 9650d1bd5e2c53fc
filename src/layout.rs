//! Layout descriptors: the declared field order, explicit offsets and size
//! ceiling of a record, and the structural check that derives the record's
//! size from them.
//!
//! Each field is placed at the running cursor, or at its explicit offset when
//! it declares one; the cursor then moves past the field. An explicit offset
//! below the cursor would make fields overlap or appear out of storage order,
//! and a record whose fields reach past its declared maximum cannot be padded
//! to it: both are rejected.
use vstd::prelude::*;

verus! {

/// One field of a record layout.
#[derive(Debug, Clone, Copy, PartialEq, Eq)]
pub struct FieldLayout {
    /// The encoded size of the field in bytes.
    pub size: usize,
    /// The field's explicit offset from the start of the record, if it
    /// declares one.
    pub loc: Option<usize>,
}

/// The declared layout of a record: its fields in declaration order, and the
/// size it is padded to, if it declares one.
#[derive(Debug, PartialEq, Eq)]
pub struct LayoutDescriptor {
    pub fields: Vec<FieldLayout>,
    pub max_size: Option<usize>,
}

/// Why a layout descriptor is rejected.
#[derive(Debug, Clone, Copy, PartialEq, Eq)]
pub enum LayoutError {
    /// Field `field` declares offset `loc`, below `current`, the end of the
    /// field before it.
    OutOfOrder { field: usize, loc: usize, current: usize },
    /// The fields take `size` bytes, more than the declared maximum `max`.
    TooLarge { size: usize, max: usize },
    /// The fields reach past the largest addressable offset.
    Overflow,
}

/// The cursor after placing the first `k` fields, or the first fault met.
pub open spec fn cursor_after(fields: Seq<FieldLayout>, k: nat) -> Result<int, LayoutError>
    decreases k,
{
    if k == 0 {
        Ok(0)
    } else {
        match cursor_after(fields, (k - 1) as nat) {
            Err(e) => Err(e),
            Ok(c) => {
                let f = fields[k - 1];
                let start = match f.loc {
                    Some(l) => l as int,
                    None => c,
                };
                if start < c {
                    Err(
                        LayoutError::OutOfOrder {
                            field: (k - 1) as usize,
                            loc: start as usize,
                            current: c as usize,
                        },
                    )
                } else if start + f.size > usize::MAX {
                    Err(LayoutError::Overflow)
                } else {
                    Ok(start + f.size)
                }
            },
        }
    }
}

/// The effective offset of field `i`: its explicit offset, or the cursor
/// after the fields before it.
pub open spec fn offset_of(fields: Seq<FieldLayout>, i: int) -> int {
    match fields[i].loc {
        Some(l) => l as int,
        None => cursor_after(fields, i as nat)->Ok_0,
    }
}

/// The size of a record with this layout, or why the layout is rejected.
pub open spec fn layout_size(fields: Seq<FieldLayout>, max_size: Option<usize>) -> Result<
    usize,
    LayoutError,
> {
    match cursor_after(fields, fields.len()) {
        Err(e) => Err(e),
        Ok(end) => match max_size {
            Some(m) => if end > m {
                Err(LayoutError::TooLarge { size: end as usize, max: m })
            } else {
                Ok(m)
            },
            None => Ok(end as usize),
        },
    }
}

impl LayoutDescriptor {
    /// Checks the layout and returns the record's size: the end of its last
    /// field, or the declared maximum when there is one.
    pub fn compute_size(&self) -> (r: Result<usize, LayoutError>)
        ensures
            r == layout_size(self.fields@, self.max_size),
    {
        let n = self.fields.len();
        let mut cursor: usize = 0;
        let mut i: usize = 0;
        while i < n
            invariant
                i <= n,
                n == self.fields@.len(),
                cursor_after(self.fields@, i as nat) == Ok::<int, LayoutError>(cursor as int),
            decreases n - i,
        {
            let f = self.fields[i];
            let start = match f.loc {
                Some(l) => l,
                None => cursor,
            };
            if start < cursor {
                proof {
                    lemma_fault_persists(self.fields@, (i + 1) as nat, n as nat);
                }
                return Err(LayoutError::OutOfOrder { field: i, loc: start, current: cursor });
            }
            if f.size > usize::MAX - start {
                proof {
                    lemma_fault_persists(self.fields@, (i + 1) as nat, n as nat);
                }
                return Err(LayoutError::Overflow);
            }
            cursor = start + f.size;
            i = i + 1;
        }
        match self.max_size {
            Some(m) => {
                if cursor > m {
                    Err(LayoutError::TooLarge { size: cursor, max: m })
                } else {
                    Ok(m)
                }
            },
            None => Ok(cursor),
        }
    }
}

/// A fault met while placing the first `k` fields is the outcome of the
/// whole layout.
proof fn lemma_fault_persists(fields: Seq<FieldLayout>, k: nat, n: nat)
    requires
        k <= n,
        cursor_after(fields, k) is Err,
    ensures
        cursor_after(fields, n) == cursor_after(fields, k),
    decreases n - k,
{
    if k < n {
        lemma_fault_persists(fields, k, (n - 1) as nat);
    }
}

/// The cursor only moves forward, and a layout that places all its fields
/// placed each of its prefixes.
proof fn lemma_cursor_monotone(fields: Seq<FieldLayout>, j: nat, k: nat)
    requires
        j <= k,
        cursor_after(fields, k) is Ok,
    ensures
        cursor_after(fields, j) is Ok,
        cursor_after(fields, j)->Ok_0 <= cursor_after(fields, k)->Ok_0,
    decreases k - j,
{
    if j < k {
        lemma_cursor_monotone(fields, j, (k - 1) as nat);
    }
}

/// In an accepted layout every field ends at or before the start of each
/// later field, so fields never overlap and explicit offsets never decrease.
pub proof fn lemma_accepted_fields_in_order(fields: Seq<FieldLayout>, max_size: Option<usize>)
    requires
        layout_size(fields, max_size) is Ok,
    ensures
        forall|i: int, j: int|
            0 <= i < j < fields.len() ==> #[trigger] offset_of(fields, i) + fields[i].size
                <= #[trigger] offset_of(fields, j),
        forall|i: int, j: int|
            0 <= i < j < fields.len() && fields[i].loc is Some && fields[j].loc is Some
                ==> #[trigger] fields[i].loc->0 <= #[trigger] fields[j].loc->0,
        forall|i: int|
            0 <= i < fields.len() ==> #[trigger] offset_of(fields, i) + fields[i].size
                <= layout_size(fields, max_size)->Ok_0,
{
    let n = fields.len();
    assert forall|i: int, j: int| 0 <= i < j < n implies #[trigger] offset_of(fields, i)
        + fields[i].size <= #[trigger] offset_of(fields, j) by {
        lemma_cursor_monotone(fields, (j + 1) as nat, n);
        lemma_cursor_monotone(fields, (i + 1) as nat, j as nat);
    }
    assert forall|i: int, j: int|
        0 <= i < j < n && fields[i].loc is Some && fields[j].loc is Some implies #[trigger] fields[i].loc->0
        <= #[trigger] fields[j].loc->0 by {
        lemma_cursor_monotone(fields, (j + 1) as nat, n);
        lemma_cursor_monotone(fields, (i + 1) as nat, j as nat);
    }
    assert forall|i: int| 0 <= i < n implies #[trigger] offset_of(fields, i) + fields[i].size
        <= layout_size(fields, max_size)->Ok_0 by {
        lemma_cursor_monotone(fields, (i + 1) as nat, n);
    }
}

/// A layout that declares two explicit offsets in decreasing order is
/// rejected.
pub proof fn lemma_decreasing_offsets_rejected(
    fields: Seq<FieldLayout>,
    max_size: Option<usize>,
    i: int,
    j: int,
)
    requires
        0 <= i < j < fields.len(),
        fields[i].loc is Some,
        fields[j].loc is Some,
        fields[i].loc->0 > fields[j].loc->0,
    ensures
        layout_size(fields, max_size) is Err,
{
    if layout_size(fields, max_size) is Ok {
        lemma_accepted_fields_in_order(fields, max_size);
        assert(fields[i].loc->0 <= fields[j].loc->0);
    }
}

/// A declared maximum is the size of every layout that accepts it, and a
/// layout whose fields reach past it is rejected.
pub proof fn lemma_size_ceiling(fields: Seq<FieldLayout>, max: usize)
    ensures
        layout_size(fields, Some(max)) is Ok ==> layout_size(fields, Some(max)) == Ok::<
            usize,
            LayoutError,
        >(max),
        cursor_after(fields, fields.len()) is Ok && cursor_after(fields, fields.len())->Ok_0 > max
            ==> layout_size(fields, Some(max)) is Err,
{
}

} // verus!

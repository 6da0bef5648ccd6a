//! Allocation layouts: a requested size and alignment, checked against a backend.
use vstd::prelude::*;

verus! {

/// Holds when `n` is a power of two (1, 2, 4, ...).
pub open spec fn is_power_of_two(n: nat) -> bool
    decreases n,
{
    if n == 0 {
        false
    } else if n == 1 {
        true
    } else {
        n % 2 == 0 && is_power_of_two(n / 2)
    }
}

/// A power of two is at least one.
pub proof fn lemma_power_of_two_positive(n: nat)
    ensures
        is_power_of_two(n) ==> n >= 1,
{
}

/// Returns whether `n` is a power of two.
pub fn power_of_two(n: usize) -> (r: bool)
    ensures
        r == is_power_of_two(n as nat),
{
    let mut m: usize = n;
    while m > 1 && m % 2 == 0
        invariant
            is_power_of_two(m as nat) == is_power_of_two(n as nat),
        decreases m,
    {
        m = m / 2;
    }
    m == 1
}

/// Why a layout cannot be built.
#[derive(Clone, Copy, Debug, PartialEq, Eq, Structural)]
pub enum LayoutError {
    /// The alignment is not a power of two.
    InvalidArgument,
    /// The size does not fit in the backend's arena.
    LayoutInfeasible,
}

/// Why `size` bytes aligned to `alignment` cannot be laid out in an arena of
/// `capacity` bytes, or `None` when they can.
pub open spec fn layout_check(capacity: usize, size: usize, alignment: usize) -> Option<LayoutError> {
    if !is_power_of_two(alignment as nat) {
        Some(LayoutError::InvalidArgument)
    } else if size > capacity {
        Some(LayoutError::LayoutInfeasible)
    } else {
        None
    }
}

/// A requested size and alignment that a backend of a given capacity can serve.
#[derive(Clone, Copy, Debug, PartialEq, Eq, Structural)]
pub struct AllocLayout {
    size: usize,
    alignment: usize,
    capacity: usize,
}

impl AllocLayout {
    pub closed spec fn spec_size(&self) -> usize {
        self.size
    }

    pub closed spec fn spec_alignment(&self) -> usize {
        self.alignment
    }

    pub closed spec fn spec_capacity(&self) -> usize {
        self.capacity
    }

    /// A layout is well formed when its alignment is a power of two and its size fits.
    pub open spec fn wf(&self) -> bool {
        is_power_of_two(self.spec_alignment() as nat) && self.spec_size() <= self.spec_capacity()
    }

    /// The layout with these fields.
    pub closed spec fn spec_new(capacity: usize, size: usize, alignment: usize) -> AllocLayout {
        AllocLayout { size, alignment, capacity }
    }

    /// The fields of a layout built from given values are those values.
    pub proof fn lemma_spec_new(capacity: usize, size: usize, alignment: usize)
        ensures
            AllocLayout::spec_new(capacity, size, alignment).spec_size() == size,
            AllocLayout::spec_new(capacity, size, alignment).spec_alignment() == alignment,
            AllocLayout::spec_new(capacity, size, alignment).spec_capacity() == capacity,
    {
    }

    /// Builds the layout for `size` bytes aligned to `alignment` in an arena of
    /// `capacity` bytes.
    pub fn construct(capacity: usize, size: usize, alignment: usize) -> (r: Result<
        AllocLayout,
        LayoutError,
    >)
        ensures
            r == (match layout_check(capacity, size, alignment) {
                Some(e) => Err(e),
                None => Ok(AllocLayout::spec_new(capacity, size, alignment)),
            }),
            r matches Ok(l) ==> l.wf() && l.spec_size() == size && l.spec_alignment() == alignment
                && l.spec_capacity() == capacity,
    {
        if !power_of_two(alignment) {
            Err(LayoutError::InvalidArgument)
        } else if size > capacity {
            Err(LayoutError::LayoutInfeasible)
        } else {
            Ok(AllocLayout { size, alignment, capacity })
        }
    }

    pub fn size(&self) -> (r: usize)
        ensures
            r == self.spec_size(),
    {
        self.size
    }

    pub fn alignment(&self) -> (r: usize)
        ensures
            r == self.spec_alignment(),
    {
        self.alignment
    }

    pub fn capacity(&self) -> (r: usize)
        ensures
            r == self.spec_capacity(),
    {
        self.capacity
    }
}

} // verus!

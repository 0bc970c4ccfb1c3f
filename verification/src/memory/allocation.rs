use vstd::layout::{align_of, layout_for_type_is_valid, size_of, valid_layout};
use crate::keyed_list::KeyEq;
use vstd::prelude::*;

verus! {

/// The size and alignment of a block of memory.
///
/// A layout is always valid: its alignment is a power of two and its size,
/// rounded up to the alignment, does not exceed `isize::MAX`.
#[derive(Debug, Clone, Copy, PartialEq, Eq, Structural, Hash)]
pub struct Layout {
    size: usize,
    align: usize,
}

impl Layout {
    #[verifier::type_invariant]
    closed spec fn valid(self) -> bool {
        valid_layout(self.size, self.align)
    }

    /// The size in bytes.
    pub closed spec fn spec_size(&self) -> usize {
        self.size
    }

    /// The alignment in bytes.
    pub closed spec fn spec_align(&self) -> usize {
        self.align
    }

    /// The size in bytes of a block with this layout.
    #[verifier::when_used_as_spec(spec_size)]
    pub fn size(&self) -> (r: usize)
        ensures
            r == self.spec_size(),
    {
        self.size
    }

    /// The alignment in bytes of a block with this layout.
    #[verifier::when_used_as_spec(spec_align)]
    pub fn align(&self) -> (r: usize)
        ensures
            r == self.spec_align(),
    {
        self.align
    }

    /// Builds the layout of the given size and alignment, if it is valid.
    pub fn from_size_align(size: usize, align: usize) -> (r: Option<Layout>)
        ensures
            r is Some <==> valid_layout(size, align),
            r matches Some(l) ==> l.size() == size && l.align() == align,
    {
        if !is_power_of_two(align) {
            return None;
        }
        let max = isize::MAX as usize;
        let rem = max % align;
        assert(rem <= max) by {
            vstd::arithmetic::div_mod::lemma_mod_decreases(max as nat, align as nat);
        }
        if size > max - rem {
            return None;
        }
        Some(Layout { size, align })
    }

    /// The layout of a value of type `T`.
    pub fn new<T>() -> (r: Layout)
        ensures
            r.size() == size_of::<T>(),
            r.align() == align_of::<T>(),
    {
        layout_for_type_is_valid::<T>();
        Layout { size: core::mem::size_of::<T>(), align: core::mem::align_of::<T>() }
    }

    /// The layout of an array of `n` values of type `T`, if it is valid.
    pub fn array<T>(n: usize) -> (r: Option<Layout>)
        ensures
            r is Some <==> (n * size_of::<T>() <= usize::MAX && valid_layout(
                (n * size_of::<T>()) as usize,
                align_of::<T>() as usize,
            )),
            r matches Some(l) ==> l.size() == n * size_of::<T>() && l.align() == align_of::<T>(),
    {
        layout_for_type_is_valid::<T>();
        let elem = core::mem::size_of::<T>();
        let size = match n.checked_mul(elem) {
            Some(s) => s,
            None => return None,
        };
        Layout::from_size_align(size, core::mem::align_of::<T>())
    }
}

impl KeyEq for Layout {
    fn key_eq(&self, other: &Self) -> (r: bool) {
        self.size == other.size && self.align == other.align
    }
}

/// Tells whether `x` is a power of two.
fn is_power_of_two(x: usize) -> (r: bool)
    ensures
        r == vstd::arithmetic::power2::is_pow2(x as int),
        r ==> x > 0,
{
    reveal(vstd::arithmetic::power2::is_pow2);
    if x == 0 {
        return false;
    }
    let mut y = x;
    while y > 1 && y % 2 == 0
        invariant
            y > 0,
            vstd::arithmetic::power2::is_pow2(x as int) == vstd::arithmetic::power2::is_pow2(
                y as int,
            ),
        decreases y,
    {
        reveal(vstd::arithmetic::power2::is_pow2);
        y = y / 2;
    }
    reveal(vstd::arithmetic::power2::is_pow2);
    y == 1
}

/// A block of memory previously used for a single object.
///
/// The block is described by the address it was handed out at and its
/// layout.
#[derive(Debug)]
pub struct ObjectAllocation {
    addr: usize,
    layout: Layout,
}

impl ObjectAllocation {
    /// The address of the block.
    pub closed spec fn spec_addr(&self) -> usize {
        self.addr
    }

    /// The layout of the block.
    pub closed spec fn spec_layout(&self) -> Layout {
        self.layout
    }

    /// Describes the block at `addr` with the given layout.
    pub fn new(addr: usize, layout: Layout) -> (r: Self)
        ensures
            r.spec_addr() == addr,
            r.spec_layout() == layout,
    {
        ObjectAllocation { addr, layout }
    }

    /// The layout of the block.
    pub fn layout(&self) -> (r: &Layout)
        ensures
            *r == self.spec_layout(),
    {
        &self.layout
    }

    /// Consumes the description, returning the address and the layout.
    pub fn into_inner(self) -> (r: (usize, Layout))
        ensures
            r == (self.spec_addr(), self.spec_layout()),
    {
        (self.addr, self.layout)
    }
}

/// A block of memory previously used for an array.
///
/// The element size is never zero and divides the size of the layout.
#[derive(Debug)]
pub struct ArrayAllocation {
    addr: usize,
    element_size: usize,
    layout: Layout,
}

impl ArrayAllocation {
    #[verifier::type_invariant]
    closed spec fn consistent(self) -> bool {
        self.element_size > 0 && self.layout.spec_size() % self.element_size == 0
    }

    /// The address of the block; zero where the block describes a vector's
    /// buffer, whose address is not observed.
    pub closed spec fn spec_addr(&self) -> usize {
        self.addr
    }

    /// The size of one element of the array.
    pub closed spec fn spec_element_size(&self) -> usize {
        self.element_size
    }

    /// The layout of the whole block.
    pub closed spec fn spec_layout(&self) -> Layout {
        self.layout
    }

    /// Describes the array block at `addr`.
    pub fn new(addr: usize, element_size: usize, layout: Layout) -> (r: Self)
        requires
            element_size > 0,
            layout.size() % element_size == 0,
        ensures
            r.spec_addr() == addr,
            r.spec_element_size() == element_size,
            r.spec_layout() == layout,
    {
        ArrayAllocation { addr, element_size, layout }
    }

    /// Describes the buffer of a vector, then drops the vector with its
    /// elements and its buffer: the description owns no memory.
    ///
    /// The result is the block of the vector's capacity, as
    /// [`ArrayAllocation::from_capacity`] describes it: `None` when the vector
    /// has no capacity or its elements have size zero.
    pub fn from_vec<T>(vec: Vec<T>) -> (r: Option<Self>)
        ensures
            exists|capacity: usize|
                capacity >= vec@.len() && (size_of::<T>() > 0 ==> capacity * size_of::<T>()
                    <= isize::MAX) && #[trigger] is_capacity_block::<T>(r, capacity),
            size_of::<T>() == 0 ==> r is None,
            size_of::<T>() > 0 && vec@.len() > 0 ==> r is Some,
            r matches Some(a) ==> {
                &&& a.spec_element_size() == size_of::<T>()
                &&& a.spec_layout().size() >= vec@.len() * size_of::<T>()
                &&& a.spec_layout().size() > 0
                &&& a.spec_layout().align() == align_of::<T>()
                &&& a.spec_addr() == 0
                &&& holds_elements_of::<T>(a.spec_layout())
            },
    {
        ArrayAllocation::of_buffer(&vec)
    }

    /// Describes the buffer of a vector: its capacity of elements of `T`.
    pub(crate) fn of_buffer<T>(vec: &Vec<T>) -> (r: Option<Self>)
        ensures
            exists|capacity: usize|
                capacity >= vec@.len() && (size_of::<T>() > 0 ==> capacity * size_of::<T>()
                    <= isize::MAX) && #[trigger] is_capacity_block::<T>(r, capacity),
            size_of::<T>() == 0 ==> r is None,
            size_of::<T>() > 0 && vec@.len() > 0 ==> r is Some,
            r matches Some(a) ==> {
                &&& a.spec_element_size() == size_of::<T>()
                &&& a.spec_layout().size() >= vec@.len() * size_of::<T>()
                &&& a.spec_layout().size() > 0
                &&& a.spec_layout().align() == align_of::<T>()
                &&& a.spec_addr() == 0
                &&& holds_elements_of::<T>(a.spec_layout())
            },
    {
        let capacity = vec_capacity(vec);
        let r = ArrayAllocation::from_capacity::<T>(capacity);
        layout_for_type_is_valid::<T>();
        proof {
            if size_of::<T>() > 0 {
                vstd::arithmetic::mul::lemma_mul_inequality(
                    vec@.len() as int,
                    capacity as int,
                    size_of::<T>() as int,
                );
            }
            if r is Some {
                let a = r->0;
                vstd::arithmetic::div_mod::lemma_mod_multiples_basic(
                    capacity as int,
                    size_of::<T>() as int,
                );
                vstd::arithmetic::mul::lemma_mul_strictly_positive(
                    capacity as int,
                    size_of::<T>() as int,
                );
            }
        }
        r
    }

    /// Describes a block of `capacity` elements of `T`: the array's layout
    /// and the element size. `None` when the block would be empty, or too
    /// large for any allocation.
    pub fn from_capacity<T>(capacity: usize) -> (r: Option<Self>)
        ensures
            is_capacity_block::<T>(r, capacity),
    {
        layout_for_type_is_valid::<T>();
        let elem = core::mem::size_of::<T>();
        if capacity == 0 || elem == 0 {
            return None;
        }
        let total = match capacity.checked_mul(elem) {
            Some(t) => t,
            None => {
                return None;
            },
        };
        if total > isize::MAX as usize {
            return None;
        }
        proof {
            lemma_array_fits(capacity as int, elem as int, core::mem::align_of::<T>() as int);
        }
        let layout = match Layout::array::<T>(capacity) {
            Some(l) => l,
            None => {
                return None;
            },
        };
        proof {
            vstd::arithmetic::div_mod::lemma_mod_multiples_basic(capacity as int, elem as int);
        }
        Some(ArrayAllocation { addr: 0, element_size: elem, layout })
    }

    /// The layout of the whole block.
    pub fn layout(&self) -> (r: &Layout)
        ensures
            *r == self.spec_layout(),
    {
        &self.layout
    }

    /// The size of one element of the array; always positive, and a divisor
    /// of the size of the block.
    #[verifier::when_used_as_spec(spec_element_size)]
    pub fn element_size(&self) -> (r: usize)
        ensures
            r == self.spec_element_size(),
            r > 0,
            self.spec_layout().size() % r == 0,
    {
        proof {
            use_type_invariant(self);
        }
        self.element_size
    }

    /// Consumes the description, returning the address, the element size and
    /// the layout.
    pub fn into_inner(self) -> (r: (usize, usize, Layout))
        ensures
            r == (self.spec_addr(), self.spec_element_size(), self.spec_layout()),
    {
        (self.addr, self.element_size, self.layout)
    }

    /// An empty vector of `T`, newly allocated with room for as many
    /// elements as fit in the block (the allocator may give more).
    ///
    /// Fails when the alignment of `T` differs from the block's, or when the
    /// block's size is not a multiple of the size of `T`.
    pub fn into_vec<T>(self) -> (r: Result<Vec<T>, &'static str>)
        requires
            size_of::<T>() > 0 || align_of::<T>() != self.spec_layout().align(),
        ensures
            align_of::<T>() != self.spec_layout().align() ==> r == Err::<Vec<T>, &'static str>(
                "Element type alignment does not match allocation alignment",
            ),
            align_of::<T>() == self.spec_layout().align() && self.spec_layout().size() as int % size_of::<T>() as int != 0 ==> r == Err::<Vec<T>, &'static str>(
                "Allocation size is not a multiple of element size",
            ),
            r is Ok <==> holds_elements_of::<T>(self.spec_layout()),
            r matches Ok(v) ==> v@.len() == 0,
    {
        layout_for_type_is_valid::<T>();
        let (_, _, layout) = self.into_inner();
        if core::mem::align_of::<T>() != layout.align() {
            return Err("Element type alignment does not match allocation alignment");
        } else if layout.size() % core::mem::size_of::<T>() != 0 {
            return Err("Allocation size is not a multiple of element size");
        }
        let capacity = layout.size() / core::mem::size_of::<T>();
        Ok(Vec::with_capacity(capacity))
    }
}

/// `r` is the block of `capacity` elements of `T`: there is one exactly
/// when it is neither empty nor larger than `isize::MAX` bytes, and it has
/// the array's size and alignment, elements of the size of `T`, and no
/// observed address.
pub open spec fn is_capacity_block<T>(r: Option<ArrayAllocation>, capacity: usize) -> bool {
    &&& r is Some <==> (capacity > 0 && size_of::<T>() > 0 && capacity * size_of::<T>()
        <= isize::MAX)
    &&& r matches Some(a) ==> {
        &&& a.spec_layout().size() == capacity * size_of::<T>()
        &&& a.spec_layout().align() == align_of::<T>()
        &&& a.spec_element_size() == size_of::<T>()
        &&& a.spec_addr() == 0
    }
}

/// A block of layout `layout` can hold the elements of a vector of `T`: it
/// has the alignment of `T` and its size is a multiple of the size of `T`.
pub open spec fn holds_elements_of<T>(layout: Layout) -> bool {
    &&& align_of::<T>() == layout.align()
    &&& layout.size() as int % size_of::<T>() as int == 0
}

/// An array of `n` elements whose size is a multiple of the alignment, and
/// which fits in `isize::MAX` bytes, has a valid layout.
proof fn lemma_array_fits(n: int, size: int, align: int)
    requires
        n >= 0,
        size > 0,
        align > 0,
        size % align == 0,
        n * size <= isize::MAX,
    ensures
        n * size <= isize::MAX as int - (isize::MAX as int % align),
{
    let m = isize::MAX as int;
    let k = size / align;
    vstd::arithmetic::div_mod::lemma_fundamental_div_mod(size, align);
    assert(n * size == align * (n * k)) by (nonlinear_arith)
        requires
            size == align * k,
    ;
    vstd::arithmetic::div_mod::lemma_mod_multiples_basic(n * k, align);
    assert((n * k) * align == n * size) by (nonlinear_arith)
        requires
            n * size == align * (n * k),
    ;
    let x = n * size;
    assert(x % align == 0);
    vstd::arithmetic::div_mod::lemma_fundamental_div_mod(x, align);
    vstd::arithmetic::div_mod::lemma_fundamental_div_mod(m, align);
    vstd::arithmetic::div_mod::lemma_div_is_ordered(x, m, align);
    vstd::arithmetic::mul::lemma_mul_inequality(x / align, m / align, align);
    vstd::arithmetic::mul::lemma_mul_is_commutative(x / align, align);
    vstd::arithmetic::mul::lemma_mul_is_commutative(m / align, align);
}

/// Calls `Vec::capacity`.
///
/// The standard library documents that the capacity is at least the length
/// and that a vector never allocates more than `isize::MAX` bytes.
#[verifier::external_body]
fn vec_capacity<T>(v: &Vec<T>) -> (cap: usize)
    ensures
        cap >= v@.len(),
        size_of::<T>() > 0 ==> cap * size_of::<T>() <= isize::MAX,
{
    v.capacity()
}

} // verus!

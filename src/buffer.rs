use vstd::prelude::*;

verus! {

/// A host-visible window onto a buffer, in bytes.
#[derive(Clone, Copy, PartialEq, Eq, Structural, Debug)]
pub struct MappedRange {
    pub buffer: u32,
    pub byte_offset: isize,
    pub byte_length: isize,
    pub readable: bool,
    pub writable: bool,
}

/// A device allocation of `length` elements of `element_size` bytes each.
#[derive(Clone, Copy, PartialEq, Eq, Structural, Debug)]
pub struct Buffer {
    gl_handle: u32,
    element_size: usize,
    length: isize,
    allow_map_read: bool,
    allow_map_write: bool,
}

impl Buffer {
    pub closed spec fn handle_spec(&self) -> u32 {
        self.gl_handle
    }

    pub closed spec fn element_size_spec(&self) -> nat {
        self.element_size as nat
    }

    pub closed spec fn length_spec(&self) -> int {
        self.length as int
    }

    pub closed spec fn readable_spec(&self) -> bool {
        self.allow_map_read
    }

    pub closed spec fn writable_spec(&self) -> bool {
        self.allow_map_write
    }

    /// The length is not negative and the whole allocation has a byte size
    /// that the device's signed size type can hold.
    pub open spec fn wf(&self) -> bool {
        &&& self.length_spec() >= 0
        &&& 0 < self.element_size_spec() <= isize::MAX
        &&& self.length_spec() * self.element_size_spec() <= isize::MAX
    }

    /// Describes the buffer behind the device handle `gl_handle`.
    pub fn new(
        gl_handle: u32,
        element_size: usize,
        length: isize,
        allow_map_read: bool,
        allow_map_write: bool,
    ) -> (r: Buffer)
        requires
            length >= 0,
            element_size > 0,
            element_size <= isize::MAX,
            length * element_size <= isize::MAX,
        ensures
            r.wf(),
            r.handle_spec() == gl_handle,
            r.element_size_spec() == element_size,
            r.length_spec() == length,
            r.readable_spec() == allow_map_read,
            r.writable_spec() == allow_map_write,
    {
        Buffer { gl_handle, element_size, length, allow_map_read, allow_map_write }
    }

    /// Describes a buffer created from `initial_data`: one element per item.
    pub fn from_slice<T>(
        gl_handle: u32,
        element_size: usize,
        initial_data: &[T],
        allow_map_read: bool,
        allow_map_write: bool,
    ) -> (r: Buffer)
        requires
            0 < element_size <= isize::MAX,
            initial_data@.len() * element_size <= isize::MAX,
        ensures
            r.wf(),
            r.handle_spec() == gl_handle,
            r.element_size_spec() == element_size,
            r.length_spec() == initial_data@.len(),
            r.readable_spec() == allow_map_read,
            r.writable_spec() == allow_map_write,
    {
        let n = initial_data.len();
        proof {
            assert(n as int <= n as int * element_size as int) by (nonlinear_arith)
                requires element_size > 0;
        }
        Buffer::new(gl_handle, element_size, n as isize, allow_map_read, allow_map_write)
    }

    /// Describes a buffer created from the items of `initial_data`, in order.
    pub fn from_iterator<T>(
        gl_handle: u32,
        element_size: usize,
        initial_data: Vec<T>,
        allow_map_read: bool,
        allow_map_write: bool,
    ) -> (r: Buffer)
        requires
            0 < element_size <= isize::MAX,
            initial_data@.len() * element_size <= isize::MAX,
        ensures
            r.wf(),
            r.handle_spec() == gl_handle,
            r.element_size_spec() == element_size,
            r.length_spec() == initial_data@.len(),
            r.readable_spec() == allow_map_read,
            r.writable_spec() == allow_map_write,
    {
        Buffer::from_slice(gl_handle, element_size, initial_data.as_slice(), allow_map_read, allow_map_write)
    }

    pub fn handle(&self) -> (r: u32)
        ensures
            r == self.handle_spec(),
    {
        self.gl_handle
    }

    pub fn element_size(&self) -> (r: usize)
        ensures
            r == self.element_size_spec(),
    {
        self.element_size
    }

    pub fn length(&self) -> (r: isize)
        ensures
            r == self.length_spec(),
    {
        self.length
    }

    /// Byte size of the whole device allocation.
    pub fn storage_size(&self) -> (r: isize)
        requires
            self.wf(),
        ensures
            r == self.length_spec() * self.element_size_spec(),
    {
        let size = self.element_size as isize;
        proof {
            let l = self.length as int;
            assert(0 <= l * size) by (nonlinear_arith)
                requires l >= 0, size > 0;
        }
        self.length * size
    }

    /// Whether the buffer may be mapped at all: with host read or write access.
    pub fn mappable(&self) -> (r: bool)
        ensures
            r == (self.readable_spec() || self.writable_spec()),
    {
        self.allow_map_read || self.allow_map_write
    }

    /// The byte window the device is asked for to map the elements
    /// `start..end`. Mapping a buffer without host access, or an empty,
    /// inverted or out-of-range span, is a programmer error and is left out.
    pub fn map(&self, start: isize, end: isize) -> (r: MappedRange)
        requires
            self.wf(),
            self.readable_spec() || self.writable_spec(),
            0 <= start < end <= self.length_spec(),
        ensures
            r == (MappedRange {
                buffer: self.handle_spec(),
                byte_offset: (start * self.element_size_spec()) as isize,
                byte_length: ((end - start) * self.element_size_spec()) as isize,
                readable: self.readable_spec(),
                writable: self.writable_spec(),
            }),
    {
        let size = self.element_size as isize;
        proof {
            let l = self.length as int;
            let s = self.element_size as int;
            assert(0 <= start * s <= l * s) by (nonlinear_arith)
                requires 0 <= start <= l, s > 0;
            assert(0 <= (end - start) * s <= l * s) by (nonlinear_arith)
                requires 0 <= start < end <= l, s > 0;
            assert(start * s == start * (size as int));
            assert((end - start) * s == (end - start) * (size as int));
        }
        MappedRange {
            buffer: self.gl_handle,
            byte_offset: start * size,
            byte_length: (end - start) * size,
            readable: self.allow_map_read,
            writable: self.allow_map_write,
        }
    }
}

} // verus!

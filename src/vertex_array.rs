use vstd::prelude::*;

use crate::buffer::Buffer;
use crate::vertex::{
    spec_byte_size, spec_component_count, spec_locations_used, Vertex, VertexAttributeBinding,
};

verus! {

/// Byte distance between the columns of a matrix attribute.
pub const COLUMN_SIZE: u32 = 16;

/// Where and how the device reads one attribute location.
#[derive(Clone, Copy, PartialEq, Eq, Structural, Debug)]
pub struct AttributeFormat {
    /// The attribute location, counted over all buffers of the array.
    pub location: u32,
    /// Index of the buffer binding the location reads from.
    pub binding: u32,
    /// Number of float components at this location.
    pub components: u32,
    /// Byte offset of the location's data inside one element.
    pub offset: u32,
}

/// Number of attribute locations a buffer's attributes occupy.
pub open spec fn total_locations(attrs: Seq<VertexAttributeBinding>) -> nat
    decreases attrs.len(),
{
    if attrs.len() == 0 {
        0
    } else {
        total_locations(attrs.drop_last()) + spec_locations_used(attrs.last())
    }
}

/// Bytes that one element of a buffer with these attributes takes.
pub open spec fn total_bytes(attrs: Seq<VertexAttributeBinding>) -> nat
    decreases attrs.len(),
{
    if attrs.len() == 0 {
        0
    } else {
        total_bytes(attrs.drop_last()) + spec_byte_size(attrs.last())
    }
}

/// Locations occupied by all buffers of a layout.
pub open spec fn layout_locations(layouts: Seq<Seq<VertexAttributeBinding>>) -> nat
    decreases layouts.len(),
{
    if layouts.len() == 0 {
        0
    } else {
        layout_locations(layouts.drop_last()) + total_locations(layouts.last())
    }
}

/// The formats of one attribute: a matrix gives one location per column, its
/// columns lying one after the other.
pub open spec fn column_formats(
    b: VertexAttributeBinding,
    binding: nat,
    location: nat,
    offset: nat,
) -> Seq<AttributeFormat> {
    Seq::new(
        spec_locations_used(b),
        |k: int|
            AttributeFormat {
                location: (location + k) as u32,
                binding: binding as u32,
                components: spec_component_count(b) as u32,
                offset: (offset + 16 * k) as u32,
            },
    )
}

/// Formats of a buffer's attributes, walked in order: each attribute starts
/// at the next unused location and right after the bytes of the ones before.
pub open spec fn buffer_formats(
    attrs: Seq<VertexAttributeBinding>,
    binding: nat,
    first_location: nat,
) -> Seq<AttributeFormat>
    decreases attrs.len(),
{
    if attrs.len() == 0 {
        Seq::empty()
    } else {
        buffer_formats(attrs.drop_last(), binding, first_location) + column_formats(
            attrs.last(),
            binding,
            first_location + total_locations(attrs.drop_last()),
            total_bytes(attrs.drop_last()),
        )
    }
}

/// Formats of all buffers of a layout; buffer `i` is read through binding `i`.
pub open spec fn layout_formats(layouts: Seq<Seq<VertexAttributeBinding>>) -> Seq<AttributeFormat>
    decreases layouts.len(),
{
    if layouts.len() == 0 {
        Seq::empty()
    } else {
        layout_formats(layouts.drop_last()) + buffer_formats(
            layouts.last(),
            (layouts.len() - 1) as nat,
            layout_locations(layouts.drop_last()),
        )
    }
}

/// The layout can be described with the device's 32-bit location and offset numbers.
pub open spec fn layout_fits(layouts: Seq<Seq<VertexAttributeBinding>>) -> bool {
    &&& layouts.len() <= u32::MAX
    &&& layout_locations(layouts) <= u32::MAX
    &&& forall|i: int| 0 <= i < layouts.len() ==> total_bytes(#[trigger] layouts[i]) <= u32::MAX
}

proof fn lemma_locations_monotone(layouts: Seq<Seq<VertexAttributeBinding>>, i: int)
    requires
        0 <= i <= layouts.len(),
    ensures
        layout_locations(layouts.take(i)) <= layout_locations(layouts),
    decreases layouts.len(),
{
    if i < layouts.len() {
        assert(layouts.drop_last().take(i) == layouts.take(i));
        lemma_locations_monotone(layouts.drop_last(), i);
    } else {
        assert(layouts.take(i) == layouts);
    }
}

proof fn lemma_total_monotone(attrs: Seq<VertexAttributeBinding>, i: int)
    requires
        0 <= i <= attrs.len(),
    ensures
        total_locations(attrs.take(i)) <= total_locations(attrs),
        total_bytes(attrs.take(i)) <= total_bytes(attrs),
    decreases attrs.len(),
{
    if i < attrs.len() {
        assert(attrs.drop_last().take(i) == attrs.take(i));
        lemma_total_monotone(attrs.drop_last(), i);
    } else {
        assert(attrs.take(i) == attrs);
    }
}

/// Appends the formats of one attribute to `out`.
fn push_column_formats(
    out: &mut Vec<AttributeFormat>,
    b: VertexAttributeBinding,
    binding: u32,
    location: u32,
    offset: u32,
)
    requires
        location + spec_locations_used(b) <= u32::MAX,
        offset + spec_byte_size(b) <= u32::MAX,
    ensures
        final(out)@ == old(out)@ + column_formats(b, binding as nat, location as nat, offset as nat),
{
    let n = b.locations_used();
    let components = b.component_count();
    let ghost start = out@;
    let mut k: u32 = 0;
    while k < n
        invariant
            n == spec_locations_used(b),
            components == spec_component_count(b),
            k <= n,
            location + n <= u32::MAX,
            offset + spec_byte_size(b) <= u32::MAX,
            out@ == start + column_formats(b, binding as nat, location as nat, offset as nat).take(k as int),
        decreases n - k,
    {
        proof {
            assert(16 * k <= spec_byte_size(b)) by {
                match b {
                    VertexAttributeBinding::Mat4f => {},
                    _ => {},
                }
            }
        }
        out.push(AttributeFormat {
            location: location + k,
            binding,
            components,
            offset: offset + COLUMN_SIZE * k,
        });
        k = k + 1;
        proof {
            let full = column_formats(b, binding as nat, location as nat, offset as nat);
            assert(full.take(k as int) == full.take(k - 1) .push(full[k - 1]));
        }
    }
    proof {
        let full = column_formats(b, binding as nat, location as nat, offset as nat);
        assert(full.take(n as int) == full);
    }
}

/// Whether the layout's location count and every buffer's element size fit in 32 bits.
pub fn layout_fits_u32(layouts: &Vec<Vec<VertexAttributeBinding>>) -> (r: bool)
    ensures
        r == layout_fits(layouts@.map_values(|l: Vec<VertexAttributeBinding>| l@)),
{
    let ghost ls = layouts@.map_values(|l: Vec<VertexAttributeBinding>| l@);
    assert(ls.len() == layouts@.len());
    if layouts.len() > 0xffff_ffff {
        return false;
    }
    let mut locations: u64 = 0;
    let mut bi: usize = 0;
    while bi < layouts.len()
        invariant
            ls == layouts@.map_values(|l: Vec<VertexAttributeBinding>| l@),
            ls.len() == layouts@.len() <= u32::MAX,
            bi <= layouts@.len(),
            locations == layout_locations(ls.take(bi as int)),
            locations <= u32::MAX,
            forall|i: int| 0 <= i < bi ==> total_bytes(#[trigger] ls[i]) <= u32::MAX,
        decreases layouts@.len() - bi,
    {
        let attrs = &layouts[bi];
        let ghost a = attrs@;
        proof {
            assert(ls[bi as int] == a);
            assert(ls.take(bi + 1).drop_last() == ls.take(bi as int));
            assert(ls.take(bi + 1).last() == a);
        }
        let mut bytes: u64 = 0;
        let mut in_buffer: u64 = 0;
        let mut ai: usize = 0;
        while ai < attrs.len()
            invariant
                a == attrs@,
                ls == layouts@.map_values(|l: Vec<VertexAttributeBinding>| l@),
                ls.len() == layouts@.len() <= u32::MAX,
                bi < layouts@.len(),
                ls[bi as int] == a,
                locations == layout_locations(ls.take(bi as int)),
                locations <= u32::MAX,
                forall|i: int| 0 <= i < bi ==> total_bytes(#[trigger] ls[i]) <= u32::MAX,
                ai <= attrs@.len(),
                bytes == total_bytes(a.take(ai as int)),
                bytes <= u32::MAX,
                in_buffer == total_locations(a.take(ai as int)),
                locations + in_buffer <= u32::MAX,
            decreases attrs@.len() - ai,
        {
            let b = attrs[ai];
            proof {
                assert(a.take(ai + 1).drop_last() == a.take(ai as int));
                assert(a.take(ai + 1).last() == b);
            }
            bytes = bytes + b.byte_size() as u64;
            in_buffer = in_buffer + b.locations_used() as u64;
            ai = ai + 1;
            if bytes > 0xffff_ffff {
                proof {
                    lemma_total_monotone(a, ai as int);
                    assert(total_bytes(ls[bi as int]) > u32::MAX);
                }
                return false;
            }
            if locations + in_buffer > 0xffff_ffff {
                proof {
                    lemma_total_monotone(a, ai as int);
                    lemma_locations_monotone(ls, bi + 1);
                    assert(ls.take(bi + 1).drop_last() == ls.take(bi as int));
                    assert(ls.take(bi + 1).last() == a);
                    assert(layout_locations(ls.take(bi + 1)) == locations + total_locations(a));
                    assert(layout_locations(ls) > u32::MAX);
                }
                return false;
            }
        }
        proof {
            assert(a.take(ai as int) == a);
        }
        locations = locations + in_buffer;
        bi = bi + 1;
    }
    proof {
        assert(ls.take(bi as int) == ls);
    }
    true
}

/// Computes where each attribute location of a layout reads its data: the
/// attribute bindings of each buffer are walked in order, each taking the next
/// unused locations (a matrix takes four) and the bytes right after the
/// previous attribute of its buffer. `None` where the locations or a buffer's
/// element size do not fit the device's 32-bit numbers.
pub fn attribute_formats(layouts: &Vec<Vec<VertexAttributeBinding>>) -> (r: Option<Vec<AttributeFormat>>)
    ensures
        r is Some <==> layout_fits(layouts@.map_values(|l: Vec<VertexAttributeBinding>| l@)),
        r matches Some(f) ==> f@ == layout_formats(layouts@.map_values(|l: Vec<VertexAttributeBinding>| l@)),
{
    if !layout_fits_u32(layouts) {
        return None;
    }
    let ghost ls = layouts@.map_values(|l: Vec<VertexAttributeBinding>| l@);
    let mut out: Vec<AttributeFormat> = Vec::new();
    let mut location: u32 = 0;
    let mut bi: usize = 0;
    while bi < layouts.len()
        invariant
            ls == layouts@.map_values(|l: Vec<VertexAttributeBinding>| l@),
            layout_fits(ls),
            bi <= layouts.len(),
            location == layout_locations(ls.take(bi as int)),
            out@ == layout_formats(ls.take(bi as int)),
        decreases layouts.len() - bi,
    {
        let attrs = &layouts[bi];
        let ghost a = attrs@;
        assert(ls.len() == layouts@.len());
        let ghost out_start = out@;
        proof {
            assert(ls[bi as int] == a);
            lemma_locations_monotone(ls, bi + 1);
            assert(ls.take(bi + 1).drop_last() == ls.take(bi as int));
            assert(ls.take(bi + 1).last() == a);
        }
        let mut offset: u32 = 0;
        let mut loc_in_buffer: u32 = 0;
        let mut ai: usize = 0;
        while ai < attrs.len()
            invariant
                a == attrs@,
                ls.len() == layouts@.len(),
                ls[bi as int] == a,
                layout_fits(ls),
                bi < layouts.len() <= u32::MAX,
                location == layout_locations(ls.take(bi as int)),
                location + total_locations(a) <= u32::MAX,
                ai <= attrs.len(),
                loc_in_buffer == total_locations(a.take(ai as int)),
                offset == total_bytes(a.take(ai as int)),
                out@ == out_start + buffer_formats(a.take(ai as int), bi as nat, location as nat),
            decreases attrs.len() - ai,
        {
            let b = attrs[ai];
            proof {
                assert(a.take(ai + 1).drop_last() == a.take(ai as int));
                assert(a.take(ai + 1).last() == b);
                lemma_total_monotone(a, ai + 1);
                assert(total_bytes(ls[bi as int]) <= u32::MAX);
            }
            push_column_formats(&mut out, b, bi as u32, location + loc_in_buffer, offset);
            offset = offset + b.byte_size();
            loc_in_buffer = loc_in_buffer + b.locations_used();
            ai = ai + 1;
        }
        proof {
            assert(a.take(ai as int) == a);
        }
        location = location + loc_in_buffer;
        bi = bi + 1;
    }
    proof {
        assert(ls.take(bi as int) == ls);
    }
    Some(out)
}

/// One buffer of a vertex array: divisor 0 means one element per vertex,
/// divisor `n > 0` one element per `n` instances.
#[derive(Clone, Debug)]
pub struct VertexBufferBinding {
    buffer: Buffer,
    divisor: u32,
    vertex_attribute_bindings: Vec<VertexAttributeBinding>,
}

impl VertexBufferBinding {
    pub closed spec fn buffer_spec(&self) -> Buffer {
        self.buffer
    }

    pub closed spec fn divisor_spec(&self) -> u32 {
        self.divisor
    }

    pub closed spec fn attributes_spec(&self) -> Seq<VertexAttributeBinding> {
        self.vertex_attribute_bindings@
    }

    /// Instances the binding can feed: each element serves `divisor` instances.
    pub open spec fn instance_capacity(&self) -> int {
        self.buffer_spec().length_spec() * self.divisor_spec()
    }

    pub open spec fn wf(&self) -> bool {
        &&& self.buffer_spec().wf()
        &&& self.instance_capacity() <= isize::MAX
    }

    /// Binds `buffer`, whose elements have the layout of `T`, with `divisor`.
    pub fn new<T: Vertex>(buffer: Buffer, divisor: u32) -> (r: VertexBufferBinding)
        requires
            buffer.wf(),
            buffer.length_spec() * divisor <= isize::MAX,
        ensures
            r.wf(),
            r.buffer_spec() == buffer,
            r.divisor_spec() == divisor,
    {
        let vertex_attribute_bindings = T::vertex_attribute_bindings();
        VertexBufferBinding { buffer, divisor, vertex_attribute_bindings }
    }

    /// Binds `buffer` with `divisor` and the given attribute layout.
    pub fn with_attributes(
        buffer: Buffer,
        divisor: u32,
        vertex_attribute_bindings: Vec<VertexAttributeBinding>,
    ) -> (r: VertexBufferBinding)
        requires
            buffer.wf(),
            buffer.length_spec() * divisor <= isize::MAX,
        ensures
            r.wf(),
            r.buffer_spec() == buffer,
            r.divisor_spec() == divisor,
            r.attributes_spec() == vertex_attribute_bindings@,
    {
        VertexBufferBinding { buffer, divisor, vertex_attribute_bindings }
    }

    pub fn buffer(&self) -> (r: &Buffer)
        ensures
            *r == self.buffer_spec(),
    {
        &self.buffer
    }

    pub fn divisor(&self) -> (r: u32)
        ensures
            r == self.divisor_spec(),
    {
        self.divisor
    }

    pub fn vertex_attribute_bindings(&self) -> (r: &[VertexAttributeBinding])
        ensures
            r@ == self.attributes_spec(),
    {
        self.vertex_attribute_bindings.as_slice()
    }
}

/// The least instance capacity over the bindings with a nonzero divisor, or
/// `None` where every binding is per-vertex.
pub open spec fn min_instance_capacity(bs: Seq<VertexBufferBinding>) -> Option<int>
    decreases bs.len(),
{
    if bs.len() == 0 {
        None
    } else {
        let rest = min_instance_capacity(bs.drop_last());
        let b = bs.last();
        if b.divisor_spec() == 0 {
            rest
        } else {
            match rest {
                None => Some(b.instance_capacity()),
                Some(m) => Some(if b.instance_capacity() < m { b.instance_capacity() } else { m }),
            }
        }
    }
}

/// The instance limit of a set of bindings is `None` exactly when no binding
/// is per-instance; otherwise it is the capacity `length * divisor` of one
/// per-instance binding, and no per-instance binding has less.
pub proof fn lemma_instance_limit_is_least_capacity(bs: Seq<VertexBufferBinding>)
    ensures
        min_instance_capacity(bs) is None <==> forall|i: int| 0 <= i < bs.len() ==> (#[trigger] bs[i]).divisor_spec() == 0,
        min_instance_capacity(bs) matches Some(m) ==> {
            &&& exists|i: int| 0 <= i < bs.len() && (#[trigger] bs[i]).divisor_spec() > 0 && bs[i].instance_capacity() == m
            &&& forall|i: int| 0 <= i < bs.len() && (#[trigger] bs[i]).divisor_spec() > 0 ==> m <= bs[i].instance_capacity()
        },
    decreases bs.len(),
{
    if bs.len() > 0 {
        let init = bs.drop_last();
        let last = bs.last();
        lemma_instance_limit_is_least_capacity(init);
        assert forall|i: int| 0 <= i < init.len() implies #[trigger] init[i] == bs[i] by {}
        assert(bs[bs.len() - 1] == last);
        match min_instance_capacity(init) {
            None => {
                if last.divisor_spec() == 0 {
                    assert forall|i: int| 0 <= i < bs.len() implies (#[trigger] bs[i]).divisor_spec() == 0 by {
                        if i < init.len() {
                            assert(init[i].divisor_spec() == 0);
                        }
                    }
                } else {
                    assert forall|i: int| 0 <= i < bs.len() && (#[trigger] bs[i]).divisor_spec() > 0 implies
                        last.instance_capacity() <= bs[i].instance_capacity() by {
                        if i < init.len() {
                            assert(init[i].divisor_spec() == 0);
                        }
                    }
                }
            },
            Some(m) => {
                let i0 = choose|i: int| 0 <= i < init.len() && (#[trigger] init[i]).divisor_spec() > 0 && init[i].instance_capacity() == m;
                assert(bs[i0] == init[i0]);
                assert(!(forall|i: int| 0 <= i < bs.len() ==> (#[trigger] bs[i]).divisor_spec() == 0));
                let r = min_instance_capacity(bs)->0;
                assert forall|i: int| 0 <= i < bs.len() && (#[trigger] bs[i]).divisor_spec() > 0 implies
                    r <= bs[i].instance_capacity() by {
                    if i < init.len() {
                        assert(init[i].divisor_spec() > 0);
                    }
                }
            },
        }
    }
}

/// A set of vertex buffer bindings and the index buffer drawn with them.
#[derive(Debug)]
pub struct VertexArray {
    gl_handle: u32,
    vertex_buffer_bindings: Vec<VertexBufferBinding>,
    index_buffer: Buffer,
}

impl VertexArray {
    pub closed spec fn handle_spec(&self) -> u32 {
        self.gl_handle
    }

    pub closed spec fn bindings_spec(&self) -> Seq<VertexBufferBinding> {
        self.vertex_buffer_bindings@
    }

    pub closed spec fn index_buffer_spec(&self) -> Buffer {
        self.index_buffer
    }

    /// The attribute layout of each bound buffer, in binding order.
    pub open spec fn layouts_spec(&self) -> Seq<Seq<VertexAttributeBinding>> {
        self.bindings_spec().map_values(|b: VertexBufferBinding| b.attributes_spec())
    }

    pub open spec fn wf(&self) -> bool {
        &&& forall|i: int| 0 <= i < self.bindings_spec().len() ==> (#[trigger] self.bindings_spec()[i]).wf()
        &&& self.index_buffer_spec().wf()
    }

    /// Gathers the bindings of the device vertex array `gl_handle`.
    pub fn new(
        gl_handle: u32,
        vertex_buffer_bindings: Vec<VertexBufferBinding>,
        index_buffer: Buffer,
    ) -> (r: VertexArray)
        requires
            forall|i: int| 0 <= i < vertex_buffer_bindings@.len() ==> (#[trigger] vertex_buffer_bindings@[i]).wf(),
            index_buffer.wf(),
        ensures
            r.wf(),
            r.handle_spec() == gl_handle,
            r.bindings_spec() == vertex_buffer_bindings@,
            r.index_buffer_spec() == index_buffer,
    {
        VertexArray { gl_handle, vertex_buffer_bindings, index_buffer }
    }

    pub fn handle(&self) -> (r: u32)
        ensures
            r == self.handle_spec(),
    {
        self.gl_handle
    }

    /// Number of indices drawn: the index buffer's length.
    pub fn index_count(&self) -> (r: isize)
        ensures
            r == self.index_buffer_spec().length_spec(),
    {
        self.index_buffer.length()
    }

    pub fn index_buffer(&self) -> (r: &Buffer)
        ensures
            *r == self.index_buffer_spec(),
    {
        &self.index_buffer
    }

    /// The most instances the array can be drawn with: `None` without an
    /// instance-rate buffer, else the least `length * divisor` among them.
    pub fn max_instance_count(&self) -> (r: Option<isize>)
        requires
            self.wf(),
        ensures
            r matches None ==> min_instance_capacity(self.bindings_spec()) matches None,
            r matches Some(m) ==> min_instance_capacity(self.bindings_spec()) == Some(m as int),
    {
        let mut best: Option<isize> = None;
        let mut i: usize = 0;
        while i < self.vertex_buffer_bindings.len()
            invariant
                self.wf(),
                i <= self.bindings_spec().len(),
                best matches None ==> min_instance_capacity(self.bindings_spec().take(i as int)) matches None,
                best matches Some(m) ==> min_instance_capacity(self.bindings_spec().take(i as int)) == Some(m as int),
            decreases self.bindings_spec().len() - i,
        {
            let binding = &self.vertex_buffer_bindings[i];
            proof {
                let bs = self.bindings_spec();
                assert(bs.take(i + 1).drop_last() == bs.take(i as int));
                assert(bs.take(i + 1).last() == bs[i as int]);
                assert(bs[i as int].wf());
            }
            let divisor = binding.divisor();
            if divisor > 0 {
                let length = binding.buffer().length();
                assert(length * divisor <= isize::MAX);
                proof {
                    assert(0 <= length * divisor) by (nonlinear_arith)
                        requires length >= 0, divisor > 0;
                    assert(length > 0 ==> divisor <= length * divisor) by (nonlinear_arith)
                        requires length >= 0, divisor > 0;
                }
                let capacity = if length == 0 { 0 } else { length * (divisor as isize) };
                best = match best {
                    None => Some(capacity),
                    Some(m) => Some(if capacity < m { capacity } else { m }),
                };
            }
            i = i + 1;
        }
        proof {
            assert(self.bindings_spec().take(i as int) == self.bindings_spec());
        }
        best
    }

    pub fn vertex_buffer_bindings(&self) -> (r: &[VertexBufferBinding])
        ensures
            r@ == self.bindings_spec(),
    {
        self.vertex_buffer_bindings.as_slice()
    }

    pub fn vertex_buffer_bindings_mut(&mut self) -> (r: &mut Vec<VertexBufferBinding>)
        ensures
            r@ == old(self).bindings_spec(),
            final(self).bindings_spec() == final(r)@,
            final(self).handle_spec() == old(self).handle_spec(),
            final(self).index_buffer_spec() == old(self).index_buffer_spec(),
    {
        &mut self.vertex_buffer_bindings
    }

    /// The attribute layouts of the bound buffers, in binding order.
    pub fn layouts(&self) -> (r: Vec<Vec<VertexAttributeBinding>>)
        ensures
            r@.map_values(|l: Vec<VertexAttributeBinding>| l@) == self.layouts_spec(),
    {
        let mut out: Vec<Vec<VertexAttributeBinding>> = Vec::new();
        let mut i: usize = 0;
        while i < self.vertex_buffer_bindings.len()
            invariant
                i <= self.bindings_spec().len(),
                out@.len() == i,
                forall|j: int| 0 <= j < i ==> (#[trigger] out@[j])@ == self.bindings_spec()[j].attributes_spec(),
            decreases self.bindings_spec().len() - i,
        {
            let attrs = self.vertex_buffer_bindings[i].vertex_attribute_bindings();
            let mut copy: Vec<VertexAttributeBinding> = Vec::new();
            let mut k: usize = 0;
            while k < attrs.len()
                invariant
                    k <= attrs@.len(),
                    copy@ == attrs@.take(k as int),
                decreases attrs@.len() - k,
            {
                copy.push(attrs[k]);
                k = k + 1;
                proof {
                    assert(attrs@.take(k as int) == attrs@.take(k - 1).push(attrs@[k - 1]));
                }
            }
            proof {
                assert(attrs@.take(k as int) == attrs@);
            }
            out.push(copy);
            i = i + 1;
        }
        proof {
            assert(out@.map_values(|l: Vec<VertexAttributeBinding>| l@) == self.layouts_spec());
        }
        out
    }

    /// Where each attribute location of the array reads its data; `None`
    /// where the layout does not fit 32-bit locations and offsets.
    pub fn attribute_formats(&self) -> (r: Option<Vec<AttributeFormat>>)
        ensures
            r is Some <==> layout_fits(self.layouts_spec()),
            r matches Some(f) ==> f@ == layout_formats(self.layouts_spec()),
    {
        let layouts = self.layouts();
        attribute_formats(&layouts)
    }
}

} // verus!

use vstd::prelude::*;

use crate::vertex::VertexAttributeBinding;
use crate::vertex_array::VertexArray;

verus! {

/// The first way a vertex array differs from the layout a material declares.
#[derive(Clone, Copy, PartialEq, Eq, Structural, Debug)]
pub enum VerificationFailure {
    /// The array binds another number of buffers than the material's count, given here.
    BufferCount(usize),
    /// Buffer `.0` has another number of attributes than the declared `.1`.
    BufferAttributeCount(usize, usize),
    /// Attribute `.1` of buffer `.0` differs from the declared type `.2`.
    Attribute(usize, usize, VertexAttributeBinding),
}

/// The first attribute index at or after `k` at which `x` and `y` differ, or -1.
pub open spec fn attribute_mismatch(
    x: Seq<VertexAttributeBinding>,
    y: Seq<VertexAttributeBinding>,
    k: int,
) -> int
    decreases x.len() - k,
{
    if k < 0 || k >= x.len() || k >= y.len() {
        -1
    } else if x[k] != y[k] {
        k
    } else {
        attribute_mismatch(x, y, k + 1)
    }
}

/// The first difference in buffers `i..` between the declared and the actual layout.
pub open spec fn buffer_mismatch(
    declared: Seq<Seq<VertexAttributeBinding>>,
    actual: Seq<Seq<VertexAttributeBinding>>,
    i: int,
) -> Option<VerificationFailure>
    decreases declared.len() - i,
{
    if i < 0 || i >= declared.len() || i >= actual.len() {
        None
    } else if declared[i].len() != actual[i].len() {
        Some(VerificationFailure::BufferAttributeCount(i as usize, declared[i].len() as usize))
    } else if attribute_mismatch(declared[i], actual[i], 0) >= 0 {
        let k = attribute_mismatch(declared[i], actual[i], 0);
        Some(VerificationFailure::Attribute(i as usize, k as usize, declared[i][k]))
    } else {
        buffer_mismatch(declared, actual, i + 1)
    }
}

/// The first difference between a declared and an actual layout: first the
/// buffer count, then buffer by buffer the attribute count and each attribute.
pub open spec fn layout_mismatch(
    declared: Seq<Seq<VertexAttributeBinding>>,
    actual: Seq<Seq<VertexAttributeBinding>>,
) -> Option<VerificationFailure> {
    if declared.len() != actual.len() {
        Some(VerificationFailure::BufferCount(declared.len() as usize))
    } else {
        buffer_mismatch(declared, actual, 0)
    }
}

pub open spec fn declared_view(declared: Seq<Vec<VertexAttributeBinding>>) -> Seq<Seq<VertexAttributeBinding>> {
    declared.map_values(|l: Vec<VertexAttributeBinding>| l@)
}

/// Checks a vertex array against the attribute layout a material declares,
/// buffer for buffer and attribute for attribute; gives the first mismatch.
pub fn verify_vertex_array(
    declared: &Vec<Vec<VertexAttributeBinding>>,
    vertex_array: &VertexArray,
) -> (r: Option<VerificationFailure>)
    ensures
        r == layout_mismatch(declared_view(declared@), vertex_array.layouts_spec()),
{
    let ghost d = declared_view(declared@);
    let ghost a = vertex_array.layouts_spec();
    let bindings = vertex_array.vertex_buffer_bindings();
    assert(d.len() == declared@.len() && a.len() == bindings@.len());
    if declared.len() != bindings.len() {
        return Some(VerificationFailure::BufferCount(declared.len()));
    }
    let mut i: usize = 0;
    while i < declared.len()
        invariant
            d == declared_view(declared@),
            a == vertex_array.layouts_spec(),
            bindings@ == vertex_array.bindings_spec(),
            d.len() == a.len() == declared@.len() == bindings@.len(),
            i <= declared@.len(),
            buffer_mismatch(d, a, 0) == buffer_mismatch(d, a, i as int),
        decreases declared@.len() - i,
    {
        let x = &declared[i];
        let y = bindings[i].vertex_attribute_bindings();
        proof {
            assert(d[i as int] == x@);
            assert(a[i as int] == y@);
        }
        if x.len() != y.len() {
            return Some(VerificationFailure::BufferAttributeCount(i, x.len()));
        }
        let mut k: usize = 0;
        while k < x.len()
            invariant
                d == declared_view(declared@),
                a == vertex_array.layouts_spec(),
                d.len() == a.len() == declared@.len() == bindings@.len(),
                i < declared@.len(),
                buffer_mismatch(d, a, 0) == buffer_mismatch(d, a, i as int),
                d[i as int] == x@,
                a[i as int] == y@,
                x@.len() == y@.len(),
                k <= x@.len(),
                attribute_mismatch(x@, y@, 0) == attribute_mismatch(x@, y@, k as int),
            decreases x@.len() - k,
        {
            if x[k] != y[k] {
                return Some(VerificationFailure::Attribute(i, k, x[k]));
            }
            k = k + 1;
        }
        i = i + 1;
    }
    None
}

} // verus!

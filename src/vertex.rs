use vstd::prelude::*;

verus! {

/// Size in bytes of one `f32` component.
pub const FLOAT_SIZE: u32 = 4;

/// The shape of one vertex attribute as it lies in a vertex buffer.
#[derive(Clone, Copy, PartialEq, Eq, Structural, Hash, Debug)]
pub enum VertexAttributeBinding {
    Float,
    Float2,
    Float3,
    Float4,
    Mat4f,
}

/// Number of consecutive attribute locations an attribute occupies.
pub open spec fn spec_locations_used(b: VertexAttributeBinding) -> nat {
    match b {
        VertexAttributeBinding::Mat4f => 4,
        _ => 1,
    }
}

/// Number of float components read at each location of an attribute.
pub open spec fn spec_component_count(b: VertexAttributeBinding) -> nat {
    match b {
        VertexAttributeBinding::Float => 1,
        VertexAttributeBinding::Float2 => 2,
        VertexAttributeBinding::Float3 => 3,
        _ => 4,
    }
}

/// Byte size of an attribute inside its vertex record.
pub open spec fn spec_byte_size(b: VertexAttributeBinding) -> nat {
    spec_locations_used(b) * spec_component_count(b) * 4
}

impl VertexAttributeBinding {
    pub fn locations_used(self) -> (r: u32)
        ensures
            r == spec_locations_used(self),
    {
        match self {
            VertexAttributeBinding::Float => 1,
            VertexAttributeBinding::Float2 => 1,
            VertexAttributeBinding::Float3 => 1,
            VertexAttributeBinding::Float4 => 1,
            VertexAttributeBinding::Mat4f => 4,
        }
    }

    pub fn component_count(self) -> (r: u32)
        ensures
            r == spec_component_count(self),
    {
        match self {
            VertexAttributeBinding::Float => 1,
            VertexAttributeBinding::Float2 => 2,
            VertexAttributeBinding::Float3 => 3,
            VertexAttributeBinding::Float4 => 4,
            VertexAttributeBinding::Mat4f => 4,
        }
    }

    pub fn byte_size(self) -> (r: u32)
        ensures
            r == spec_byte_size(self),
    {
        self.locations_used() * self.component_count() * FLOAT_SIZE
    }
}

/// A vertex record type that declares its memory layout.
pub trait Vertex {
    fn vertex_attribute_bindings() -> Vec<VertexAttributeBinding>;
}

} // verus!

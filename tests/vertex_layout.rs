use fennec_gfx::buffer::{Buffer, MappedRange};
use fennec_gfx::material::{verify_vertex_array, VerificationFailure};
use fennec_gfx::vertex::{Vertex, VertexAttributeBinding};
use fennec_gfx::vertex_array::{attribute_formats, layout_fits_u32, AttributeFormat, VertexArray, VertexBufferBinding};

struct QuadVertex;

impl Vertex for QuadVertex {
    fn vertex_attribute_bindings() -> Vec<VertexAttributeBinding> {
        vec![VertexAttributeBinding::Float2, VertexAttributeBinding::Float2]
    }
}

fn fmt(location: u32, binding: u32, components: u32, offset: u32) -> AttributeFormat {
    AttributeFormat { location, binding, components, offset }
}

fn binding(length: isize, divisor: u32, attrs: Vec<VertexAttributeBinding>) -> VertexBufferBinding {
    VertexBufferBinding::with_attributes(Buffer::new(1, 16, length, false, true), divisor, attrs)
}

#[test]
fn attribute_sizes_and_locations() {
    assert_eq!(VertexAttributeBinding::Float.locations_used(), 1);
    assert_eq!(VertexAttributeBinding::Float4.locations_used(), 1);
    assert_eq!(VertexAttributeBinding::Mat4f.locations_used(), 4);
    assert_eq!(VertexAttributeBinding::Float.byte_size(), 4);
    assert_eq!(VertexAttributeBinding::Float2.byte_size(), 8);
    assert_eq!(VertexAttributeBinding::Float3.byte_size(), 12);
    assert_eq!(VertexAttributeBinding::Float4.byte_size(), 16);
    assert_eq!(VertexAttributeBinding::Mat4f.byte_size(), 64);
    assert_eq!(VertexAttributeBinding::Float3.component_count(), 3);
}

#[test]
fn attribute_offsets_walk_each_buffer_in_order() {
    let layouts = vec![
        vec![VertexAttributeBinding::Float2, VertexAttributeBinding::Mat4f, VertexAttributeBinding::Float],
        vec![VertexAttributeBinding::Float4],
    ];
    assert!(layout_fits_u32(&layouts));
    let formats = attribute_formats(&layouts).unwrap();
    assert_eq!(
        formats,
        vec![
            fmt(0, 0, 2, 0),
            fmt(1, 0, 4, 8),
            fmt(2, 0, 4, 24),
            fmt(3, 0, 4, 40),
            fmt(4, 0, 4, 56),
            fmt(5, 0, 1, 72),
            fmt(6, 1, 4, 0),
        ]
    );
}

#[test]
fn attribute_formats_of_vertex_array() {
    let bindings = vec![
        binding(10, 1, vec![VertexAttributeBinding::Mat4f, VertexAttributeBinding::Float4]),
        binding(4, 0, vec![VertexAttributeBinding::Float2, VertexAttributeBinding::Float2]),
    ];
    let va = VertexArray::new(3, bindings, Buffer::new(2, 4, 6, false, false));
    let formats = va.attribute_formats().unwrap();
    assert_eq!(formats.len(), 7);
    assert_eq!(formats[4], fmt(4, 0, 4, 64));
    assert_eq!(formats[5], fmt(5, 1, 2, 0));
    assert_eq!(formats[6], fmt(6, 1, 2, 8));
}

#[test]
fn empty_layout_has_no_formats() {
    let layouts: Vec<Vec<VertexAttributeBinding>> = vec![vec![]];
    assert!(attribute_formats(&layouts).unwrap().is_empty());
}

#[test]
fn binding_takes_layout_of_vertex_type() {
    let b = VertexBufferBinding::new::<QuadVertex>(Buffer::new(5, 16, 4, false, false), 0);
    assert_eq!(b.vertex_attribute_bindings(), &[VertexAttributeBinding::Float2, VertexAttributeBinding::Float2]);
    assert_eq!(b.divisor(), 0);
    assert_eq!(b.buffer().handle(), 5);
    assert_eq!(b.buffer().length(), 4);
}

#[test]
fn buffer_describes_allocation() {
    let b = Buffer::new(7, 64, 10, false, true);
    assert_eq!(b.handle(), 7);
    assert_eq!(b.length(), 10);
    assert_eq!(b.element_size(), 64);
    assert_eq!(b.storage_size(), 640);
    let s = Buffer::from_slice(8, 4, &[1u32, 2, 3], true, false);
    assert_eq!(s.length(), 3);
    assert_eq!(s.storage_size(), 12);
    let i = Buffer::from_iterator(9, 8, vec![1u64, 2, 3, 4, 5], false, false);
    assert_eq!(i.length(), 5);
    assert_eq!(i.handle(), 9);
}

#[test]
fn buffer_map_gives_byte_window() {
    let b = Buffer::new(7, 64, 10, false, true);
    assert_eq!(
        b.map(2, 5),
        MappedRange { buffer: 7, byte_offset: 128, byte_length: 192, readable: false, writable: true }
    );
    assert_eq!(
        b.map(0, 10),
        MappedRange { buffer: 7, byte_offset: 0, byte_length: 640, readable: false, writable: true }
    );
    assert_eq!(b.map(9, 10).byte_offset, 576);
}

#[test]
fn buffer_without_host_access_is_not_mappable() {
    assert!(!Buffer::new(7, 64, 10, false, false).mappable());
    assert!(Buffer::new(7, 64, 10, true, false).mappable());
    assert!(Buffer::new(7, 64, 10, false, true).mappable());
}

#[test]
fn max_instance_count_without_instance_buffers_is_none() {
    let va = VertexArray::new(1, vec![binding(4, 0, vec![VertexAttributeBinding::Float2])], Buffer::new(2, 4, 6, false, false));
    assert_eq!(va.max_instance_count(), None);
    let empty = VertexArray::new(1, vec![], Buffer::new(2, 4, 6, false, false));
    assert_eq!(empty.max_instance_count(), None);
}

#[test]
fn max_instance_count_is_least_capacity() {
    let one = VertexArray::new(
        1,
        vec![binding(50, 1, vec![VertexAttributeBinding::Mat4f]), binding(4, 0, vec![VertexAttributeBinding::Float2])],
        Buffer::new(2, 4, 6, false, false),
    );
    assert_eq!(one.max_instance_count(), Some(50));
    let two = VertexArray::new(
        1,
        vec![
            binding(50, 1, vec![VertexAttributeBinding::Mat4f]),
            binding(4, 0, vec![VertexAttributeBinding::Float2]),
            binding(10, 2, vec![VertexAttributeBinding::Float4]),
        ],
        Buffer::new(2, 4, 6, false, false),
    );
    assert_eq!(two.max_instance_count(), Some(20));
}

#[test]
fn index_count_is_index_buffer_length() {
    let va = VertexArray::new(1, vec![], Buffer::new(2, 4, 6, false, false));
    assert_eq!(va.index_count(), 6);
    assert_eq!(va.handle(), 1);
    assert_eq!(va.index_buffer().handle(), 2);
}

#[test]
fn bindings_can_be_replaced_in_place() {
    let mut va = VertexArray::new(1, vec![binding(50, 1, vec![VertexAttributeBinding::Mat4f])], Buffer::new(2, 4, 6, false, false));
    va.vertex_buffer_bindings_mut()[0] = binding(8, 1, vec![VertexAttributeBinding::Mat4f]);
    assert_eq!(va.vertex_buffer_bindings().len(), 1);
    assert_eq!(va.max_instance_count(), Some(8));
}

fn sprite_array() -> VertexArray {
    VertexArray::new(
        1,
        vec![
            binding(10, 1, vec![VertexAttributeBinding::Mat4f, VertexAttributeBinding::Float4]),
            binding(4, 0, vec![VertexAttributeBinding::Float2, VertexAttributeBinding::Float2]),
        ],
        Buffer::new(2, 4, 6, false, false),
    )
}

#[test]
fn matching_layout_verifies() {
    let declared = vec![
        vec![VertexAttributeBinding::Mat4f, VertexAttributeBinding::Float4],
        vec![VertexAttributeBinding::Float2, VertexAttributeBinding::Float2],
    ];
    assert_eq!(verify_vertex_array(&declared, &sprite_array()), None);
}

#[test]
fn buffer_count_mismatch_is_reported() {
    let declared = vec![vec![VertexAttributeBinding::Mat4f, VertexAttributeBinding::Float4]];
    assert_eq!(verify_vertex_array(&declared, &sprite_array()), Some(VerificationFailure::BufferCount(1)));
}

#[test]
fn attribute_count_mismatch_is_reported() {
    let declared = vec![
        vec![VertexAttributeBinding::Mat4f, VertexAttributeBinding::Float4, VertexAttributeBinding::Float],
        vec![VertexAttributeBinding::Float2, VertexAttributeBinding::Float2],
    ];
    assert_eq!(verify_vertex_array(&declared, &sprite_array()), Some(VerificationFailure::BufferAttributeCount(0, 3)));
}

#[test]
fn attribute_type_mismatch_is_reported() {
    let declared = vec![
        vec![VertexAttributeBinding::Mat4f, VertexAttributeBinding::Float4],
        vec![VertexAttributeBinding::Float2, VertexAttributeBinding::Float3],
    ];
    assert_eq!(
        verify_vertex_array(&declared, &sprite_array()),
        Some(VerificationFailure::Attribute(1, 1, VertexAttributeBinding::Float3))
    );
}

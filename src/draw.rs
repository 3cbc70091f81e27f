use vstd::prelude::*;

use crate::material::{declared_view, layout_mismatch};
use crate::pipeline::{stage_features, Pipeline};
use crate::shader::ShaderFeature;
use crate::vertex::VertexAttributeBinding;
use crate::vertex_array::{min_instance_capacity, VertexArray};

verus! {

/// How the indices of a mesh are assembled into primitives.
#[derive(Clone, Copy, PartialEq, Eq, Structural, Hash, Debug)]
pub enum PrimitiveType {
    TriangleList,
    PointList,
    LineList,
}

/// What an instanced indexed draw is to do on the device.
#[derive(Clone, Copy, PartialEq, Eq, Structural, Debug)]
pub struct DrawPlan {
    pub primitive_type: PrimitiveType,
    pub index_count: isize,
    pub instance_count: i32,
    /// Whether the view and projection matrices are to be set.
    pub set_camera: bool,
    /// Whether the transform matrix is to be set.
    pub set_transform: bool,
}

/// Plans a draw of `instance_count` instances of `vertex_array` with a
/// material of layout `declared` and pipeline `pipeline`: the draw sets the
/// camera matrices where a stage declared the camera feature and the
/// transform where one declared the transform feature. A draw of no
/// instance, of more instances than an instance-rate buffer can feed, or with
/// a vertex array whose layout differs from the material's is a programmer
/// error and is left out; `VertexArray::max_instance_count` and
/// `verify_vertex_array` let a caller test for them first.
pub fn plan_draw(
    declared: &Vec<Vec<VertexAttributeBinding>>,
    pipeline: &Pipeline,
    vertex_array: &VertexArray,
    instance_count: i32,
    primitive_type: PrimitiveType,
) -> (r: DrawPlan)
    requires
        vertex_array.wf(),
        instance_count >= 1,
        !(min_instance_capacity(vertex_array.bindings_spec()) matches Some(m) && instance_count > m),
        layout_mismatch(declared_view(declared@), vertex_array.layouts_spec()) is None,
    ensures
        r == (DrawPlan {
            primitive_type,
            index_count: vertex_array.index_buffer_spec().length_spec() as isize,
            instance_count,
            set_camera: stage_features(pipeline.stages_spec()).contains(ShaderFeature::Camera),
            set_transform: stage_features(pipeline.stages_spec()).contains(ShaderFeature::Transform),
        }),
{
    DrawPlan {
        primitive_type,
        index_count: vertex_array.index_count(),
        instance_count,
        set_camera: pipeline.has_shader_feature(ShaderFeature::Camera),
        set_transform: pipeline.has_shader_feature(ShaderFeature::Transform),
    }
}

} // verus!

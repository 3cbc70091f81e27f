use fennec_gfx::animator::{dispatch_batches, DispatchBatch, SpriteAnimator, MAX_DISPATCH};
use fennec_gfx::buffer::Buffer;
use fennec_gfx::draw::{plan_draw, DrawPlan, PrimitiveType};
use fennec_gfx::framebuffer::{window_framebuffer, Framebuffer};
use fennec_gfx::material::{verify_vertex_array, VerificationFailure};
use fennec_gfx::pipeline::{ComputePipeline, Pipeline, Program, ShaderStage};
use fennec_gfx::shader::ShaderFeature;
use fennec_gfx::vertex::VertexAttributeBinding;
use fennec_gfx::vertex_array::{VertexArray, VertexBufferBinding};

fn pipeline(vertex_features: Vec<ShaderFeature>) -> Pipeline {
    Pipeline::new(
        9,
        vec![
            Program::new(3, ShaderStage::Vertex, vertex_features),
            Program::new(4, ShaderStage::Fragment, vec![ShaderFeature::Noise]),
        ],
    )
}

fn sprite_array(instances: isize) -> VertexArray {
    VertexArray::new(
        1,
        vec![
            VertexBufferBinding::with_attributes(
                Buffer::new(5, 80, instances, false, true),
                1,
                vec![VertexAttributeBinding::Mat4f, VertexAttributeBinding::Float4],
            ),
            VertexBufferBinding::with_attributes(
                Buffer::new(6, 16, 4, false, false),
                0,
                vec![VertexAttributeBinding::Float2, VertexAttributeBinding::Float2],
            ),
        ],
        Buffer::new(2, 4, 6, false, false),
    )
}

fn sprite_layout() -> Vec<Vec<VertexAttributeBinding>> {
    vec![
        vec![VertexAttributeBinding::Mat4f, VertexAttributeBinding::Float4],
        vec![VertexAttributeBinding::Float2, VertexAttributeBinding::Float2],
    ]
}

#[test]
fn pipeline_gathers_stage_features() {
    let p = pipeline(vec![ShaderFeature::Camera]);
    assert_eq!(p.shader_features(), vec![ShaderFeature::Camera, ShaderFeature::Noise]);
    assert!(p.has_shader_feature(ShaderFeature::Noise));
    assert!(!p.has_shader_feature(ShaderFeature::Transform));
    assert_eq!(p.vertex_program().unwrap().handle(), 3);
    assert_eq!(p.fragment_program().unwrap().handle(), 4);
    assert_eq!(p.handle(), 9);
    assert!(p.program_for(ShaderStage::Compute).is_none());
}

#[test]
fn pipeline_without_vertex_stage() {
    let p = Pipeline::new(1, vec![Program::new(4, ShaderStage::Fragment, vec![])]);
    assert!(p.vertex_program().is_none());
    assert!(p.shader_features().is_empty());
}

#[test]
fn program_reports_its_features() {
    let program = Program::new(3, ShaderStage::Vertex, vec![ShaderFeature::Transform]);
    assert_eq!(program.stage(), ShaderStage::Vertex);
    assert_eq!(program.shader_features(), &[ShaderFeature::Transform]);
    assert!(program.has_shader_feature(ShaderFeature::Transform));
    assert!(!program.has_shader_feature(ShaderFeature::Camera));
}

#[test]
fn draw_sets_uniforms_of_declared_features() {
    let plan = plan_draw(&sprite_layout(), &pipeline(vec![ShaderFeature::Camera]), &sprite_array(10), 10, PrimitiveType::TriangleList);
    assert_eq!(
        plan,
        DrawPlan {
            primitive_type: PrimitiveType::TriangleList,
            index_count: 6,
            instance_count: 10,
            set_camera: true,
            set_transform: false,
        }
    );
    let plan = plan_draw(&sprite_layout(), &pipeline(vec![ShaderFeature::Transform]), &sprite_array(10), 1, PrimitiveType::LineList);
    assert_eq!(plan.set_transform, true);
    assert_eq!(plan.set_camera, false);
    assert_eq!(plan.instance_count, 1);
}

#[test]
fn draw_limit_is_instance_buffer_length() {
    let va = sprite_array(10);
    assert_eq!(va.max_instance_count(), Some(10));
    let plan = plan_draw(&sprite_layout(), &pipeline(vec![]), &va, 10, PrimitiveType::TriangleList);
    assert_eq!(plan.instance_count, 10);
}

#[test]
fn wrong_layout_is_found_before_a_draw() {
    let declared = vec![vec![VertexAttributeBinding::Mat4f, VertexAttributeBinding::Float4]];
    assert_eq!(verify_vertex_array(&declared, &sprite_array(10)), Some(VerificationFailure::BufferCount(1)));
    assert_eq!(verify_vertex_array(&sprite_layout(), &sprite_array(10)), None);
}

#[test]
fn dispatches_are_cut_into_batches() {
    assert_eq!(
        dispatch_batches(0, 300, 128),
        vec![
            DispatchBatch { offset: 0, count: 128, groups: 1 },
            DispatchBatch { offset: 128, count: 128, groups: 1 },
            DispatchBatch { offset: 256, count: 44, groups: 1 },
        ]
    );
    assert_eq!(
        dispatch_batches(10, 400, 300),
        vec![
            DispatchBatch { offset: 10, count: 300, groups: 3 },
            DispatchBatch { offset: 310, count: 90, groups: 1 },
        ]
    );
    assert!(dispatch_batches(5, 5, 128).is_empty());
    assert!(dispatch_batches(6, 5, 128).is_empty());
}

#[test]
fn animator_dispatches_every_actor_slot() {
    let compute = ComputePipeline::new(11, Program::new(12, ShaderStage::Compute, vec![]));
    let mut animator = SpriteAnimator::new(compute);
    assert!(animator.actor_buffer().is_none());
    animator.set_buffers(Buffer::new(20, 64, 300, false, true), Buffer::new(21, 80, 300, false, true));
    assert_eq!(animator.actor_buffer().unwrap().handle(), 20);
    assert_eq!(animator.instance_buffer().unwrap().handle(), 21);
    let batches = animator.animate();
    assert_eq!(batches, dispatch_batches(0, 300, MAX_DISPATCH));
    assert_eq!(batches.len(), 3);
    assert_eq!(animator.compute_pipeline().program().handle(), 12);
    assert!(!animator.compute_pipeline().has_shader_feature(ShaderFeature::Camera));
}

#[test]
fn window_framebuffer_is_handle_zero() {
    let f = window_framebuffer();
    assert_eq!(f.handle(), 0);
    assert!(f.allows_draw());
    assert!(!f.allows_read());
    let g = Framebuffer::from_handle(4, false, true);
    assert_eq!(g.handle(), 4);
    assert!(g.allows_read());
}

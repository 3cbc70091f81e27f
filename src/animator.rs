use vstd::prelude::*;

use crate::buffer::Buffer;
use crate::pipeline::ComputePipeline;

verus! {

/// Most actors one compute dispatch covers.
pub const MAX_DISPATCH: u32 = 128;

/// Invocations in one work group of the animation shader.
pub const LOCAL_SIZE: u32 = 128;

pub const BATCH_OFFSET_UNIFORM_NAME: &'static str = "_u_batch_offset";

pub const BATCH_END_UNIFORM_NAME: &'static str = "_u_batch_end";

pub const DELTA_TIME_UNIFORM_NAME: &'static str = "_u_delta_time";

/// The animation pass: each invocation moves one actor by its velocity over
/// the frame's time and writes the actor's instance transform
/// (translation, then scale, then rotation about Z) and rectangle.
pub const COMPUTE_SHADER: &'static str = "
layout (local_size_x = 128) in;

uniform uint _u_batch_offset;
uniform uint _u_batch_end;
uniform float _u_delta_time;

uint batchOffset() {
    return _u_batch_offset;
}

float deltaTime() {
    return _u_delta_time;
}

struct Actor
{
    vec4 positionVelocity;
    vec4 scaleVelocity;
    vec4 rotationUpdatedAnimtime;
    vec4 rectangle;
};

struct Instance
{
    mat4 transform;
    vec4 rectangle;
};

layout (std140, binding = 0) buffer buffer_Actors
{
    Actor actors[];
};

layout (std140, binding = 1) buffer buffer_Instances
{
    Instance instances[];
};

mat4 mat_scale(vec3 scale)
{
    return mat4(
            scale.x,    0,          0,          0,
            0,          scale.y,    0,          0,
            0,          0,          scale.z,    0,
            0,          0,          0,          1
        );
}

mat4 mat_translate(vec3 trans)
{
    return mat4(
            1,          0,          0,          0,
            0,          1,          0,          0,
            0,          0,          1,          0,
            trans.x,    trans.y,    trans.z,    1
        );
}

mat4 mat_rotateZ(float angle)
{
    float cos = cos(angle);
    float sin = sin(angle);
    return mat4(
            cos,        sin,        0,          0,
            -sin,       cos,        0,          0,
            0,          0,          1,          0,
            0,          0,          0,          1
        );
}

mat4 buildMatrix(Actor actor)
{
    mat4 mat = mat_translate(vec3(actor.positionVelocity.xy, 0.0)) * mat_scale(vec3(actor.scaleVelocity.xy, 1.0)) * mat_rotateZ(actor.rotationUpdatedAnimtime.x);
    return mat;
}

Instance buildInstance(Actor actor)
{
    Instance vinst;
    vinst.transform = buildMatrix(actor);
    vinst.rectangle = actor.rectangle;
    return vinst;
}

void main()
{
    uint index = batchOffset() + gl_GlobalInvocationID.x;
    if (index >= _u_batch_end) {
        return;
    }
    Actor actor = actors[index];
    actor.positionVelocity.xy += actor.positionVelocity.zw * deltaTime();
    instances[index] = buildInstance(actor);
    actors[index] = actor;
}";

/// One compute dispatch: `count` actors from `offset` on, run as `groups` work groups.
#[derive(Clone, Copy, PartialEq, Eq, Structural, Debug)]
pub struct DispatchBatch {
    pub offset: u32,
    pub count: u32,
    pub groups: u32,
}

/// Work groups of `local` invocations needed for `count` actors.
pub open spec fn groups_for(count: int, local: int) -> int {
    (count + local - 1) / local
}

/// The range `start..end` cut into consecutive batches of at most `max` actors.
pub open spec fn batches(start: int, end: int, max: int) -> Seq<DispatchBatch>
    decreases end - start,
{
    if max <= 0 || start >= end {
        Seq::empty()
    } else {
        let count = if end - start < max { end - start } else { max };
        seq![DispatchBatch {
            offset: start as u32,
            count: count as u32,
            groups: groups_for(count, LOCAL_SIZE as int) as u32,
        }] + batches(start + count, end, max)
    }
}

/// The batches of `start..end` follow one another without gap or overlap,
/// each holds between one and `max` actors, the first starts at `start` and
/// the last ends at `end`.
pub proof fn lemma_batches_cover_range(start: int, end: int, max: int)
    requires
        0 <= start,
        end <= u32::MAX,
        max > 0,
    ensures
        ({
            let b = batches(start, end, max);
            &&& (b.len() == 0 <==> start >= end)
            &&& b.len() > 0 ==> b[0].offset == start && b.last().offset + b.last().count == end
            &&& forall|i: int| 0 <= i < b.len() ==> 1 <= (#[trigger] b[i]).count <= max
            &&& forall|i: int| 0 <= i < b.len() - 1 ==> (#[trigger] b[i]).offset + b[i].count == b[i + 1].offset
        }),
    decreases end - start,
{
    if start < end {
        let count = if end - start < max { end - start } else { max };
        lemma_batches_cover_range(start + count, end, max);
        let b = batches(start, end, max);
        let rest = batches(start + count, end, max);
        assert(b == seq![b[0]] + rest);
        assert forall|i: int| 0 <= i < b.len() implies 1 <= (#[trigger] b[i]).count <= max by {
            if i > 0 {
                assert(b[i] == rest[i - 1]);
            }
        }
        assert forall|i: int| 0 <= i < b.len() - 1 implies (#[trigger] b[i]).offset + b[i].count == b[i + 1].offset by {
            if i > 0 {
                assert(b[i] == rest[i - 1]);
                assert(b[i + 1] == rest[i]);
            }
        }
        if rest.len() > 0 {
            assert(b.last() == rest.last());
        }
    }
}

/// Cuts the actors `start..end` into dispatches of at most `max_dispatch`
/// actors each, because a single dispatch may only be so large.
pub fn dispatch_batches(start: u32, end: u32, max_dispatch: u32) -> (r: Vec<DispatchBatch>)
    requires
        max_dispatch > 0,
    ensures
        r@ == batches(start as int, end as int, max_dispatch as int),
{
    let mut out: Vec<DispatchBatch> = Vec::new();
    let mut cur: u32 = start;
    while cur < end
        invariant
            max_dispatch > 0,
            start <= cur || start >= end,
            batches(start as int, end as int, max_dispatch as int) == out@ + batches(cur as int, end as int, max_dispatch as int),
        decreases end - cur,
    {
        let count = if end - cur < max_dispatch { end - cur } else { max_dispatch };
        let groups = count / LOCAL_SIZE + if count % LOCAL_SIZE == 0 { 0 } else { 1 };
        proof {
            let c = count as int;
            let l = LOCAL_SIZE as int;
            assert(groups_for(c, l) == c / l + if c % l == 0 { 0int } else { 1int }) by (nonlinear_arith)
                requires l == 128, c >= 0;
        }
        let ghost before = out@;
        out.push(DispatchBatch { offset: cur, count, groups });
        proof {
            assert(out@ == before + seq![out@.last()]);
        }
        cur = cur + count;
    }
    proof {
        assert(out@ + batches(cur as int, end as int, max_dispatch as int) == out@);
    }
    out
}

/// Advances every actor on the device and derives its instance record.
#[derive(Debug)]
pub struct SpriteAnimator {
    compute_pipeline: ComputePipeline,
    actor_buffer: Option<Buffer>,
    instance_buffer: Option<Buffer>,
}

impl SpriteAnimator {
    pub closed spec fn pipeline_spec(&self) -> ComputePipeline {
        self.compute_pipeline
    }

    pub closed spec fn actor_buffer_spec(&self) -> Option<Buffer> {
        self.actor_buffer
    }

    pub closed spec fn instance_buffer_spec(&self) -> Option<Buffer> {
        self.instance_buffer
    }

    /// An animator running `compute_pipeline`, with no buffers yet.
    pub fn new(compute_pipeline: ComputePipeline) -> (r: SpriteAnimator)
        ensures
            r.pipeline_spec() == compute_pipeline,
            r.actor_buffer_spec() is None,
            r.instance_buffer_spec() is None,
    {
        SpriteAnimator { compute_pipeline, actor_buffer: None, instance_buffer: None }
    }

    pub fn set_buffers(&mut self, actor_buffer: Buffer, instance_buffer: Buffer)
        ensures
            final(self).pipeline_spec() == old(self).pipeline_spec(),
            final(self).actor_buffer_spec() == Some(actor_buffer),
            final(self).instance_buffer_spec() == Some(instance_buffer),
    {
        self.actor_buffer = Some(actor_buffer);
        self.instance_buffer = Some(instance_buffer);
    }

    pub fn compute_pipeline(&self) -> (r: &ComputePipeline)
        ensures
            *r == self.pipeline_spec(),
    {
        &self.compute_pipeline
    }

    pub fn actor_buffer(&self) -> (r: Option<&Buffer>)
        ensures
            r matches Some(b) ==> self.actor_buffer_spec() == Some(*b),
            r is None ==> self.actor_buffer_spec() is None,
    {
        self.actor_buffer.as_ref()
    }

    pub fn instance_buffer(&self) -> (r: Option<&Buffer>)
        ensures
            r matches Some(b) ==> self.instance_buffer_spec() == Some(*b),
            r is None ==> self.instance_buffer_spec() is None,
    {
        self.instance_buffer.as_ref()
    }

    /// The dispatches of one animation step: every actor slot of the actor
    /// buffer, in batches of at most [`MAX_DISPATCH`].
    pub fn animate(&self) -> (r: Vec<DispatchBatch>)
        requires
            self.actor_buffer_spec() matches Some(b) && 0 <= b.length_spec() <= u32::MAX,
            self.instance_buffer_spec() is Some,
        ensures
            r@ == batches(0, self.actor_buffer_spec()->0.length_spec(), MAX_DISPATCH as int),
    {
        let length = match &self.actor_buffer {
            Some(b) => b.length(),
            None => 0,
        };
        dispatch_batches(0, length as u32, MAX_DISPATCH)
    }
}

} // verus!

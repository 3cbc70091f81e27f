use vstd::prelude::*;

use crate::shader::ShaderFeature;

verus! {

/// The programmable stage a program runs in.
#[derive(Clone, Copy, PartialEq, Eq, Structural, Hash, Debug)]
pub enum ShaderStage {
    Vertex,
    Fragment,
    Compute,
}

/// A compiled single-stage program and the features its source declared.
#[derive(Debug)]
pub struct Program {
    gl_handle: u32,
    stage: ShaderStage,
    features: Vec<ShaderFeature>,
}

impl Program {
    pub closed spec fn handle_spec(&self) -> u32 {
        self.gl_handle
    }

    pub closed spec fn stage_spec(&self) -> ShaderStage {
        self.stage
    }

    pub closed spec fn features_spec(&self) -> Seq<ShaderFeature> {
        self.features@
    }

    /// The program `gl_handle`, compiled for `stage` from a source that declared `features`.
    pub fn new(gl_handle: u32, stage: ShaderStage, features: Vec<ShaderFeature>) -> (r: Program)
        ensures
            r.handle_spec() == gl_handle,
            r.stage_spec() == stage,
            r.features_spec() == features@,
    {
        Program { gl_handle, stage, features }
    }

    pub fn handle(&self) -> (r: u32)
        ensures
            r == self.handle_spec(),
    {
        self.gl_handle
    }

    pub fn stage(&self) -> (r: ShaderStage)
        ensures
            r == self.stage_spec(),
    {
        self.stage
    }

    pub fn shader_features(&self) -> (r: &[ShaderFeature])
        ensures
            r@ == self.features_spec(),
    {
        self.features.as_slice()
    }

    pub fn has_shader_feature(&self, feature: ShaderFeature) -> (r: bool)
        ensures
            r == self.features_spec().contains(feature),
    {
        contains_feature(self.features.as_slice(), feature)
    }
}

fn contains_feature(fs: &[ShaderFeature], feature: ShaderFeature) -> (r: bool)
    ensures
        r == fs@.contains(feature),
{
    let mut i: usize = 0;
    while i < fs.len()
        invariant
            i <= fs@.len(),
            forall|j: int| 0 <= j < i ==> fs@[j] != feature,
        decreases fs@.len() - i,
    {
        if fs[i] == feature {
            return true;
        }
        i = i + 1;
    }
    false
}

/// The features of all stages, stage after stage.
pub open spec fn stage_features(stages: Seq<Program>) -> Seq<ShaderFeature>
    decreases stages.len(),
{
    if stages.len() == 0 {
        Seq::empty()
    } else {
        stage_features(stages.drop_last()) + stages.last().features_spec()
    }
}

/// Index of the first stage at or after `i` that runs in `stage`, or -1.
pub open spec fn stage_index(stages: Seq<Program>, stage: ShaderStage, i: int) -> int
    decreases stages.len() - i,
{
    if i < 0 || i >= stages.len() {
        -1
    } else if stages[i].stage_spec() == stage {
        i
    } else {
        stage_index(stages, stage, i + 1)
    }
}

/// Linked stage programs.
#[derive(Debug)]
pub struct Pipeline {
    gl_handle: u32,
    stages: Vec<Program>,
}

impl Pipeline {
    pub closed spec fn handle_spec(&self) -> u32 {
        self.gl_handle
    }

    pub closed spec fn stages_spec(&self) -> Seq<Program> {
        self.stages@
    }

    /// The pipeline `gl_handle` that links `stages`.
    pub fn new(gl_handle: u32, stages: Vec<Program>) -> (r: Pipeline)
        ensures
            r.handle_spec() == gl_handle,
            r.stages_spec() == stages@,
    {
        Pipeline { gl_handle, stages }
    }

    pub fn handle(&self) -> (r: u32)
        ensures
            r == self.handle_spec(),
    {
        self.gl_handle
    }

    pub fn stages(&self) -> (r: &[Program])
        ensures
            r@ == self.stages_spec(),
    {
        self.stages.as_slice()
    }

    /// The first stage program that runs in `stage`.
    pub fn program_for(&self, stage: ShaderStage) -> (r: Option<&Program>)
        ensures
            r matches Some(p) ==> {
                let k = stage_index(self.stages_spec(), stage, 0);
                0 <= k < self.stages_spec().len() && *p == self.stages_spec()[k]
            },
            r is None ==> stage_index(self.stages_spec(), stage, 0) == -1,
    {
        let mut i: usize = 0;
        while i < self.stages.len()
            invariant
                i <= self.stages_spec().len(),
                stage_index(self.stages_spec(), stage, 0) == stage_index(self.stages_spec(), stage, i as int),
            decreases self.stages_spec().len() - i,
        {
            if self.stages[i].stage() == stage {
                return Some(&self.stages[i]);
            }
            i = i + 1;
        }
        None
    }

    pub fn vertex_program(&self) -> (r: Option<&Program>)
        ensures
            r matches Some(p) ==> {
                let k = stage_index(self.stages_spec(), ShaderStage::Vertex, 0);
                0 <= k < self.stages_spec().len() && *p == self.stages_spec()[k]
            },
            r is None ==> stage_index(self.stages_spec(), ShaderStage::Vertex, 0) == -1,
    {
        self.program_for(ShaderStage::Vertex)
    }

    pub fn fragment_program(&self) -> (r: Option<&Program>)
        ensures
            r matches Some(p) ==> {
                let k = stage_index(self.stages_spec(), ShaderStage::Fragment, 0);
                0 <= k < self.stages_spec().len() && *p == self.stages_spec()[k]
            },
            r is None ==> stage_index(self.stages_spec(), ShaderStage::Fragment, 0) == -1,
    {
        self.program_for(ShaderStage::Fragment)
    }

    /// The features declared by all stages, stage after stage.
    pub fn shader_features(&self) -> (r: Vec<ShaderFeature>)
        ensures
            r@ == stage_features(self.stages_spec()),
    {
        let mut out: Vec<ShaderFeature> = Vec::new();
        let mut i: usize = 0;
        while i < self.stages.len()
            invariant
                i <= self.stages_spec().len(),
                out@ == stage_features(self.stages_spec().take(i as int)),
            decreases self.stages_spec().len() - i,
        {
            proof {
                assert(self.stages_spec().take(i + 1).drop_last() == self.stages_spec().take(i as int));
            }
            let fs = self.stages[i].shader_features();
            let ghost before = out@;
            let mut k: usize = 0;
            while k < fs.len()
                invariant
                    k <= fs@.len(),
                    out@ == before + fs@.take(k as int),
                decreases fs@.len() - k,
            {
                out.push(fs[k]);
                k = k + 1;
                proof {
                    assert(fs@.take(k as int) == fs@.take(k - 1).push(fs@[k - 1]));
                }
            }
            proof {
                assert(fs@.take(k as int) == fs@);
            }
            i = i + 1;
        }
        proof {
            assert(self.stages_spec().take(i as int) == self.stages_spec());
        }
        out
    }

    /// Whether some stage declared `feature`.
    pub fn has_shader_feature(&self, feature: ShaderFeature) -> (r: bool)
        ensures
            r == stage_features(self.stages_spec()).contains(feature),
    {
        let all = self.shader_features();
        contains_feature(all.as_slice(), feature)
    }
}

/// A pipeline of one compute stage.
#[derive(Debug)]
pub struct ComputePipeline {
    gl_handle: u32,
    program: Program,
}

impl ComputePipeline {
    pub closed spec fn handle_spec(&self) -> u32 {
        self.gl_handle
    }

    pub closed spec fn program_spec(&self) -> Program {
        self.program
    }

    /// The pipeline `gl_handle` running the compute `program`.
    pub fn new(gl_handle: u32, program: Program) -> (r: ComputePipeline)
        requires
            program.stage_spec() == ShaderStage::Compute,
        ensures
            r.handle_spec() == gl_handle,
            r.program_spec() == program,
    {
        ComputePipeline { gl_handle, program }
    }

    pub fn handle(&self) -> (r: u32)
        ensures
            r == self.handle_spec(),
    {
        self.gl_handle
    }

    pub fn program(&self) -> (r: &Program)
        ensures
            *r == self.program_spec(),
    {
        &self.program
    }

    pub fn shader_features(&self) -> (r: &[ShaderFeature])
        ensures
            r@ == self.program_spec().features_spec(),
    {
        self.program.shader_features()
    }

    pub fn has_shader_feature(&self, feature: ShaderFeature) -> (r: bool)
        ensures
            r == self.program_spec().features_spec().contains(feature),
    {
        self.program.has_shader_feature(feature)
    }
}

} // verus!

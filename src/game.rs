use vstd::prelude::*;
use crate::layout::{
    handle_of, handles_of, kind_of_resource, layout_of, matches_layout, Binding, BindingResource,
};
use crate::resources::{
    bind_group_error, dead_at, fresh_entry, killed, pipeline_ready, live_in, usable_in, CompileError, Entry, Handle,
    RendererContext, RendererContextError, ResourceKind,
};
use vstd::string::StringSliceAdditionalSpecFns;
use crate::watcher::{shader_of_path, ChangeKind, Debouncer, ShaderKind};

verus! {

/// Output size before the first resize.
pub const INITIAL_WIDTH: u32 = 800;

pub const INITIAL_HEIGHT: u32 = 600;

/// Edge of the voxel volume, in voxels.
pub const WORLD_SIZE: u32 = 16;


/// Quiet time, in milliseconds, after which a burst of edits counts as one.
pub const DEBOUNCE_MS: u64 = 5000;

/// Failures of the frame orchestrator that the caller sees.
#[derive(Debug)]
pub enum GameError {
    RendererContextError(RendererContextError),
    Compile(CompileError),
}

/// One command recorded into a frame's command stream.
#[derive(Clone, Copy, Debug, PartialEq, Eq, Structural)]
pub enum Command {
    BeginComputePass { pipeline: Handle, bind_group: Handle },
    Dispatch { x: u32, y: u32, z: u32 },
    EndComputePass,
    BeginRenderPass { pipeline: Handle, bind_group: Handle },
    Draw { first_vertex: u32, vertex_count: u32, first_instance: u32, instance_count: u32 },
    EndRenderPass,
}

/// The command stream of one frame.
pub struct Frame {
    commands: Vec<Command>,
}

impl View for Frame {
    type V = Seq<Command>;

    closed spec fn view(&self) -> Seq<Command> {
        self.commands@
    }
}

impl Frame {
    pub fn new() -> (r: Frame)
        ensures
            r@ == Seq::<Command>::empty(),
    {
        Frame { commands: Vec::new() }
    }

    /// The commands recorded so far, in order.
    pub fn commands(&self) -> (r: &Vec<Command>)
        ensures
            r@ == self@,
    {
        &self.commands
    }

    fn push(&mut self, c: Command)
        ensures
            final(self)@ == old(self)@.push(c),
    {
        self.commands.push(c);
    }
}

/// Movement keys held down this frame.
#[derive(Clone, Copy, Debug, PartialEq, Eq, Structural)]
pub struct MoveKeys {
    pub forward: bool,
    pub back: bool,
    pub right: bool,
    pub left: bool,
    pub up: bool,
    pub down: bool,
}

pub open spec fn axis(plus: bool, minus: bool) -> int {
    (if plus { 1int } else { 0int }) - (if minus { 1int } else { 0int })
}

/// The direction the camera moves in: the sum of the unit axes of the keys held.
pub fn movement(keys: MoveKeys) -> (r: (i8, i8, i8))
    ensures
        r.0 == axis(keys.right, keys.left),
        r.1 == axis(keys.up, keys.down),
        r.2 == axis(keys.forward, keys.back),
{
    let x: i8 = (if keys.right { 1i8 } else { 0i8 }) - (if keys.left { 1i8 } else { 0i8 });
    let y: i8 = (if keys.up { 1i8 } else { 0i8 }) - (if keys.down { 1i8 } else { 0i8 });
    let z: i8 = (if keys.forward { 1i8 } else { 0i8 }) - (if keys.back { 1i8 } else { 0i8 });
    (x, y, z)
}

/// Workgroups of `w` pixels needed to cover `n` pixels: the smallest `g`
/// with `g * w >= n`.
pub open spec fn groups_for(n: u32, w: u32) -> int
    recommends
        w >= 1,
{
    (n + w - 1) / (w as int)
}

fn groups(n: u32, w: u32) -> (r: u32)
    requires
        w >= 1,
    ensures
        r == groups_for(n, w),
        r * w >= n,
        r == 0 || (r - 1) * w < n,
{
    let q = n / w;
    proof {
        assert(q * w <= n) by (nonlinear_arith) requires q == n / w, w >= 1;
        assert(n < (q + 1) * w) by (nonlinear_arith) requires q == n / w, w >= 1;
        assert(n % w == n - q * w) by (nonlinear_arith) requires q == n / w, w >= 1;
    }
    if n % w != 0 {
        proof {
            assert((n + w - 1) / (w as int) == q + 1) by (nonlinear_arith)
                requires q == n / w, w >= 1, n % w != 0, n % w == n - q * w, n < (q + 1) * w;
            assert(q < 0xffff_ffff && (q + 1) * w >= n && q * w < n) by (nonlinear_arith)
                requires q == n / w, w >= 1, n % w != 0, n % w == n - q * w, n < (q + 1) * w, n <= 0xffff_ffff;
        }
        q + 1
    } else {
        proof {
            assert((n + w - 1) / (w as int) == q) by (nonlinear_arith)
                requires q == n / w, w >= 1, n % w == 0, n % w == n - q * w;
            assert(q * w >= n && (q == 0 || (q - 1) * w < n)) by (nonlinear_arith)
                requires q == n / w, w >= 1, n % w == 0, n % w == n - q * w;
        }
        q
    }
}

/// A shader slot and the pipeline built from it agree: both empty, or a
/// live shader and a live pipeline of `kind` built from exactly that shader.
pub open spec fn stage_ok(a: Seq<Entry>, shader: Option<Handle>, pipeline: Option<Handle>, kind: ResourceKind) -> bool {
    match (shader, pipeline) {
        (Some(s), Some(p)) => live_in(a, s, ResourceKind::Shader) && live_in(a, p, kind)
            && a[p.index as int].deps == seq![s],
        (None, None) => true,
        _ => false,
    }
}

pub open spec fn bind_slot_ok(a: Seq<Entry>, b: Option<Handle>) -> bool {
    b matches Some(h) ==> live_in(a, h, ResourceKind::BindGroup)
}

/// A bind group fits the current pipeline: present exactly when the pipeline
/// is, usable, and built from that pipeline and exactly `bs`.
pub open spec fn bind_fresh(a: Seq<Entry>, pipeline: Option<Handle>, group: Option<Handle>, bs: Seq<Binding>) -> bool {
    match pipeline {
        Some(p) => group matches Some(b) && usable_in(a, b) && a[b.index as int].deps == seq![p] + handles_of(bs),
        None => group is None,
    }
}

/// The arena after a stage's pipeline and then its shader were destroyed.
pub open spec fn retired(a: Seq<Entry>, shader: Option<Handle>, pipeline: Option<Handle>) -> Seq<Entry> {
    let a1 = match pipeline {
        Some(p) => killed(a, p),
        None => a,
    };
    match shader {
        Some(s) => killed(a1, s),
        None => a1,
    }
}

/// A successful outcome declares a workgroup of at least one invocation
/// along each axis.
pub open spec fn positive_outcome(outcome: Option<(u32, u32)>) -> bool {
    outcome matches Some(ws) ==> ws.0 >= 1 && ws.1 >= 1
}

/// The workgroup size a compilation outcome carries, if it succeeded.
pub open spec fn outcome_of(compiled: Result<(u32, u32), String>) -> Option<(u32, u32)> {
    match compiled {
        Ok(ws) => Some(ws),
        Err(_) => None,
    }
}

pub open spec fn pipeline_kind(k: ShaderKind) -> ResourceKind {
    match k {
        ShaderKind::Render => ResourceKind::RenderPipeline,
        ShaderKind::Compute => ResourceKind::ComputePipeline,
    }
}

fn pipeline_kind_exec(k: ShaderKind) -> (r: ResourceKind)
    ensures
        r == pipeline_kind(k),
{
    match k {
        ShaderKind::Render => ResourceKind::RenderPipeline,
        ShaderKind::Compute => ResourceKind::ComputePipeline,
    }
}

/// The frame orchestrator: owns the handles of the shaders, pipelines, bind
/// groups and the intermediate texture, and the change debouncer.
#[derive(Clone, Copy, Debug, PartialEq, Eq, Structural)]
pub struct Game {
    pub world_texture: Handle,
    pub camera_buffer: Handle,
    pub globals_buffer: Handle,
    pub output_texture: Handle,
    pub width: u32,
    pub height: u32,
    /// The workgroup size that the current compute shader declares.
    pub workgroup_x: u32,
    pub workgroup_y: u32,
    pub compute_shader: Option<Handle>,
    pub compute_pipeline: Option<Handle>,
    pub compute_bind_group: Option<Handle>,
    pub render_shader: Option<Handle>,
    pub render_pipeline: Option<Handle>,
    pub render_bind_group: Option<Handle>,
    pub watcher: Debouncer,
}

impl Game {
    /// The handles the game holds are what the arena says they are, and
    /// every current pipeline is built from a live shader.
    pub open spec fn inv(self, a: Seq<Entry>) -> bool {
        &&& self.core_inv(a)
        &&& bind_slot_ok(a, self.compute_bind_group)
        &&& bind_slot_ok(a, self.render_bind_group)
        &&& (self.compute_bind_group is Some && self.render_bind_group is Some
            ==> self.compute_bind_group != self.render_bind_group)
    }

    /// The invariant without the bind-group slots.
    pub open spec fn core_inv(self, a: Seq<Entry>) -> bool {
        &&& live_in(a, self.world_texture, ResourceKind::Texture)
        &&& live_in(a, self.output_texture, ResourceKind::Texture)
        &&& self.world_texture != self.output_texture
        &&& self.camera_buffer != self.globals_buffer
        &&& self.workgroup_x >= 1 && self.workgroup_y >= 1
        &&& live_in(a, self.globals_buffer, ResourceKind::Buffer)
        &&& live_in(a, self.camera_buffer, ResourceKind::Buffer)
        &&& a[self.output_texture.index as int].width == self.width
        &&& a[self.output_texture.index as int].height == self.height
        &&& stage_ok(a, self.compute_shader, self.compute_pipeline, ResourceKind::ComputePipeline)
        &&& stage_ok(a, self.render_shader, self.render_pipeline, ResourceKind::RenderPipeline)
        &&& (self.compute_shader is Some && self.render_shader is Some ==> self.compute_shader != self.render_shader)
    }

    /// What the compute pass binds: voxel volume, output texture, global
    /// parameters, camera.
    pub open spec fn compute_bindings(self) -> Seq<Binding> {
        seq![
            Binding { binding: 0, resource: BindingResource::Texture(self.world_texture) },
            Binding { binding: 1, resource: BindingResource::Texture(self.output_texture) },
            Binding { binding: 2, resource: BindingResource::Buffer(self.globals_buffer) },
            Binding { binding: 3, resource: BindingResource::Buffer(self.camera_buffer) },
        ]
    }

    /// What the render pass binds: output texture, global parameters.
    pub open spec fn render_bindings(self) -> Seq<Binding> {
        seq![
            Binding { binding: 0, resource: BindingResource::Texture(self.output_texture) },
            Binding { binding: 1, resource: BindingResource::Buffer(self.globals_buffer) },
        ]
    }

    /// Both bind groups were rebuilt against the current pipelines and resources.
    pub open spec fn bind_groups_fresh(self, a: Seq<Entry>) -> bool {
        &&& bind_fresh(a, self.compute_pipeline, self.compute_bind_group, self.compute_bindings())
        &&& bind_fresh(a, self.render_pipeline, self.render_bind_group, self.render_bindings())
    }

    pub open spec fn shader_of(self, k: ShaderKind) -> Option<Handle> {
        match k {
            ShaderKind::Render => self.render_shader,
            ShaderKind::Compute => self.compute_shader,
        }
    }

    pub open spec fn pipeline_of(self, k: ShaderKind) -> Option<Handle> {
        match k {
            ShaderKind::Render => self.render_pipeline,
            ShaderKind::Compute => self.compute_pipeline,
        }
    }

    pub open spec fn with_stage(self, k: ShaderKind, s: Option<Handle>, p: Option<Handle>) -> Game {
        match k {
            ShaderKind::Render => Game { render_shader: s, render_pipeline: p, ..self },
            ShaderKind::Compute => Game { compute_shader: s, compute_pipeline: p, ..self },
        }
    }

    /// The game and arena after a resize to `width` by `height`: the same
    /// size changes nothing; another size replaces the output texture.
    pub open spec fn resized(self, a: Seq<Entry>, width: u32, height: u32) -> (Game, Seq<Entry>) {
        if width == self.width && height == self.height {
            (self, a)
        } else {
            (
                Game { output_texture: Handle { index: a.len() as usize }, width, height, ..self },
                killed(a, self.output_texture).push(fresh_entry(ResourceKind::Texture, width, height, seq![])),
            )
        }
    }

    /// The game and arena after a rebuild of stage `kind` whose compilation
    /// succeeded (with the workgroup size its entry point declares) or not:
    /// the old pipeline and then the old shader are destroyed; on success a
    /// new shader and a pipeline built from it take the next two handles, and
    /// a compute shader's workgroup size becomes current; otherwise the stage
    /// is empty.
    pub open spec fn reloaded(self, a: Seq<Entry>, kind: ShaderKind, outcome: Option<(u32, u32)>) -> (Game, Seq<Entry>) {
        let a0 = retired(a, self.shader_of(kind), self.pipeline_of(kind));
        let n = a.len();
        if let Some(ws) = outcome {
            let g = if kind == ShaderKind::Compute {
                Game { workgroup_x: ws.0, workgroup_y: ws.1, ..self }
            } else {
                self
            };
            (
                g.with_stage(kind, Some(Handle { index: n as usize }), Some(Handle { index: (n + 1) as usize })),
                a0.push(fresh_entry(ResourceKind::Shader, 0, 0, seq![])).push(
                    fresh_entry(pipeline_kind(kind), 0, 0, seq![Handle { index: n as usize }])),
            )
        } else {
            (self.with_stage(kind, None, None), a0)
        }
    }

    /// The commands one frame records: each stage whose pipeline and bind
    /// group are present and usable gets its pass; the others are skipped.
    pub open spec fn frame_commands(self, a: Seq<Entry>) -> Seq<Command> {
        let compute = match (self.compute_pipeline, self.compute_bind_group) {
            (Some(p), Some(b)) => if usable_in(a, p) && usable_in(a, b) {
                seq![
                    Command::BeginComputePass { pipeline: p, bind_group: b },
                    Command::Dispatch {
                        x: groups_for(self.width, self.workgroup_x) as u32,
                        y: groups_for(self.height, self.workgroup_y) as u32,
                        z: 1,
                    },
                    Command::EndComputePass,
                ]
            } else {
                seq![]
            },
            _ => seq![],
        };
        let render = match (self.render_pipeline, self.render_bind_group) {
            (Some(p), Some(b)) => if usable_in(a, p) && usable_in(a, b) {
                seq![
                    Command::BeginRenderPass { pipeline: p, bind_group: b },
                    Command::Draw { first_vertex: 0, vertex_count: 3, first_instance: 0, instance_count: 1 },
                    Command::EndRenderPass,
                ]
            } else {
                seq![]
            },
            _ => seq![],
        };
        compute + render
    }

    /// Registers the voxel volume's texture, the camera and global-parameter
    /// buffers and an 800 by 600 output texture; no shader is built yet.
    pub fn new(renderer: &mut RendererContext) -> (r: Game)
        requires
            old(renderer).wf(),
        ensures
            final(renderer).wf(),
            r.inv(final(renderer)@),
            r.width == INITIAL_WIDTH && r.height == INITIAL_HEIGHT,
            r.compute_shader is None && r.compute_pipeline is None && r.compute_bind_group is None,
            r.render_shader is None && r.render_pipeline is None && r.render_bind_group is None,
            r.workgroup_x == 1 && r.workgroup_y == 1,
            r.watcher == Debouncer::spec_new(DEBOUNCE_MS),
            ({
                let n = old(renderer)@.len();
                &&& r.world_texture.index == n && r.camera_buffer.index == n + 1
                &&& r.globals_buffer.index == n + 2 && r.output_texture.index == n + 3
                &&& final(renderer)@ == old(renderer)@.push(fresh_entry(ResourceKind::Texture, WORLD_SIZE, WORLD_SIZE, seq![]))
                    .push(fresh_entry(ResourceKind::Buffer, 0, 0, seq![]))
                    .push(fresh_entry(ResourceKind::Buffer, 0, 0, seq![]))
                    .push(fresh_entry(ResourceKind::Texture, INITIAL_WIDTH, INITIAL_HEIGHT, seq![]))
            }),
    {
        let world_texture = renderer.new_texture(WORLD_SIZE, WORLD_SIZE);
        let camera_buffer = renderer.new_buffer();
        let globals_buffer = renderer.new_buffer();
        let output_texture = renderer.new_texture(INITIAL_WIDTH, INITIAL_HEIGHT);
        Game {
            world_texture,
            camera_buffer,
            globals_buffer,
            output_texture,
            width: INITIAL_WIDTH,
            height: INITIAL_HEIGHT,
            workgroup_x: 1,
            workgroup_y: 1,
            compute_shader: None,
            compute_pipeline: None,
            compute_bind_group: None,
            render_shader: None,
            render_pipeline: None,
            render_bind_group: None,
            watcher: Debouncer::new(DEBOUNCE_MS),
        }
    }

    /// Destroys the old bind groups and builds new ones against the current
    /// pipelines and resources; a stage without a pipeline gets none.
    pub fn prepare_rendering(&mut self, renderer: &mut RendererContext)
        requires
            old(renderer).wf(),
            old(self).inv(old(renderer)@),
        ensures
            final(renderer).wf(),
            final(self).inv(final(renderer)@),
            final(self).bind_groups_fresh(final(renderer)@),
            *final(self) == (Game {
                compute_bind_group: final(self).compute_bind_group,
                render_bind_group: final(self).render_bind_group,
                ..*old(self)
            }),
            old(self).compute_bind_group matches Some(b) ==> !final(renderer)@[b.index as int].live,
            old(self).render_bind_group matches Some(b) ==> !final(renderer)@[b.index as int].live,
            final(self).compute_bind_group matches Some(b) ==> b.index >= old(renderer)@.len(),
            final(self).render_bind_group matches Some(b) ==> b.index >= old(renderer)@.len(),
            final(renderer)@.len() >= old(renderer)@.len(),
            forall|i: int| 0 <= i < old(renderer)@.len()
                && old(self).compute_bind_group != Some(Handle { index: i as usize })
                && old(self).render_bind_group != Some(Handle { index: i as usize })
                ==> #[trigger] final(renderer)@[i] == old(renderer)@[i],
    {
        if let Some(b) = self.compute_bind_group {
            let d = renderer.destroy(ResourceKind::BindGroup, b);
            if d.is_err() {
                proof {
                    assert(false);
                }
            }
        }
        self.compute_bind_group = None;
        let ghost a1 = renderer@;
        let cb = vec![
            Binding { binding: 0, resource: BindingResource::Texture(self.world_texture) },
            Binding { binding: 1, resource: BindingResource::Texture(self.output_texture) },
            Binding { binding: 2, resource: BindingResource::Buffer(self.globals_buffer) },
            Binding { binding: 3, resource: BindingResource::Buffer(self.camera_buffer) },
        ];
        assert(cb@ =~= self.compute_bindings());
        if let Some(p) = self.compute_pipeline {
            proof {
                lemma_binds_ok(a1, self.compute_shader.unwrap(), p, ResourceKind::ComputePipeline, cb@);
            }
            match renderer.new_bind_group(p, cb.as_slice()) {
                Ok(b) => {
                    proof {
                        lemma_fresh_usable(renderer@, b, p, cb@);
                    }
                    self.compute_bind_group = Some(b);
                },
                Err(_) => {
                    proof {
                        assert(false);
                    }
                },
            }
        }
        if let Some(b) = self.render_bind_group {
            let d = renderer.destroy(ResourceKind::BindGroup, b);
            if d.is_err() {
                proof {
                    assert(false);
                }
            }
        }
        self.render_bind_group = None;
        let ghost a3 = renderer@;
        let rb = vec![
            Binding { binding: 0, resource: BindingResource::Texture(self.output_texture) },
            Binding { binding: 1, resource: BindingResource::Buffer(self.globals_buffer) },
        ];
        assert(rb@ =~= self.render_bindings());
        if let Some(p) = self.render_pipeline {
            proof {
                lemma_binds_ok(a3, self.render_shader.unwrap(), p, ResourceKind::RenderPipeline, rb@);
            }
            match renderer.new_bind_group(p, rb.as_slice()) {
                Ok(b) => {
                    proof {
                        lemma_fresh_usable(renderer@, b, p, rb@);
                    }
                    self.render_bind_group = Some(b);
                },
                Err(_) => {
                    proof {
                        assert(false);
                    }
                },
            }
        }
    }

    /// Records the compute pass and then the render pass of one frame. A
    /// stage whose pipeline or bind group is missing or not usable is skipped.
    pub fn render(&self, renderer: &RendererContext, frame: &mut Frame)
        requires
            renderer.wf(),
            self.workgroup_x >= 1 && self.workgroup_y >= 1,
        ensures
            final(frame)@ == old(frame)@ + self.frame_commands(renderer@),
    {
        let ghost f0 = frame@;
        if let (Some(p), Some(b)) = (self.compute_pipeline, self.compute_bind_group) {
            if renderer.is_usable(p) && renderer.is_usable(b) {
                frame.push(Command::BeginComputePass { pipeline: p, bind_group: b });
                frame.push(Command::Dispatch {
                    x: groups(self.width, self.workgroup_x),
                    y: groups(self.height, self.workgroup_y),
                    z: 1,
                });
                frame.push(Command::EndComputePass);
            }
        }
        if let (Some(p), Some(b)) = (self.render_pipeline, self.render_bind_group) {
            if renderer.is_usable(p) && renderer.is_usable(b) {
                frame.push(Command::BeginRenderPass { pipeline: p, bind_group: b });
                frame.push(Command::Draw { first_vertex: 0, vertex_count: 3, first_instance: 0, instance_count: 1 });
                frame.push(Command::EndRenderPass);
            }
        }
        assert(frame@ =~= f0 + self.frame_commands(renderer@));
    }

    fn set_stage(&mut self, k: ShaderKind, s: Option<Handle>, p: Option<Handle>)
        ensures
            *final(self) == old(self).with_stage(k, s, p),
    {
        match k {
            ShaderKind::Render => {
                self.render_shader = s;
                self.render_pipeline = p;
            },
            ShaderKind::Compute => {
                self.compute_shader = s;
                self.compute_pipeline = p;
            },
        }
    }

    /// Rebuilds one stage, given the outcome of compiling its new source
    /// (on success, the workgroup size its entry point declares): destroys
    /// its pipeline, then its shader, registers the new shader and, when it
    /// compiled, builds the pipeline again with the stage's fixed layout.
    /// When it did not, the stage is left empty and the compile error is
    /// returned. The other stage is untouched.
    pub fn hot_reload(&mut self, renderer: &mut RendererContext, kind: ShaderKind, compiled: Result<(u32, u32), String>)
        -> (r: Result<(), GameError>)
        requires
            old(renderer).wf(),
            old(self).inv(old(renderer)@),
            compiled matches Ok(ws) ==> ws.0 >= 1 && ws.1 >= 1,
        ensures
            final(renderer).wf(),
            final(self).inv(final(renderer)@),
            r is Ok == compiled is Ok,
            r matches Err(e) ==> e matches GameError::Compile(c) && compiled == Err::<(u32, u32), String>(c.message),
            old(self).reloaded(old(renderer)@, kind, outcome_of(compiled)) == (*final(self), final(renderer)@),
    {
        let ghost a = renderer@;
        let pk = pipeline_kind_exec(kind);
        let (old_s, old_p) = match kind {
            ShaderKind::Render => (self.render_shader, self.render_pipeline),
            ShaderKind::Compute => (self.compute_shader, self.compute_pipeline),
        };
        if let Some(p) = old_p {
            let d = renderer.destroy(pk, p);
            if d.is_err() {
                proof {
                    assert(false);
                }
            }
        }
        if let Some(s) = old_s {
            let d = renderer.destroy(ResourceKind::Shader, s);
            if d.is_err() {
                proof {
                    assert(false);
                }
            }
        }
        let ghost a0 = renderer@;
        assert(a0 == retired(a, old_s, old_p));
        match compiled {
            Ok(ws) => {
                let s = match renderer.add_shader(Ok(())) {
                    Ok(s) => s,
                    Err(e) => {
                        proof {
                            assert(false);
                        }
                        return Err(GameError::Compile(e));
                    },
                };
                let built = match kind {
                    ShaderKind::Render => renderer.new_render_pipeline(s),
                    ShaderKind::Compute => renderer.new_compute_pipeline(s),
                };
                match built {
                    Ok(p) => {
                        if let ShaderKind::Compute = kind {
                            self.workgroup_x = ws.0;
                            self.workgroup_y = ws.1;
                        }
                        self.set_stage(kind, Some(s), Some(p));
                        Ok(())
                    },
                    Err(e) => {
                        proof {
                            assert(false);
                        }
                        Err(GameError::RendererContextError(e))
                    },
                }
            },
            Err(message) => {
                self.set_stage(kind, None, None);
                Err(GameError::Compile(CompileError { message }))
            },
        }
    }

    /// Builds both stages at startup, render first, from the outcomes of
    /// compiling their sources; each result says whether that stage built.
    pub fn init(
        &mut self,
        renderer: &mut RendererContext,
        render_compiled: Result<(u32, u32), String>,
        compute_compiled: Result<(u32, u32), String>,
    ) -> (r: (Result<(), GameError>, Result<(), GameError>))
        requires
            old(renderer).wf(),
            old(self).inv(old(renderer)@),
            render_compiled matches Ok(ws) ==> ws.0 >= 1 && ws.1 >= 1,
            compute_compiled matches Ok(ws) ==> ws.0 >= 1 && ws.1 >= 1,
        ensures
            final(renderer).wf(),
            final(self).inv(final(renderer)@),
            r.0 is Ok == render_compiled is Ok,
            r.1 is Ok == compute_compiled is Ok,
            r.0 matches Err(e) ==> e is Compile,
            r.1 matches Err(e) ==> e is Compile,
            ({
                let (g1, a1) = old(self).reloaded(old(renderer)@, ShaderKind::Render, outcome_of(render_compiled));
                g1.reloaded(a1, ShaderKind::Compute, outcome_of(compute_compiled)) == (*final(self), final(renderer)@)
            }),
    {
        let a = self.hot_reload(renderer, ShaderKind::Render, render_compiled);
        let b = self.hot_reload(renderer, ShaderKind::Compute, compute_compiled);
        (a, b)
    }

    /// Replaces the output texture with one of the new size and records the
    /// size in the global parameters; the same size as now changes nothing.
    pub fn resize(&mut self, renderer: &mut RendererContext, width: u32, height: u32)
        requires
            old(renderer).wf(),
            old(self).inv(old(renderer)@),
        ensures
            final(renderer).wf(),
            final(self).inv(final(renderer)@),
            (*final(self), final(renderer)@) == old(self).resized(old(renderer)@, width, height),
    {
        if width == self.width && height == self.height {
            return;
        }
        let d = renderer.destroy(ResourceKind::Texture, self.output_texture);
        if d.is_err() {
            proof {
                assert(false);
            }
        }
        let t = renderer.new_texture(width, height);
        self.output_texture = t;
        self.width = width;
        self.height = height;
    }

    /// Hands a file-system change to the debouncer.
    pub fn note_change(&mut self, kind: ChangeKind, root: &str, path: &str, now: u64)
        ensures
            *final(self) == (Game { watcher: final(self).watcher, ..*old(self) }),
            final(self).watcher == (match (kind, shader_of_path(root.spec_bytes(), path.spec_bytes())) {
                (ChangeKind::Modify, Some(k)) => old(self).watcher.with_pending(k, Some(now)),
                _ => old(self).watcher,
            }),
    {
        self.watcher.note_change(kind, root, path, now);
    }

    /// The shader, if any, whose edits have settled by `now` and must be
    /// reloaded; at most one per call.
    pub fn poll_change(&mut self, now: u64) -> (r: Option<ShaderKind>)
        ensures
            r == old(self).watcher.next_due(now),
            *final(self) == (Game { watcher: old(self).watcher.after_poll(now), ..*old(self) }),
    {
        self.watcher.poll(now)
    }
}

/// A pipeline built from a live shader, with live resources of the right
/// class in the layout's slots, can be bound.
proof fn lemma_binds_ok(a: Seq<Entry>, s: Handle, p: Handle, kind: ResourceKind, bs: Seq<Binding>)
    requires
        kind == ResourceKind::ComputePipeline || kind == ResourceKind::RenderPipeline,
        live_in(a, s, ResourceKind::Shader),
        live_in(a, p, kind),
        a[p.index as int].deps == seq![s],
        matches_layout(layout_of(kind), bs),
        forall|i: int| 0 <= i < bs.len() ==> live_in(a, handle_of(bs[i].resource), kind_of_resource(bs[i].resource)),
    ensures
        bind_group_error(a, p, bs) is None,
{
    assert(a[p.index as int].deps[0] == s);
    assert(pipeline_ready(a, p));
    assert(!(exists|i: int| 0 <= i < bs.len() && dead_at(a, bs, i)));
}

/// A new bind group whose pipeline and bound resources are live is usable.
proof fn lemma_fresh_usable(a: Seq<Entry>, b: Handle, p: Handle, bs: Seq<Binding>)
    requires
        b.index < a.len(),
        a[b.index as int].live,
        a[b.index as int].deps == seq![p] + handles_of(bs),
        p.index < a.len() && a[p.index as int].live,
        forall|i: int| 0 <= i < bs.len() ==> live_in(a, handle_of(bs[i].resource), kind_of_resource(bs[i].resource)),
    ensures
        usable_in(a, b),
{
    let ds = a[b.index as int].deps;
    assert forall|j: int| 0 <= j < ds.len() implies {
        let d = #[trigger] ds[j];
        d.index < a.len() && a[d.index as int].live
    } by {
        if j > 0 {
            assert(ds[j] == handles_of(bs)[j - 1]);
            assert(live_in(a, handle_of(bs[j - 1].resource), kind_of_resource(bs[j - 1].resource)));
        }
    }
}

/// Whatever sequence of reloads, resizes and frame preparations led to a
/// state that keeps the invariant, each current pipeline is live and the
/// shader it was built from is live: no pipeline in use dangles.
pub proof fn lemma_current_pipelines_ready(g: Game, a: Seq<Entry>)
    requires
        g.inv(a),
    ensures
        g.compute_pipeline matches Some(p) ==> pipeline_ready(a, p)
            && a[p.index as int].deps == seq![g.compute_shader.unwrap()]
            && live_in(a, g.compute_shader.unwrap(), ResourceKind::Shader),
        g.render_pipeline matches Some(p) ==> pipeline_ready(a, p)
            && a[p.index as int].deps == seq![g.render_shader.unwrap()]
            && live_in(a, g.render_shader.unwrap(), ResourceKind::Shader),
{
    if let Some(p) = g.compute_pipeline {
        assert(a[p.index as int].deps[0] == g.compute_shader.unwrap());
    }
    if let Some(p) = g.render_pipeline {
        assert(a[p.index as int].deps[0] == g.render_shader.unwrap());
    }
}

/// The game and arena after a run of stage rebuilds, each given as the stage
/// and, if its source compiled, the workgroup size it declares.
pub open spec fn replay_reloads(g: Game, a: Seq<Entry>, steps: Seq<(ShaderKind, Option<(u32, u32)>)>) -> (Game, Seq<Entry>)
    decreases steps.len(),
{
    if steps.len() == 0 {
        (g, a)
    } else {
        let (g1, a1) = g.reloaded(a, steps[0].0, steps[0].1);
        replay_reloads(g1, a1, steps.drop_first())
    }
}

/// One rebuild, successful or not, keeps the invariant.
pub proof fn lemma_reload_keeps_inv(g: Game, a: Seq<Entry>, kind: ShaderKind, outcome: Option<(u32, u32)>)
    requires
        g.inv(a),
        outcome matches Some(ws) ==> ws.0 >= 1 && ws.1 >= 1,
        a.len() + 2 <= usize::MAX,
    ensures
        ({
            let (g1, a1) = g.reloaded(a, kind, outcome);
            g1.inv(a1)
        }),
{
    let s = g.shader_of(kind);
    let p = g.pipeline_of(kind);
    let a1 = match p {
        Some(p) => killed(a, p),
        None => a,
    };
    let a0 = retired(a, s, p);
    assert(a1.len() == a.len() && a0.len() == a.len());
    // only the stage's own pipeline and shader die
    assert forall|h: Handle, k: ResourceKind|
        live_in(a, h, k) && Some(h) != s && Some(h) != p implies #[trigger] live_in(a0, h, k) by {
        assert(live_in(a1, h, k));
    }
    assert forall|h: Handle| h.index < a.len() implies #[trigger] a0[h.index as int].deps == a[h.index as int].deps
        && a0[h.index as int].kind == a[h.index as int].kind
        && a0[h.index as int].width == a[h.index as int].width
        && a0[h.index as int].height == a[h.index as int].height by {
        assert(a1[h.index as int].deps == a[h.index as int].deps);
    }
    match kind {
        ShaderKind::Render => {
            if let (Some(cs), Some(cp)) = (g.compute_shader, g.compute_pipeline) {
                assert(live_in(a0, cs, ResourceKind::Shader));
                assert(live_in(a0, cp, ResourceKind::ComputePipeline));
            }
            assert(stage_ok(a0, g.compute_shader, g.compute_pipeline, ResourceKind::ComputePipeline));
        },
        ShaderKind::Compute => {
            if let (Some(rs), Some(rp)) = (g.render_shader, g.render_pipeline) {
                assert(live_in(a0, rs, ResourceKind::Shader));
                assert(live_in(a0, rp, ResourceKind::RenderPipeline));
            }
            assert(stage_ok(a0, g.render_shader, g.render_pipeline, ResourceKind::RenderPipeline));
        },
    }
    let (g1, b1) = g.reloaded(a, kind, outcome);
    if outcome is Some {
        let n = a.len();
        assert(b1[n as int].kind == ResourceKind::Shader && b1[n as int].live);
        assert(b1[n as int + 1].deps == seq![Handle { index: n as usize }]);
    }
}

/// After any run of rebuilds from a consistent state, the state is still
/// consistent, so every current pipeline and the shader it was built from are
/// live: no run of reloads leaves a pipeline dangling.
pub proof fn lemma_reloads_never_dangle(g: Game, a: Seq<Entry>, steps: Seq<(ShaderKind, Option<(u32, u32)>)>)
    requires
        g.inv(a),
        a.len() + 2 * steps.len() <= usize::MAX,
        forall|i: int| 0 <= i < steps.len() ==> positive_outcome(#[trigger] steps[i].1),
    ensures
        ({
            let (gn, an) = replay_reloads(g, a, steps);
            &&& gn.inv(an)
            &&& gn.compute_pipeline matches Some(p) ==> pipeline_ready(an, p)
                && live_in(an, gn.compute_shader.unwrap(), ResourceKind::Shader)
            &&& gn.render_pipeline matches Some(p) ==> pipeline_ready(an, p)
                && live_in(an, gn.render_shader.unwrap(), ResourceKind::Shader)
        }),
    decreases steps.len(),
{
    if steps.len() == 0 {
        lemma_current_pipelines_ready(g, a);
    } else {
        let (g1, a1) = g.reloaded(a, steps[0].0, steps[0].1);
        lemma_reload_keeps_inv(g, a, steps[0].0, steps[0].1);
        assert(a1.len() <= a.len() + 2);
        assert forall|i: int| 0 <= i < steps.drop_first().len() implies
            positive_outcome(#[trigger] steps.drop_first()[i].1) by {
            assert(steps.drop_first()[i] == steps[i + 1]);
        }
        lemma_reloads_never_dangle(g1, a1, steps.drop_first());
    }
}

/// Resizing twice to the same size leaves the game and the arena as one
/// resize does.
pub proof fn lemma_resize_idempotent(g: Game, a: Seq<Entry>, width: u32, height: u32)
    ensures
        ({
            let (g1, a1) = g.resized(a, width, height);
            g1.resized(a1, width, height) == (g1, a1)
        }),
{
}

} // verus!

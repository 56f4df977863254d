use vstd::prelude::*;
use crate::layout::{
    compute_layout, fits, slot_matches, handle_of, handles_of, kind_of_resource, layout_of, matches_layout,
    render_layout, Binding, BindingResource, BindingType,
};

verus! {

/// The kinds of GPU object that the arena tracks.
#[derive(Clone, Copy, Debug, PartialEq, Eq, Structural)]
pub enum ResourceKind {
    Shader,
    ComputePipeline,
    RenderPipeline,
    BindGroup,
    Texture,
    Buffer,
}

/// An opaque reference to one slot of the arena.
#[derive(Clone, Copy, Debug, PartialEq, Eq, Structural)]
pub struct Handle {
    pub index: usize,
}

/// What a slot of the arena holds: the object's kind, whether it is still
/// alive, its size (textures only) and the handles it was built from.
pub struct Entry {
    pub kind: ResourceKind,
    pub live: bool,
    pub width: u32,
    pub height: u32,
    pub deps: Seq<Handle>,
}

/// Contract violations of the arena.
#[derive(Clone, Copy, Debug, PartialEq, Eq, Structural)]
pub enum RendererContextError {
    /// The handle is unknown, destroyed, or of another kind than asked for.
    InvalidHandle(Handle),
    /// The bindings do not match the pipeline's binding layout.
    LayoutMismatch,
}

/// A shader source that did not compile, with the compiler's message.
#[derive(Debug)]
pub struct CompileError {
    pub message: String,
}

/// Opaque-handle arena for the GPU objects of one device. Handles are never
/// reused: a destroyed slot stays dead.
pub struct RendererContext {
    kinds: Vec<ResourceKind>,
    live: Vec<bool>,
    sizes: Vec<(u32, u32)>,
    deps: Vec<Vec<Handle>>,
}

impl View for RendererContext {
    type V = Seq<Entry>;

    closed spec fn view(&self) -> Seq<Entry> {
        Seq::new(
            self.kinds@.len(),
            |i: int|
                Entry {
                    kind: self.kinds@[i],
                    live: self.live@[i],
                    width: self.sizes@[i].0,
                    height: self.sizes@[i].1,
                    deps: self.deps@[i]@,
                },
        )
    }
}

/// `h` names a live object of kind `k` in `arena`.
pub open spec fn live_in(arena: Seq<Entry>, h: Handle, k: ResourceKind) -> bool {
    h.index < arena.len() && arena[h.index as int].live && arena[h.index as int].kind == k
}

/// `h` is live and everything it was built from is live too.
pub open spec fn usable_in(arena: Seq<Entry>, h: Handle) -> bool {
    &&& h.index < arena.len()
    &&& arena[h.index as int].live
    &&& forall|j: int| 0 <= j < arena[h.index as int].deps.len() ==> {
        let d = #[trigger] arena[h.index as int].deps[j];
        d.index < arena.len() && arena[d.index as int].live
    }
}

/// The arena after `h` was destroyed.
pub open spec fn killed(arena: Seq<Entry>, h: Handle) -> Seq<Entry> {
    arena.update(h.index as int, Entry { live: false, ..arena[h.index as int] })
}

pub open spec fn fresh_entry(kind: ResourceKind, width: u32, height: u32, deps: Seq<Handle>) -> Entry {
    Entry { kind, live: true, width, height, deps }
}

/// `p` is a live pipeline whose shader is live.
pub open spec fn pipeline_ready(arena: Seq<Entry>, p: Handle) -> bool {
    &&& p.index < arena.len()
    &&& (arena[p.index as int].kind == ResourceKind::ComputePipeline
        || arena[p.index as int].kind == ResourceKind::RenderPipeline)
    &&& usable_in(arena, p)
}

/// The resource bound at position `i` is not a live object of its class.
pub open spec fn dead_at(arena: Seq<Entry>, bs: Seq<Binding>, i: int) -> bool {
    !live_in(arena, handle_of(bs[i].resource), kind_of_resource(bs[i].resource))
}

pub open spec fn first_dead(arena: Seq<Entry>, bs: Seq<Binding>, i: int) -> bool {
    &&& 0 <= i < bs.len()
    &&& dead_at(arena, bs, i)
    &&& forall|j: int| 0 <= j < i ==> !dead_at(arena, bs, j)
}

/// Why a bind group for `p` with bindings `bs` is refused, if it is: a
/// pipeline that is not ready, then a layout mismatch, then the first dead
/// bound resource.
pub open spec fn bind_group_error(arena: Seq<Entry>, p: Handle, bs: Seq<Binding>) -> Option<RendererContextError> {
    if !pipeline_ready(arena, p) {
        Some(RendererContextError::InvalidHandle(p))
    } else if !matches_layout(layout_of(arena[p.index as int].kind), bs) {
        Some(RendererContextError::LayoutMismatch)
    } else if exists|i: int| 0 <= i < bs.len() && dead_at(arena, bs, i) {
        let i = choose|i: int| first_dead(arena, bs, i);
        Some(RendererContextError::InvalidHandle(handle_of(bs[i].resource)))
    } else {
        None
    }
}

fn fits_exec(ty: BindingType, res: BindingResource) -> (r: bool)
    ensures
        r == fits(ty, res),
{
    let uniform = match ty {
        BindingType::UniformBuffer => true,
        _ => false,
    };
    let buffer = match res {
        BindingResource::Buffer(_) => true,
        BindingResource::Texture(_) => false,
    };
    uniform == buffer
}

impl RendererContext {
    pub closed spec fn wf(&self) -> bool {
        &&& self.live@.len() == self.kinds@.len()
        &&& self.sizes@.len() == self.kinds@.len()
        &&& self.deps@.len() == self.kinds@.len()
    }

    /// An empty arena.
    pub fn new() -> (r: RendererContext)
        ensures
            r.wf(),
            r@.len() == 0,
    {
        let r = RendererContext { kinds: Vec::new(), live: Vec::new(), sizes: Vec::new(), deps: Vec::new() };
        assert(r@ =~= Seq::<Entry>::empty());
        r
    }

    fn add(&mut self, kind: ResourceKind, width: u32, height: u32, deps: Vec<Handle>) -> (r: Handle)
        requires
            old(self).wf(),
        ensures
            final(self).wf(),
            r.index == old(self)@.len(),
            final(self)@ == old(self)@.push(fresh_entry(kind, width, height, deps@)),
    {
        let ghost d = deps@;
        let index = self.kinds.len();
        self.kinds.push(kind);
        self.live.push(true);
        self.sizes.push((width, height));
        self.deps.push(deps);
        assert(self@ =~= old(self)@.push(fresh_entry(kind, width, height, d)));
        Handle { index }
    }

    /// Whether `h` names a live object of kind `kind`.
    pub fn is_live(&self, h: Handle, kind: ResourceKind) -> (r: bool)
        requires
            self.wf(),
        ensures
            r == live_in(self@, h, kind),
    {
        h.index < self.kinds.len() && self.live[h.index] && self.kinds[h.index] == kind
    }

    /// Whether `h` and everything it was built from are live.
    pub fn is_usable(&self, h: Handle) -> (r: bool)
        requires
            self.wf(),
        ensures
            r == usable_in(self@, h),
    {
        if h.index >= self.kinds.len() || !self.live[h.index] {
            return false;
        }
        let ds = &self.deps[h.index];
        let mut j: usize = 0;
        while j < ds.len()
            invariant
                self.wf(),
                h.index < self@.len(),
                ds@ == self@[h.index as int].deps,
                j <= ds@.len(),
                forall|i: int| 0 <= i < j ==> {
                    let d = #[trigger] ds@[i];
                    d.index < self@.len() && self@[d.index as int].live
                },
            decreases ds@.len() - j,
        {
            let d = ds[j];
            if d.index >= self.kinds.len() || !self.live[d.index] {
                return false;
            }
            j = j + 1;
        }
        true
    }

    /// The size of a live texture.
    pub fn texture_size(&self, h: Handle) -> (r: Result<(u32, u32), RendererContextError>)
        requires
            self.wf(),
        ensures
            live_in(self@, h, ResourceKind::Texture) ==> r == Ok::<(u32, u32), RendererContextError>(
                (self@[h.index as int].width, self@[h.index as int].height)),
            !live_in(self@, h, ResourceKind::Texture) ==> r == Err::<(u32, u32), RendererContextError>(
                RendererContextError::InvalidHandle(h)),
    {
        if self.is_live(h, ResourceKind::Texture) {
            Ok(self.sizes[h.index])
        } else {
            Err(RendererContextError::InvalidHandle(h))
        }
    }

    /// Registers the outcome of a shader compilation: a compiled module gets
    /// a new handle; a failure becomes a `CompileError` with its message and
    /// leaves the arena as it was.
    pub fn add_shader(&mut self, compiled: Result<(), String>) -> (r: Result<Handle, CompileError>)
        requires
            old(self).wf(),
        ensures
            final(self).wf(),
            r is Ok == compiled is Ok,
            r matches Ok(h) ==> h.index == old(self)@.len()
                && final(self)@ == old(self)@.push(fresh_entry(ResourceKind::Shader, 0, 0, seq![])),
            r matches Err(e) ==> compiled == Err::<(), String>(e.message) && final(self)@ == old(self)@,
    {
        match compiled {
            Ok(()) => {
                let h = self.add(ResourceKind::Shader, 0, 0, Vec::new());
                proof {
                    assert(seq![] =~= Seq::<Handle>::empty());
                }
                Ok(h)
            },
            Err(message) => Err(CompileError { message }),
        }
    }

    fn new_pipeline(&mut self, kind: ResourceKind, shader: Handle) -> (r: Result<Handle, RendererContextError>)
        requires
            old(self).wf(),
        ensures
            final(self).wf(),
            r is Ok == live_in(old(self)@, shader, ResourceKind::Shader),
            r matches Ok(p) ==> p.index == old(self)@.len()
                && final(self)@ == old(self)@.push(fresh_entry(kind, 0, 0, seq![shader])),
            r matches Err(e) ==> e == RendererContextError::InvalidHandle(shader) && final(self)@ == old(self)@,
    {
        if !self.is_live(shader, ResourceKind::Shader) {
            return Err(RendererContextError::InvalidHandle(shader));
        }
        let mut deps: Vec<Handle> = Vec::new();
        deps.push(shader);
        let p = self.add(kind, 0, 0, deps);
        proof {
            assert(final(self)@ =~= old(self)@.push(fresh_entry(kind, 0, 0, seq![shader])));
        }
        Ok(p)
    }

    /// Builds a compute pipeline from a live shader.
    pub fn new_compute_pipeline(&mut self, shader: Handle) -> (r: Result<Handle, RendererContextError>)
        requires
            old(self).wf(),
        ensures
            final(self).wf(),
            r is Ok == live_in(old(self)@, shader, ResourceKind::Shader),
            r matches Ok(p) ==> p.index == old(self)@.len()
                && final(self)@ == old(self)@.push(fresh_entry(ResourceKind::ComputePipeline, 0, 0, seq![shader])),
            r matches Err(e) ==> e == RendererContextError::InvalidHandle(shader) && final(self)@ == old(self)@,
    {
        self.new_pipeline(ResourceKind::ComputePipeline, shader)
    }

    /// Builds a render pipeline from a live shader.
    pub fn new_render_pipeline(&mut self, shader: Handle) -> (r: Result<Handle, RendererContextError>)
        requires
            old(self).wf(),
        ensures
            final(self).wf(),
            r is Ok == live_in(old(self)@, shader, ResourceKind::Shader),
            r matches Ok(p) ==> p.index == old(self)@.len()
                && final(self)@ == old(self)@.push(fresh_entry(ResourceKind::RenderPipeline, 0, 0, seq![shader])),
            r matches Err(e) ==> e == RendererContextError::InvalidHandle(shader) && final(self)@ == old(self)@,
    {
        self.new_pipeline(ResourceKind::RenderPipeline, shader)
    }

    /// Allocates a 2D texture of the given size.
    pub fn new_texture(&mut self, width: u32, height: u32) -> (r: Handle)
        requires
            old(self).wf(),
        ensures
            final(self).wf(),
            r.index == old(self)@.len(),
            final(self)@ == old(self)@.push(fresh_entry(ResourceKind::Texture, width, height, seq![])),
    {
        let h = self.add(ResourceKind::Texture, width, height, Vec::new());
        assert(seq![] =~= Seq::<Handle>::empty());
        h
    }

    /// Allocates a GPU-visible buffer.
    pub fn new_buffer(&mut self) -> (r: Handle)
        requires
            old(self).wf(),
        ensures
            final(self).wf(),
            r.index == old(self)@.len(),
            final(self)@ == old(self)@.push(fresh_entry(ResourceKind::Buffer, 0, 0, seq![])),
    {
        let h = self.add(ResourceKind::Buffer, 0, 0, Vec::new());
        assert(seq![] =~= Seq::<Handle>::empty());
        h
    }

    /// Binds resources to a ready pipeline. The new bind group records the
    /// pipeline and the bound handles, in order, as what it was built from.
    pub fn new_bind_group(&mut self, pipeline: Handle, bindings: &[Binding]) -> (r: Result<Handle, RendererContextError>)
        requires
            old(self).wf(),
        ensures
            final(self).wf(),
            match bind_group_error(old(self)@, pipeline, bindings@) {
                None => r matches Ok(b) && b.index == old(self)@.len() && final(self)@ == old(self)@.push(
                    fresh_entry(ResourceKind::BindGroup, 0, 0, seq![pipeline] + handles_of(bindings@))),
                Some(e) => r == Err::<Handle, RendererContextError>(e) && final(self)@ == old(self)@,
            },
    {
        let ghost arena = self@;
        let ghost bs = bindings@;
        if !(self.is_live(pipeline, ResourceKind::ComputePipeline) || self.is_live(pipeline, ResourceKind::RenderPipeline))
            || !self.is_usable(pipeline) {
            return Err(RendererContextError::InvalidHandle(pipeline));
        }
        let layout = if self.kinds[pipeline.index] == ResourceKind::ComputePipeline {
            compute_layout()
        } else {
            render_layout()
        };
        assert(layout@ == layout_of(arena[pipeline.index as int].kind));
        if layout.len() != bindings.len() {
            assert(!matches_layout(layout@, bs));
            return Err(RendererContextError::LayoutMismatch);
        }
        let mut i: usize = 0;
        while i < bindings.len()
            invariant
                self.wf(),
                self@ == arena,
                bs == bindings@,
                pipeline_ready(arena, pipeline),
                layout@ == layout_of(arena[pipeline.index as int].kind),
                layout@.len() == bindings@.len(),
                i <= bindings@.len(),
                forall|k: int| 0 <= k < i ==> slot_matches(#[trigger] layout@[k], bs[k]),
            decreases bindings@.len() - i,
        {
            if bindings[i].binding != layout[i].binding || !fits_exec(layout[i].ty, bindings[i].resource) {
                assert(!slot_matches(layout@[i as int], bs[i as int]));
                return Err(RendererContextError::LayoutMismatch);
            }
            assert(slot_matches(layout@[i as int], bs[i as int]));
            i = i + 1;
        }
        assert(matches_layout(layout@, bs));
        let mut deps: Vec<Handle> = Vec::new();
        deps.push(pipeline);
        let mut j: usize = 0;
        while j < bindings.len()
            invariant
                self.wf(),
                self@ == arena,
                bs == bindings@,
                pipeline_ready(arena, pipeline),
                matches_layout(layout_of(arena[pipeline.index as int].kind), bs),
                j <= bs.len(),
                forall|k: int| 0 <= k < j ==> !dead_at(arena, bs, k),
                deps@ == seq![pipeline] + handles_of(bs).subrange(0, j as int),
            decreases bs.len() - j,
        {
            let (h, kind) = match bindings[j].resource {
                BindingResource::Texture(h) => (h, ResourceKind::Texture),
                BindingResource::Buffer(h) => (h, ResourceKind::Buffer),
            };
            if !self.is_live(h, kind) {
                assert(first_dead(arena, bs, j as int));
                let ghost c = choose|c: int| first_dead(arena, bs, c);
                assert(c == j) by {
                    if c < j {
                        assert(!dead_at(arena, bs, c));
                    } else if c > j {
                        assert(!dead_at(arena, bs, j as int));
                    }
                }
                return Err(RendererContextError::InvalidHandle(h));
            }
            deps.push(h);
            proof {
                assert(handles_of(bs).subrange(0, j + 1) =~= handles_of(bs).subrange(0, j as int).push(h));
                assert(seq![pipeline] + handles_of(bs).subrange(0, j + 1) =~= (seq![pipeline] + handles_of(bs).subrange(0, j as int)).push(h));
            }
            j = j + 1;
        }
        assert(handles_of(bs).subrange(0, j as int) =~= handles_of(bs));
        let b = self.add(ResourceKind::BindGroup, 0, 0, deps);
        Ok(b)
    }

    /// Destroys a live object of kind `kind`; anything else is refused.
    pub fn destroy(&mut self, kind: ResourceKind, h: Handle) -> (r: Result<(), RendererContextError>)
        requires
            old(self).wf(),
        ensures
            final(self).wf(),
            r is Ok == live_in(old(self)@, h, kind),
            r is Ok ==> final(self)@ == killed(old(self)@, h),
            r matches Err(e) ==> e == RendererContextError::InvalidHandle(h) && final(self)@ == old(self)@,
    {
        if !self.is_live(h, kind) {
            return Err(RendererContextError::InvalidHandle(h));
        }
        self.live.set(h.index, false);
        assert(self@ =~= killed(old(self)@, h));
        Ok(())
    }
}

} // verus!

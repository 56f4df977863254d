use vstd::prelude::*;
use crate::resources::{Handle, ResourceKind};

verus! {

/// The shader stage that sees a binding.
#[derive(Clone, Copy, Debug, PartialEq, Eq, Structural)]
pub enum ShaderStage {
    Fragment,
    Compute,
}

/// What a binding slot expects.
#[derive(Clone, Copy, Debug, PartialEq, Eq, Structural)]
pub enum BindingType {
    /// A sampled 2D texture of unsigned integers.
    SampledUintTexture,
    /// A write-only 2D storage texture in the output pixel format.
    WriteOnlyStorageTexture,
    /// The voxel volume, read-only.
    VoxelVolume,
    /// A uniform buffer.
    UniformBuffer,
}

/// One slot of a pipeline's binding layout.
#[derive(Clone, Copy, Debug, PartialEq, Eq, Structural)]
pub struct LayoutEntry {
    pub binding: u32,
    pub visibility: ShaderStage,
    pub ty: BindingType,
}

/// The object bound to a slot.
#[derive(Clone, Copy, Debug, PartialEq, Eq, Structural)]
pub enum BindingResource {
    Texture(Handle),
    Buffer(Handle),
}

/// A concrete binding: a slot number and what is bound there.
#[derive(Clone, Copy, Debug, PartialEq, Eq, Structural)]
pub struct Binding {
    pub binding: u32,
    pub resource: BindingResource,
}

pub open spec fn entry(binding: u32, visibility: ShaderStage, ty: BindingType) -> LayoutEntry {
    LayoutEntry { binding, visibility, ty }
}

/// The render pipeline's layout: the output texture and the global parameters,
/// both seen by the fragment stage.
pub open spec fn render_layout_spec() -> Seq<LayoutEntry> {
    seq![
        entry(0, ShaderStage::Fragment, BindingType::SampledUintTexture),
        entry(1, ShaderStage::Fragment, BindingType::UniformBuffer),
    ]
}

/// The compute pipeline's layout: the voxel volume, the output texture, the
/// global parameters and the camera, all seen by the compute stage.
pub open spec fn compute_layout_spec() -> Seq<LayoutEntry> {
    seq![
        entry(0, ShaderStage::Compute, BindingType::VoxelVolume),
        entry(1, ShaderStage::Compute, BindingType::WriteOnlyStorageTexture),
        entry(2, ShaderStage::Compute, BindingType::UniformBuffer),
        entry(3, ShaderStage::Compute, BindingType::UniformBuffer),
    ]
}

/// The layout of a pipeline of the given kind.
pub open spec fn layout_of(kind: ResourceKind) -> Seq<LayoutEntry> {
    if kind == ResourceKind::ComputePipeline {
        compute_layout_spec()
    } else {
        render_layout_spec()
    }
}

pub open spec fn handle_of(r: BindingResource) -> Handle {
    match r {
        BindingResource::Texture(h) => h,
        BindingResource::Buffer(h) => h,
    }
}

pub open spec fn kind_of_resource(r: BindingResource) -> ResourceKind {
    match r {
        BindingResource::Texture(_) => ResourceKind::Texture,
        BindingResource::Buffer(_) => ResourceKind::Buffer,
    }
}

/// A buffer goes to a uniform slot, a texture to any other.
pub open spec fn fits(ty: BindingType, r: BindingResource) -> bool {
    (ty == BindingType::UniformBuffer) == (r is Buffer)
}

/// The bindings match the layout exactly: same count, same slot numbers, and
/// a resource of the right class in each.
pub open spec fn matches_layout(layout: Seq<LayoutEntry>, bs: Seq<Binding>) -> bool {
    &&& bs.len() == layout.len()
    &&& forall|i: int| 0 <= i < bs.len() ==> slot_matches(#[trigger] layout[i], bs[i])
}

pub open spec fn slot_matches(e: LayoutEntry, b: Binding) -> bool {
    b.binding == e.binding && fits(e.ty, b.resource)
}

pub open spec fn handles_of(bs: Seq<Binding>) -> Seq<Handle> {
    bs.map_values(|b: Binding| handle_of(b.resource))
}

/// The binding layout of render pipelines.
pub fn render_layout() -> (r: Vec<LayoutEntry>)
    ensures
        r@ == render_layout_spec(),
{
    let r = vec![
        LayoutEntry { binding: 0, visibility: ShaderStage::Fragment, ty: BindingType::SampledUintTexture },
        LayoutEntry { binding: 1, visibility: ShaderStage::Fragment, ty: BindingType::UniformBuffer },
    ];
    assert(r@ =~= render_layout_spec());
    r
}

/// The binding layout of compute pipelines.
pub fn compute_layout() -> (r: Vec<LayoutEntry>)
    ensures
        r@ == compute_layout_spec(),
{
    let r = vec![
        LayoutEntry { binding: 0, visibility: ShaderStage::Compute, ty: BindingType::VoxelVolume },
        LayoutEntry { binding: 1, visibility: ShaderStage::Compute, ty: BindingType::WriteOnlyStorageTexture },
        LayoutEntry { binding: 2, visibility: ShaderStage::Compute, ty: BindingType::UniformBuffer },
        LayoutEntry { binding: 3, visibility: ShaderStage::Compute, ty: BindingType::UniformBuffer },
    ];
    assert(r@ =~= compute_layout_spec());
    r
}

} // verus!

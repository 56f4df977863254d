use voxel_frame::game::{movement, Command, Frame, Game, GameError, MoveKeys};
use voxel_frame::nesting::{nesting_within_limit, MAX_NESTING};
use voxel_frame::layout::{compute_layout, render_layout, Binding, BindingResource, BindingType};
use voxel_frame::resources::{Handle, RendererContext, RendererContextError, ResourceKind};
use voxel_frame::watcher::{shader_for_path, ChangeKind, Debouncer, ShaderKind};

const RENDER_SRC: &str = "@vertex\nfn vs_main(@builtin(vertex_index) i: u32) -> @builtin(position) vec4<f32> {\n    return vec4<f32>(0.0, 0.0, 0.0, 1.0);\n}\n\n@fragment\nfn fs_main() -> @location(0) vec4<f32> {\n    return vec4<f32>(1.0, 1.0, 1.0, 1.0);\n}\n";
const COMPUTE_SRC: &str = "@compute @workgroup_size(8, 8, 1)\nfn main(@builtin(global_invocation_id) id: vec3<u32>) {\n}\n";
const BROKEN_SRC: &str = "@compute @workgroup_size(8, 8, 1)\nfn main( {\n";
const ROOT: &str = "./src/shaders";

/// Compiles WGSL the way the application does: naga's WGSL front end, and the
/// workgroup size of the compute entry point, if there is one.
fn compile(source: &str) -> Result<(u32, u32), String> {
    match wgpu::naga::front::wgsl::parse_str(source) {
        Ok(module) => Ok(module
            .entry_points
            .iter()
            .find(|e| e.stage == wgpu::naga::ShaderStage::Compute)
            .map(|e| (e.workgroup_size[0], e.workgroup_size[1]))
            .unwrap_or((1, 1))),
        Err(e) => Err(e.message().to_string()),
    }
}

fn register(rc: &mut RendererContext, source: &str) -> Result<Handle, voxel_frame::resources::CompileError> {
    rc.add_shader(compile(source).map(|_| ()))
}

fn started() -> (RendererContext, Game) {
    let mut rc = RendererContext::new();
    let mut g = Game::new(&mut rc);
    let (a, b) = g.init(&mut rc, compile(RENDER_SRC), compile(COMPUTE_SRC));
    assert!(a.is_ok());
    assert!(b.is_ok());
    (rc, g)
}

fn frame_of(g: &Game, rc: &RendererContext) -> Vec<Command> {
    let mut f = Frame::new();
    g.render(rc, &mut f);
    f.commands().clone()
}

#[test]
fn first_frame_dispatches_and_draws() {
    let (mut rc, mut g) = started();
    g.prepare_rendering(&mut rc);
    let cmds = frame_of(&g, &rc);
    let cp = g.compute_pipeline.unwrap();
    let cb = g.compute_bind_group.unwrap();
    let rp = g.render_pipeline.unwrap();
    let rb = g.render_bind_group.unwrap();
    assert_eq!(
        cmds,
        vec![
            Command::BeginComputePass { pipeline: cp, bind_group: cb },
            Command::Dispatch { x: 100, y: 75, z: 1 },
            Command::EndComputePass,
            Command::BeginRenderPass { pipeline: rp, bind_group: rb },
            Command::Draw { first_vertex: 0, vertex_count: 3, first_instance: 0, instance_count: 1 },
            Command::EndRenderPass,
        ]
    );
}

#[test]
fn edited_compute_shader_is_rebuilt_after_debounce() {
    let (mut rc, mut g) = started();
    let old_shader = g.compute_shader.unwrap();
    let old_pipeline = g.compute_pipeline.unwrap();
    g.note_change(ChangeKind::Modify, ROOT, "./src/shaders/compute.wgsl", 1_000);
    assert_eq!(g.poll_change(3_000), None);
    let due = g.poll_change(6_000);
    assert_eq!(due, Some(ShaderKind::Compute));
    assert!(g.hot_reload(&mut rc, ShaderKind::Compute, compile(COMPUTE_SRC)).is_ok());
    let new_pipeline = g.compute_pipeline.unwrap();
    assert_ne!(new_pipeline, old_pipeline);
    assert!(!rc.is_live(old_shader, ResourceKind::Shader));
    assert!(!rc.is_live(old_pipeline, ResourceKind::ComputePipeline));
    assert!(rc.is_live(new_pipeline, ResourceKind::ComputePipeline));
    assert_eq!(g.poll_change(20_000), None);
}

#[test]
fn broken_compute_shader_empties_the_slot() {
    let (mut rc, mut g) = started();
    let render_pipeline = g.render_pipeline;
    let r = g.hot_reload(&mut rc, ShaderKind::Compute, compile(BROKEN_SRC));
    assert!(matches!(r, Err(GameError::Compile(_))));
    assert_eq!(g.compute_pipeline, None);
    assert_eq!(g.compute_shader, None);
    assert_eq!(g.render_pipeline, render_pipeline);
    assert!(rc.is_live(render_pipeline.unwrap(), ResourceKind::RenderPipeline));
    g.prepare_rendering(&mut rc);
    assert_eq!(g.compute_bind_group, None);
    let cmds = frame_of(&g, &rc);
    assert_eq!(cmds.len(), 3);
    assert!(matches!(cmds[0], Command::BeginRenderPass { .. }));
    assert_eq!(cmds[1], Command::Draw { first_vertex: 0, vertex_count: 3, first_instance: 0, instance_count: 1 });
    // a second frame does not fail either
    g.prepare_rendering(&mut rc);
    assert_eq!(frame_of(&g, &rc).len(), 3);
}

#[test]
fn resize_reports_new_dimensions() {
    let (mut rc, mut g) = started();
    let old_texture = g.output_texture;
    g.resize(&mut rc, 1024, 768);
    assert_eq!(rc.texture_size(g.output_texture), Ok((1024, 768)));
    assert_eq!((g.width, g.height), (1024, 768));
    assert_eq!(rc.texture_size(old_texture), Err(RendererContextError::InvalidHandle(old_texture)));
    g.prepare_rendering(&mut rc);
    let cmds = frame_of(&g, &rc);
    assert_eq!(cmds[1], Command::Dispatch { x: 128, y: 96, z: 1 });
}

#[test]
fn resize_twice_equals_once() {
    let (mut rc, mut g) = started();
    g.resize(&mut rc, 1024, 768);
    let once = g;
    let texture = rc.texture_size(g.output_texture);
    g.resize(&mut rc, 1024, 768);
    assert_eq!(g, once);
    assert_eq!(rc.texture_size(g.output_texture), texture);
}

#[test]
fn partial_workgroups_round_up() {
    let (mut rc, mut g) = started();
    g.resize(&mut rc, 801, 601);
    g.prepare_rendering(&mut rc);
    let cmds = frame_of(&g, &rc);
    assert_eq!(cmds[1], Command::Dispatch { x: 101, y: 76, z: 1 });
}

#[test]
fn frame_after_resize_uses_fresh_bind_groups() {
    let (mut rc, mut g) = started();
    g.prepare_rendering(&mut rc);
    let old_group = g.compute_bind_group.unwrap();
    g.resize(&mut rc, 640, 480);
    // before the next preparation the stale bind group is not used
    let stale = frame_of(&g, &rc);
    assert!(!stale.iter().any(|c| matches!(c, Command::BeginComputePass { .. })));
    g.prepare_rendering(&mut rc);
    let group = g.compute_bind_group.unwrap();
    assert_ne!(group, old_group);
    assert!(!rc.is_live(old_group, ResourceKind::BindGroup));
    assert!(rc.is_usable(group));
    assert_eq!(frame_of(&g, &rc).len(), 6);
}

#[test]
fn burst_of_edits_rebuilds_once() {
    let mut d = Debouncer::new(5_000);
    let mut handed_out = 0;
    let mut t: u64 = 0;
    while t < 4_000 {
        d.record(ShaderKind::Render, t);
        if d.poll(t + 50).is_some() {
            handed_out += 1;
        }
        t += 400;
    }
    for now in [9_000u64, 10_000, 30_000] {
        if d.poll(now).is_some() {
            handed_out += 1;
        }
    }
    assert_eq!(handed_out, 1);
}

#[test]
fn poll_hands_out_one_shader_at_a_time() {
    let mut d = Debouncer::new(5_000);
    d.record(ShaderKind::Compute, 10);
    d.record(ShaderKind::Render, 20);
    assert_eq!(d.poll(5_005), None);
    assert_eq!(d.poll(5_020), Some(ShaderKind::Render));
    assert_eq!(d.poll(5_020), Some(ShaderKind::Compute));
    assert_eq!(d.poll(5_020), None);
}

#[test]
fn only_modifications_count() {
    let mut d = Debouncer::new(5_000);
    d.note_change(ChangeKind::Create, ROOT, "./src/shaders/render.wgsl", 0);
    d.note_change(ChangeKind::Remove, ROOT, "./src/shaders/compute.wgsl", 0);
    d.note_change(ChangeKind::Modify, ROOT, "./src/shaders/notes.txt", 0);
    assert_eq!(d, Debouncer::new(5_000));
    d.note_change(ChangeKind::Modify, ROOT, "./src/shaders/render.wgsl", 7);
    assert_eq!(d.render, Some(7));
}

#[test]
fn paths_resolve_to_shader_stems() {
    assert_eq!(shader_for_path(ROOT, "./src/shaders/render.wgsl"), Some(ShaderKind::Render));
    assert_eq!(shader_for_path(ROOT, "./src/shaders/compute.wgsl"), Some(ShaderKind::Compute));
    assert_eq!(shader_for_path(ROOT, "./src/shaders/sub/compute"), Some(ShaderKind::Compute));
    assert_eq!(shader_for_path(ROOT, "./src/shaders/render.wgsl.bak"), None);
    assert_eq!(shader_for_path(ROOT, "./src/shaders/.render"), None);
    assert_eq!(shader_for_path(ROOT, "./src/shaders/renderer.wgsl"), None);
    assert_eq!(shader_for_path(ROOT, "./other/render.wgsl"), None);
    assert_eq!(shader_for_path(ROOT, "./src/shadersx/render.wgsl"), None);
    assert_eq!(shader_for_path(ROOT, ROOT), None);
}

#[test]
fn destroying_twice_is_refused() {
    let mut rc = RendererContext::new();
    let t = rc.new_texture(4, 4);
    assert_eq!(rc.destroy(ResourceKind::Texture, t), Ok(()));
    assert_eq!(rc.destroy(ResourceKind::Texture, t), Err(RendererContextError::InvalidHandle(t)));
    let b = rc.new_buffer();
    assert_eq!(rc.destroy(ResourceKind::Texture, b), Err(RendererContextError::InvalidHandle(b)));
    let unknown = Handle { index: 99 };
    assert_eq!(rc.destroy(ResourceKind::Buffer, unknown), Err(RendererContextError::InvalidHandle(unknown)));
}

#[test]
fn shader_compile_result_follows_the_source() {
    let mut rc = RendererContext::new();
    assert!(register(&mut rc, COMPUTE_SRC).is_ok());
    let e = register(&mut rc, BROKEN_SRC);
    assert!(e.is_err());
    assert!(!e.unwrap_err().message.is_empty());
}

#[test]
fn pipeline_needs_a_live_shader() {
    let mut rc = RendererContext::new();
    let s = register(&mut rc, RENDER_SRC).unwrap();
    let p = rc.new_render_pipeline(s).unwrap();
    assert!(rc.is_usable(p));
    assert_eq!(rc.destroy(ResourceKind::Shader, s), Ok(()));
    assert!(!rc.is_usable(p));
    assert_eq!(rc.new_compute_pipeline(s), Err(RendererContextError::InvalidHandle(s)));
}

#[test]
fn bind_groups_must_match_the_layout() {
    let mut rc = RendererContext::new();
    let s = register(&mut rc, RENDER_SRC).unwrap();
    let p = rc.new_render_pipeline(s).unwrap();
    let t = rc.new_texture(8, 8);
    let u = rc.new_buffer();
    let good = [
        Binding { binding: 0, resource: BindingResource::Texture(t) },
        Binding { binding: 1, resource: BindingResource::Buffer(u) },
    ];
    let swapped = [
        Binding { binding: 0, resource: BindingResource::Buffer(u) },
        Binding { binding: 1, resource: BindingResource::Texture(t) },
    ];
    assert_eq!(rc.new_bind_group(p, &swapped), Err(RendererContextError::LayoutMismatch));
    assert_eq!(rc.new_bind_group(p, &good[..1]), Err(RendererContextError::LayoutMismatch));
    assert_eq!(rc.new_bind_group(t, &good), Err(RendererContextError::InvalidHandle(t)));
    let g = rc.new_bind_group(p, &good).unwrap();
    assert!(rc.is_usable(g));
    assert_eq!(rc.destroy(ResourceKind::Texture, t), Ok(()));
    assert!(!rc.is_usable(g));
    assert_eq!(rc.new_bind_group(p, &good), Err(RendererContextError::InvalidHandle(t)));
}

#[test]
fn layouts_are_fixed_per_pipeline_kind() {
    let r = render_layout();
    assert_eq!(r.len(), 2);
    assert_eq!(r[0].ty, BindingType::SampledUintTexture);
    assert_eq!(r[1].ty, BindingType::UniformBuffer);
    let c = compute_layout();
    assert_eq!(c.len(), 4);
    assert_eq!(c[1].ty, BindingType::WriteOnlyStorageTexture);
    assert_eq!(c[3].binding, 3);
}

#[test]
fn held_keys_give_a_direction() {
    let none = MoveKeys { forward: false, back: false, right: false, left: false, up: false, down: false };
    assert_eq!(movement(none), (0, 0, 0));
    assert_eq!(movement(MoveKeys { forward: true, right: true, ..none }), (1, 0, 1));
    assert_eq!(movement(MoveKeys { back: true, left: true, down: true, ..none }), (-1, -1, -1));
    assert_eq!(movement(MoveKeys { up: true, down: true, ..none }), (0, 0, 0));
}

#[test]
fn failed_compilation_outcome_empties_the_stage() {
    let (mut rc, mut g) = started();
    let old_shader = g.render_shader.unwrap();
    let r = g.hot_reload(&mut rc, ShaderKind::Render, Err("boom".to_string()));
    match r {
        Err(GameError::Compile(c)) => assert_eq!(c.message, "boom"),
        _ => panic!("expected a compile error"),
    }
    assert_eq!(g.render_pipeline, None);
    assert!(!rc.is_live(old_shader, ResourceKind::Shader));
    assert!(g.compute_pipeline.is_some());
    assert!(g.hot_reload(&mut rc, ShaderKind::Render, Ok((1, 1))).is_ok());
    assert!(rc.is_usable(g.render_pipeline.unwrap()));
}

#[test]
fn registering_a_compiled_shader() {
    let mut rc = RendererContext::new();
    let h = rc.add_shader(Ok(())).unwrap();
    assert_eq!(h, Handle { index: 0 });
    assert!(rc.is_live(h, ResourceKind::Shader));
    let e = rc.add_shader(Err("bad token".to_string()));
    assert_eq!(e.unwrap_err().message, "bad token");
    assert_eq!(rc.new_texture(1, 1), Handle { index: 1 });
}

#[test]
fn nothing_compiles_nothing_is_drawn() {
    let mut rc = RendererContext::new();
    let mut g = Game::new(&mut rc);
    let (a, b) = g.init(&mut rc, compile(BROKEN_SRC), compile(BROKEN_SRC));
    assert!(a.is_err() && b.is_err());
    g.prepare_rendering(&mut rc);
    assert!(frame_of(&g, &rc).is_empty());
}

#[test]
fn reload_sequence_never_leaves_a_dangling_pipeline() {
    let (mut rc, mut g) = started();
    let steps = [
        (ShaderKind::Compute, COMPUTE_SRC),
        (ShaderKind::Render, BROKEN_SRC),
        (ShaderKind::Compute, BROKEN_SRC),
        (ShaderKind::Render, RENDER_SRC),
        (ShaderKind::Compute, COMPUTE_SRC),
        (ShaderKind::Compute, COMPUTE_SRC),
    ];
    for (kind, src) in steps {
        let ok = g.hot_reload(&mut rc, kind, compile(src)).is_ok();
        assert_eq!(ok, src != BROKEN_SRC);
        for (shader, pipeline, pk) in [
            (g.compute_shader, g.compute_pipeline, ResourceKind::ComputePipeline),
            (g.render_shader, g.render_pipeline, ResourceKind::RenderPipeline),
        ] {
            assert_eq!(shader.is_some(), pipeline.is_some());
            if let (Some(s), Some(p)) = (shader, pipeline) {
                assert!(rc.is_live(s, ResourceKind::Shader));
                assert!(rc.is_live(p, pk));
                assert!(rc.is_usable(p));
            }
        }
    }
    assert!(g.compute_pipeline.is_some() && g.render_pipeline.is_some());
}

#[test]
fn prepare_after_reload_binds_the_new_pipeline() {
    let (mut rc, mut g) = started();
    g.prepare_rendering(&mut rc);
    let old_group = g.compute_bind_group.unwrap();
    assert!(g.hot_reload(&mut rc, ShaderKind::Compute, compile(COMPUTE_SRC)).is_ok());
    // the old bind group still names the destroyed pipeline and is not used
    assert!(!rc.is_usable(old_group));
    let stale = frame_of(&g, &rc);
    assert_eq!(stale.len(), 3);
    g.prepare_rendering(&mut rc);
    assert!(!rc.is_live(old_group, ResourceKind::BindGroup));
    let cmds = frame_of(&g, &rc);
    assert_eq!(
        cmds[0],
        Command::BeginComputePass { pipeline: g.compute_pipeline.unwrap(), bind_group: g.compute_bind_group.unwrap() }
    );
}

#[test]
fn dispatch_follows_the_declared_workgroup_size() {
    let (mut rc, mut g) = started();
    assert_eq!((g.workgroup_x, g.workgroup_y), (8, 8));
    let small = "@compute @workgroup_size(4, 4, 1)\nfn main() {\n}\n";
    assert_eq!(compile(small), Ok((4, 4)));
    assert!(g.hot_reload(&mut rc, ShaderKind::Compute, compile(small)).is_ok());
    g.prepare_rendering(&mut rc);
    assert_eq!(frame_of(&g, &rc)[1], Command::Dispatch { x: 200, y: 150, z: 1 });
    assert!(g.hot_reload(&mut rc, ShaderKind::Compute, Ok((16, 7))).is_ok());
    g.prepare_rendering(&mut rc);
    assert_eq!(frame_of(&g, &rc)[1], Command::Dispatch { x: 50, y: 86, z: 1 });
    // a render reload leaves the compute workgroup as it was
    assert!(g.hot_reload(&mut rc, ShaderKind::Render, Ok((1, 1))).is_ok());
    assert_eq!((g.workgroup_x, g.workgroup_y), (16, 7));
}

#[test]
fn new_game_registers_four_resources_and_no_shader() {
    let mut rc = RendererContext::new();
    let g = Game::new(&mut rc);
    assert_eq!(g.world_texture, Handle { index: 0 });
    assert_eq!(g.camera_buffer, Handle { index: 1 });
    assert_eq!(g.globals_buffer, Handle { index: 2 });
    assert_eq!(g.output_texture, Handle { index: 3 });
    assert_eq!(rc.texture_size(g.output_texture), Ok((800, 600)));
    assert!(g.compute_shader.is_none() && g.render_shader.is_none());
    assert!(g.compute_pipeline.is_none() && g.render_pipeline.is_none());
    assert!(!rc.is_live(Handle { index: 4 }, ResourceKind::Shader));
}

#[test]
fn deep_nesting_is_refused_before_compiling() {
    assert!(nesting_within_limit(COMPUTE_SRC));
    assert!(nesting_within_limit(RENDER_SRC));
    let deep = format!("fn f() -> i32 {{ return {}1{}; }}", "(".repeat(100), ")".repeat(100));
    assert!(!nesting_within_limit(&deep));
    let just = format!("{}{}", "(".repeat(64), ")".repeat(64));
    assert!(nesting_within_limit(&just));
    let over = format!("{}{}", "(".repeat(65), ")".repeat(65));
    assert!(!nesting_within_limit(&over));
    let unary = format!("let x = {}1;", "- ".repeat(70));
    assert!(!nesting_within_limit(&unary));
    let generic = "var<private> a: array<array<vec4<f32>, 2>, 2>;";
    assert!(nesting_within_limit(generic));
    assert_eq!(MAX_NESTING, 64);
}

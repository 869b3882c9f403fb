use shader_lab::controls::{surface_recovery, Recovery, SurfaceProblem};
use shader_lab::names::NameMap;
use shader_lab::plan::{noise_blur_plan, scene_plan, voronoi_plan, Clear, Output};
use shader_lab::scene::SceneType;
use shader_lab::targets::RenderTargets;

#[test]
fn noise_blur_runs_noise_then_blurs_then_composite() {
    let p = noise_blur_plan();
    assert_eq!(p.targets, vec!["noise_target", "blur_h_target", "blur_v_target"]);
    let labels: Vec<&str> = p.passes.iter().map(|x| x.label.as_str()).collect();
    assert_eq!(labels, vec!["noise_pass", "blur_h_pass", "blur_v_pass", "composite_pass"]);
    let shaders: Vec<&str> = p.passes.iter().map(|x| x.shader.as_str()).collect();
    assert_eq!(
        shaders,
        vec![
            "noise_blur/noise.wgsl",
            "noise_blur/blur_h.wgsl",
            "noise_blur/blur_v.wgsl",
            "noise_blur/composite.wgsl"
        ]
    );
    assert!(matches!(&p.passes[1].output, Output::Target(n) if n == "blur_h_target"));
    assert_eq!(p.passes[1].inputs, vec!["noise_target"]);
    assert_eq!(p.passes[2].inputs, vec!["blur_h_target"]);
    assert_eq!(p.passes[3].inputs, vec!["noise_target", "blur_v_target"]);
    assert!(matches!(p.passes[3].output, Output::Surface));
    assert_eq!(p.passes[3].clear, Clear::Backdrop);
    assert_eq!(p.passes[0].bind_group_label, None);
    assert_eq!(p.passes[1].layout_label.as_deref(), Some("single_texture_layout"));
    assert_eq!(p.passes[3].layout_label.as_deref(), Some("composite_layout"));
    assert_eq!(p.passes[2].bind_group_label.as_deref(), Some("blur_v_bind_group"));
}

#[test]
fn voronoi_is_one_pass_to_the_surface() {
    let p = voronoi_plan();
    assert!(p.targets.is_empty());
    assert_eq!(p.passes.len(), 1);
    assert_eq!(p.passes[0].pipeline_label, "voronoi_pipeline");
    assert_eq!(p.passes[0].shader, "voronoi/voronoi.wgsl");
    assert!(matches!(p.passes[0].output, Output::Surface));
    assert_eq!(p.passes[0].clear, Clear::Black);
}

#[test]
fn plans_by_scene() {
    assert!(scene_plan(SceneType::NoiseBlur).is_some());
    assert!(scene_plan(SceneType::Voronoi).is_some());
    assert!(scene_plan(SceneType::Sobel).is_none());
}

#[test]
fn every_sampled_target_was_drawn_before() {
    for p in [noise_blur_plan(), voronoi_plan()] {
        for (i, pass) in p.passes.iter().enumerate() {
            for input in &pass.inputs {
                assert!(p.passes[..i]
                    .iter()
                    .any(|q| matches!(&q.output, Output::Target(n) if n == input)));
            }
        }
    }
}

#[test]
fn render_targets_by_name() {
    let mut t: RenderTargets<u32> = RenderTargets::new(0, 720);
    assert_eq!(t.extent(), (1, 720));
    t.insert("a".to_string(), 1);
    t.insert("b".to_string(), 2);
    t.insert("a".to_string(), 3);
    assert_eq!(*t.view("a"), 3);
    assert_eq!(t.get("b"), Some(&2));
    t.reset(1280, 0);
    assert_eq!(t.extent(), (1280, 1));
    assert_eq!(t.get("a"), None);
}

#[test]
fn name_map_basics() {
    let mut m: NameMap<i32> = NameMap::new();
    m.insert("x".to_string(), 1);
    assert_eq!(m.get("x"), Some(&1));
    m.clear();
    assert_eq!(m.get("x"), None);
}

#[test]
fn surface_problems() {
    assert_eq!(surface_recovery(SurfaceProblem::Lost), Recovery::Reconfigure);
    assert_eq!(surface_recovery(SurfaceProblem::Outdated), Recovery::Reconfigure);
    assert_eq!(surface_recovery(SurfaceProblem::OutOfMemory), Recovery::Exit);
    assert_eq!(surface_recovery(SurfaceProblem::Timeout), Recovery::Skip);
    assert_eq!(surface_recovery(SurfaceProblem::Other), Recovery::Skip);
}

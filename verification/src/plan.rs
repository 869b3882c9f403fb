//! The render passes of each scene, as data: which pipeline draws each pass,
//! where it draws to, and which earlier results it samples. The GPU objects
//! are built from this plan outside the library.

use vstd::prelude::*;
use crate::scene::SceneType;

verus! {

/// How a pass's attachment is cleared before drawing.
#[derive(Debug, Clone, Copy, PartialEq, Eq, Structural)]
pub enum Clear {
    /// Opaque black.
    Black,
    /// The dark backdrop behind the final image.
    Backdrop,
}

/// Where a pass draws, as a value.
pub enum OutputView {
    Target(Seq<char>),
    Surface,
}

/// Where a pass draws: an offscreen target by name, or the window surface.
pub enum Output {
    Target(String),
    Surface,
}

impl View for Output {
    type V = OutputView;

    open spec fn view(&self) -> OutputView {
        match self {
            Output::Target(name) => OutputView::Target(name@),
            Output::Surface => OutputView::Surface,
        }
    }
}

/// One full-screen pass, as values.
pub struct PassView {
    pub label: Seq<char>,
    pub pipeline_label: Seq<char>,
    pub shader: Seq<char>,
    pub output: OutputView,
    pub clear: Clear,
    pub inputs: Seq<Seq<char>>,
    pub bind_group_label: Option<Seq<char>>,
    pub layout_label: Option<Seq<char>>,
}

/// One full-screen pass.
pub struct Pass {
    /// The label of the render pass.
    pub label: String,
    /// The label of the pipeline that draws it.
    pub pipeline_label: String,
    /// The shader source, relative to the shader root.
    pub shader: String,
    /// Where it draws.
    pub output: Output,
    /// How its attachment is cleared.
    pub clear: Clear,
    /// The targets it samples, bound after the sampler in this order.
    pub inputs: Vec<String>,
    /// The label of the bind group holding its inputs, when it has inputs.
    pub bind_group_label: Option<String>,
    /// The label of the layout of that bind group, when it has inputs.
    pub layout_label: Option<String>,
}

/// An optional label, as a value.
pub open spec fn label_view(l: Option<String>) -> Option<Seq<char>> {
    match l {
        Some(s) => Some(s@),
        None => None,
    }
}

/// Names, as values.
pub open spec fn names_view(v: Seq<String>) -> Seq<Seq<char>> {
    v.map_values(|s: String| s@)
}

impl View for Pass {
    type V = PassView;

    open spec fn view(&self) -> PassView {
        PassView {
            label: self.label@,
            pipeline_label: self.pipeline_label@,
            shader: self.shader@,
            output: self.output@,
            clear: self.clear,
            inputs: names_view(self.inputs@),
            bind_group_label: label_view(self.bind_group_label),
            layout_label: label_view(self.layout_label),
        }
    }
}

/// A scene's offscreen targets and its passes in drawing order, as values.
pub struct PlanView {
    pub targets: Seq<Seq<char>>,
    pub passes: Seq<PassView>,
}

/// A scene's offscreen targets and its passes in drawing order.
pub struct ScenePlan {
    pub targets: Vec<String>,
    pub passes: Vec<Pass>,
}

impl View for ScenePlan {
    type V = PlanView;

    open spec fn view(&self) -> PlanView {
        PlanView {
            targets: names_view(self.targets@),
            passes: self.passes@.map_values(|p: Pass| p@),
        }
    }
}

/// The plan draws in a sound order: its targets have distinct names, each pass
/// draws to a declared target or to the surface, samples only targets that an
/// earlier pass drew, and has a bind group and layout exactly when it samples;
/// passes that share a layout sample the same number of targets; the last pass
/// draws to the surface.
pub open spec fn well_wired(p: PlanView) -> bool {
    &&& forall|a: int, b: int|
        0 <= a < b < p.targets.len() ==> #[trigger] p.targets[a] != #[trigger] p.targets[b]
    &&& forall|i: int|
        0 <= i < p.passes.len() ==> match (#[trigger] p.passes[i]).output {
            OutputView::Target(n) => p.targets.contains(n),
            OutputView::Surface => true,
        }
    &&& forall|i: int, k: int|
        #![trigger p.passes[i].inputs[k]]
        0 <= i < p.passes.len() && 0 <= k < p.passes[i].inputs.len() ==> exists|j: int|
            0 <= j < i && (#[trigger] p.passes[j]).output == OutputView::Target(p.passes[i].inputs[k])
    &&& forall|i: int|
        0 <= i < p.passes.len() ==> ((#[trigger] p.passes[i]).inputs.len() > 0
            <==> p.passes[i].bind_group_label is Some) && (p.passes[i].inputs.len() > 0
            <==> p.passes[i].layout_label is Some)
    &&& forall|i: int, j: int|
        0 <= i < p.passes.len() && 0 <= j < p.passes.len() && (#[trigger] p.passes[i]).layout_label
            == (#[trigger] p.passes[j]).layout_label ==> p.passes[i].inputs.len()
            == p.passes[j].inputs.len()
    &&& p.passes.len() > 0
    &&& p.passes.last().output == OutputView::Surface
}

/// The passes of the noise-blur scene: noise, then a horizontal blur of it, then
/// a vertical blur of that, then a composite of the noise and the blur.
pub open spec fn noise_blur_plan_view() -> PlanView {
    PlanView {
        targets: seq!["noise_target"@, "blur_h_target"@, "blur_v_target"@],
        passes: seq![
            PassView {
                label: "noise_pass"@,
                pipeline_label: "noise_pipeline"@,
                shader: "noise_blur/noise.wgsl"@,
                output: OutputView::Target("noise_target"@),
                clear: Clear::Black,
                inputs: seq![],
                bind_group_label: None,
                layout_label: None,
            },
            PassView {
                label: "blur_h_pass"@,
                pipeline_label: "blur_h_pipeline"@,
                shader: "noise_blur/blur_h.wgsl"@,
                output: OutputView::Target("blur_h_target"@),
                clear: Clear::Black,
                inputs: seq!["noise_target"@],
                bind_group_label: Some("blur_h_bind_group"@),
                layout_label: Some("single_texture_layout"@),
            },
            PassView {
                label: "blur_v_pass"@,
                pipeline_label: "blur_v_pipeline"@,
                shader: "noise_blur/blur_v.wgsl"@,
                output: OutputView::Target("blur_v_target"@),
                clear: Clear::Black,
                inputs: seq!["blur_h_target"@],
                bind_group_label: Some("blur_v_bind_group"@),
                layout_label: Some("single_texture_layout"@),
            },
            PassView {
                label: "composite_pass"@,
                pipeline_label: "composite_pipeline"@,
                shader: "noise_blur/composite.wgsl"@,
                output: OutputView::Surface,
                clear: Clear::Backdrop,
                inputs: seq!["noise_target"@, "blur_v_target"@],
                bind_group_label: Some("composite_bind_group"@),
                layout_label: Some("composite_layout"@),
            },
        ],
    }
}

/// The single pass of the Voronoi scene, drawn straight to the surface.
pub open spec fn voronoi_plan_view() -> PlanView {
    PlanView {
        targets: seq![],
        passes: seq![
            PassView {
                label: "voronoi_pass"@,
                pipeline_label: "voronoi_pipeline"@,
                shader: "voronoi/voronoi.wgsl"@,
                output: OutputView::Surface,
                clear: Clear::Black,
                inputs: seq![],
                bind_group_label: None,
                layout_label: None,
            },
        ],
    }
}

/// A name.
fn name(s: &str) -> (r: String)
    ensures
        r@ == s@,
{
    String::from_str(s)
}

/// The passes of the noise-blur scene.
pub fn noise_blur_plan() -> (r: ScenePlan)
    ensures
        r@ == noise_blur_plan_view(),
{
    let r = ScenePlan {
        targets: vec![name("noise_target"), name("blur_h_target"), name("blur_v_target")],
        passes: vec![
            Pass {
                label: name("noise_pass"),
                pipeline_label: name("noise_pipeline"),
                shader: name("noise_blur/noise.wgsl"),
                output: Output::Target(name("noise_target")),
                clear: Clear::Black,
                inputs: vec![],
                bind_group_label: None,
                layout_label: None,
            },
            Pass {
                label: name("blur_h_pass"),
                pipeline_label: name("blur_h_pipeline"),
                shader: name("noise_blur/blur_h.wgsl"),
                output: Output::Target(name("blur_h_target")),
                clear: Clear::Black,
                inputs: vec![name("noise_target")],
                bind_group_label: Some(name("blur_h_bind_group")),
                layout_label: Some(name("single_texture_layout")),
            },
            Pass {
                label: name("blur_v_pass"),
                pipeline_label: name("blur_v_pipeline"),
                shader: name("noise_blur/blur_v.wgsl"),
                output: Output::Target(name("blur_v_target")),
                clear: Clear::Black,
                inputs: vec![name("blur_h_target")],
                bind_group_label: Some(name("blur_v_bind_group")),
                layout_label: Some(name("single_texture_layout")),
            },
            Pass {
                label: name("composite_pass"),
                pipeline_label: name("composite_pipeline"),
                shader: name("noise_blur/composite.wgsl"),
                output: Output::Surface,
                clear: Clear::Backdrop,
                inputs: vec![name("noise_target"), name("blur_v_target")],
                bind_group_label: Some(name("composite_bind_group")),
                layout_label: Some(name("composite_layout")),
            },
        ],
    };
    assert(r@.targets =~= noise_blur_plan_view().targets);
    assert(r@.passes[1].inputs =~= noise_blur_plan_view().passes[1].inputs);
    assert(r@.passes[2].inputs =~= noise_blur_plan_view().passes[2].inputs);
    assert(r@.passes[3].inputs =~= noise_blur_plan_view().passes[3].inputs);
    assert(r@.passes[0].inputs =~= noise_blur_plan_view().passes[0].inputs);
    assert(r@.passes =~= noise_blur_plan_view().passes);
    r
}

/// The passes of the Voronoi scene.
pub fn voronoi_plan() -> (r: ScenePlan)
    ensures
        r@ == voronoi_plan_view(),
{
    let r = ScenePlan {
        targets: vec![],
        passes: vec![
            Pass {
                label: name("voronoi_pass"),
                pipeline_label: name("voronoi_pipeline"),
                shader: name("voronoi/voronoi.wgsl"),
                output: Output::Surface,
                clear: Clear::Black,
                inputs: vec![],
                bind_group_label: None,
                layout_label: None,
            },
        ],
    };
    assert(r@.targets =~= voronoi_plan_view().targets);
    assert(r@.passes[0].inputs =~= voronoi_plan_view().passes[0].inputs);
    assert(r@.passes =~= voronoi_plan_view().passes);
    r
}

/// The plan of each scene that has shaders of its own; the edge-detection scene
/// has none.
pub open spec fn scene_plan_view(scene: SceneType) -> Option<PlanView> {
    match scene {
        SceneType::NoiseBlur => Some(noise_blur_plan_view()),
        SceneType::Voronoi => Some(voronoi_plan_view()),
        SceneType::Sobel => None,
    }
}

/// The passes of `scene`, if it has shaders of its own.
pub fn scene_plan(scene: SceneType) -> (r: Option<ScenePlan>)
    ensures
        match r {
            Some(p) => scene_plan_view(scene) == Some(p@),
            None => scene_plan_view(scene) is None,
        },
{
    match scene {
        SceneType::NoiseBlur => Some(noise_blur_plan()),
        SceneType::Voronoi => Some(voronoi_plan()),
        SceneType::Sobel => None,
    }
}

/// Each scene draws its own shaders: the Voronoi scene a single pass of the
/// Voronoi shader straight to the surface; the noise-blur scene its noise,
/// horizontal blur, vertical blur and composite shaders, in that order, through
/// its three targets, the composite reaching the surface; the edge-detection
/// scene has none.
pub proof fn lemma_each_scene_draws_its_own_shaders()
    ensures
        scene_plan_view(SceneType::Voronoi) is Some,
        scene_plan_view(SceneType::Voronoi)->Some_0.targets.len() == 0,
        scene_plan_view(SceneType::Voronoi)->Some_0.passes.len() == 1,
        scene_plan_view(SceneType::Voronoi)->Some_0.passes[0].label == "voronoi_pass"@,
        scene_plan_view(SceneType::Voronoi)->Some_0.passes[0].shader == "voronoi/voronoi.wgsl"@,
        scene_plan_view(SceneType::Voronoi)->Some_0.passes[0].output == OutputView::Surface,
        scene_plan_view(SceneType::Voronoi)->Some_0.passes[0].inputs.len() == 0,
        scene_plan_view(SceneType::NoiseBlur) is Some,
        scene_plan_view(SceneType::NoiseBlur)->Some_0.targets == seq![
            "noise_target"@,
            "blur_h_target"@,
            "blur_v_target"@,
        ],
        scene_plan_view(SceneType::NoiseBlur)->Some_0.passes.map_values(|p: PassView| p.shader) == seq![
            "noise_blur/noise.wgsl"@,
            "noise_blur/blur_h.wgsl"@,
            "noise_blur/blur_v.wgsl"@,
            "noise_blur/composite.wgsl"@,
        ],
        scene_plan_view(SceneType::NoiseBlur)->Some_0.passes.map_values(|p: PassView| p.output) == seq![
            OutputView::Target("noise_target"@),
            OutputView::Target("blur_h_target"@),
            OutputView::Target("blur_v_target"@),
            OutputView::Surface,
        ],
        scene_plan_view(SceneType::NoiseBlur)->Some_0.passes.map_values(|p: PassView| p.inputs) == seq![
            seq![],
            seq!["noise_target"@],
            seq!["blur_h_target"@],
            seq!["noise_target"@, "blur_v_target"@],
        ],
        scene_plan_view(SceneType::Sobel) is None,
{
    let p = noise_blur_plan_view();
    assert(p.passes.map_values(|x: PassView| x.shader) =~= seq![
        "noise_blur/noise.wgsl"@,
        "noise_blur/blur_h.wgsl"@,
        "noise_blur/blur_v.wgsl"@,
        "noise_blur/composite.wgsl"@,
    ]);
    assert(p.passes.map_values(|x: PassView| x.output) =~= seq![
        OutputView::Target("noise_target"@),
        OutputView::Target("blur_h_target"@),
        OutputView::Target("blur_v_target"@),
        OutputView::Surface,
    ]);
    assert(p.passes.map_values(|x: PassView| x.inputs) =~= seq![
        seq![],
        seq!["noise_target"@],
        seq!["blur_h_target"@],
        seq!["noise_target"@, "blur_v_target"@],
    ]);
}

/// Both scene plans draw in a sound order.
pub proof fn lemma_plans_are_well_wired()
    ensures
        well_wired(noise_blur_plan_view()),
        well_wired(voronoi_plan_view()),
{
    reveal_strlit("noise_target");
    reveal_strlit("blur_h_target");
    reveal_strlit("blur_v_target");
    reveal_strlit("single_texture_layout");
    reveal_strlit("composite_layout");
    let p = noise_blur_plan_view();
    assert(p.targets[0][0] != p.targets[1][0]);
    assert(p.targets[0][0] != p.targets[2][0]);
    assert(p.targets[1][5] != p.targets[2][5]);
    assert(p.targets.contains(p.targets[0]));
    assert(p.targets.contains(p.targets[1]));
    assert(p.targets.contains(p.targets[2]));
    assert("single_texture_layout"@[0] != "composite_layout"@[0]);
    assert forall|i: int, k: int|
        #![trigger p.passes[i].inputs[k]]
        0 <= i < p.passes.len() && 0 <= k < p.passes[i].inputs.len() implies exists|j: int|
        0 <= j < i && (#[trigger] p.passes[j]).output == OutputView::Target(p.passes[i].inputs[k]) by {
        if i == 1 || (i == 3 && k == 0) {
            assert(p.passes[0].output == OutputView::Target(p.passes[i].inputs[k]));
        } else if i == 2 {
            assert(p.passes[1].output == OutputView::Target(p.passes[i].inputs[k]));
        } else {
            assert(p.passes[2].output == OutputView::Target(p.passes[i].inputs[k]));
        }
    }
}

} // verus!

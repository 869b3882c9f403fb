//! The catalogue of shader scenes.

use vstd::prelude::*;

verus! {

/// A shader scene that the playground can show.
#[derive(Debug, Clone, Copy, PartialEq, Eq, Structural)]
pub enum SceneType {
    NoiseBlur,
    Sobel,
    Voronoi,
}

/// The scenes in catalogue order.
pub open spec fn scene_order() -> Seq<SceneType> {
    seq![SceneType::NoiseBlur, SceneType::Sobel, SceneType::Voronoi]
}

/// The display name of each scene.
pub open spec fn scene_name(s: SceneType) -> Seq<char> {
    match s {
        SceneType::NoiseBlur => "Noise Blur"@,
        SceneType::Sobel => "Sobel Edge Detection"@,
        SceneType::Voronoi => "Voronoi Noise"@,
    }
}

/// The position of each scene in the catalogue.
pub open spec fn scene_index(s: SceneType) -> int {
    match s {
        SceneType::NoiseBlur => 0,
        SceneType::Sobel => 1,
        SceneType::Voronoi => 2,
    }
}

impl SceneType {
    /// Every scene, in catalogue order.
    pub fn all() -> (r: &'static [SceneType])
        ensures
            r@ == scene_order(),
    {
        &[SceneType::NoiseBlur, SceneType::Sobel, SceneType::Voronoi]
    }

    /// The name shown for this scene.
    pub fn name(&self) -> (r: &'static str)
        ensures
            r@ == scene_name(*self),
    {
        match self {
            SceneType::NoiseBlur => "Noise Blur",
            SceneType::Sobel => "Sobel Edge Detection",
            SceneType::Voronoi => "Voronoi Noise",
        }
    }

    /// The scene after this one, wrapping from the last to the first.
    pub fn next(&self) -> (r: SceneType)
        ensures
            r == scene_order()[(scene_index(*self) + 1) % 3],
    {
        match self {
            SceneType::NoiseBlur => SceneType::Sobel,
            SceneType::Sobel => SceneType::Voronoi,
            SceneType::Voronoi => SceneType::NoiseBlur,
        }
    }

    /// The scene before this one, wrapping from the first to the last.
    pub fn previous(&self) -> (r: SceneType)
        ensures
            r == scene_order()[(scene_index(*self) + 2) % 3],
    {
        match self {
            SceneType::NoiseBlur => SceneType::Voronoi,
            SceneType::Sobel => SceneType::NoiseBlur,
            SceneType::Voronoi => SceneType::Sobel,
        }
    }
}

/// Stepping forward and then back, or back and then forward, returns to the
/// same scene.
pub proof fn lemma_next_previous_inverse(s: SceneType)
    ensures
        scene_order()[(scene_index(scene_order()[(scene_index(s) + 1) % 3]) + 2) % 3] == s,
        scene_order()[(scene_index(scene_order()[(scene_index(s) + 2) % 3]) + 1) % 3] == s,
{
}

/// Stepping forward once per scene in the catalogue visits every scene and
/// comes back to the start.
pub proof fn lemma_cycle_visits_all(s: SceneType)
    ensures
        ({
            let a = scene_order()[(scene_index(s) + 1) % 3];
            let b = scene_order()[(scene_index(a) + 1) % 3];
            let c = scene_order()[(scene_index(b) + 1) % 3];
            &&& c == s
            &&& set![s, a, b] == scene_order().to_set()
        }),
{
    let a = scene_order()[(scene_index(s) + 1) % 3];
    let b = scene_order()[(scene_index(a) + 1) % 3];
    assert(set![s, a, b] =~= scene_order().to_set()) by {
        assert(scene_order().contains(s));
        assert(scene_order()[0] == SceneType::NoiseBlur);
        assert(scene_order()[1] == SceneType::Sobel);
        assert(scene_order()[2] == SceneType::Voronoi);
    }
}

} // verus!

use shader_lab::scene::SceneType;

#[test]
fn catalogue_order() {
    assert_eq!(
        SceneType::all(),
        &[SceneType::NoiseBlur, SceneType::Sobel, SceneType::Voronoi]
    );
}

#[test]
fn scene_names() {
    assert_eq!(SceneType::NoiseBlur.name(), "Noise Blur");
    assert_eq!(SceneType::Sobel.name(), "Sobel Edge Detection");
    assert_eq!(SceneType::Voronoi.name(), "Voronoi Noise");
}

#[test]
fn next_and_previous_wrap() {
    assert_eq!(SceneType::NoiseBlur.next(), SceneType::Sobel);
    assert_eq!(SceneType::Voronoi.next(), SceneType::NoiseBlur);
    assert_eq!(SceneType::NoiseBlur.previous(), SceneType::Voronoi);
    for s in SceneType::all() {
        assert_eq!(s.next().previous(), *s);
        assert_eq!(s.next().next().next(), *s);
    }
}

use spotlight::{ConfigError, ObjectFit, Scene, Tint};

fn rgb(t: Tint) -> (u8, u8, u8) {
    (t.r, t.g, t.b)
}

#[test]
fn tint_of_warm_light() {
    assert_eq!(rgb(Tint::from_temperature(2500)), (255, 159, 70));
}

#[test]
fn tint_at_6600_is_white() {
    assert_eq!(rgb(Tint::from_temperature(6600)), (255, 255, 255));
}

#[test]
fn tint_of_cool_light() {
    assert_eq!(rgb(Tint::from_temperature(10000)), (201, 218, 255));
}

#[test]
fn tint_below_range_is_clamped() {
    assert_eq!(Tint::from_temperature(0), Tint::from_temperature(1000));
    assert_eq!(rgb(Tint::from_temperature(500)), (255, 67, 0));
}

#[test]
fn tint_above_range_is_clamped() {
    assert_eq!(Tint::from_temperature(60000), Tint::from_temperature(40000));
    assert_eq!(rgb(Tint::from_temperature(60000)), (151, 185, 255));
}

#[test]
fn tint_of_daylight_has_full_red() {
    assert_eq!(Tint::from_temperature(6500).r, 255);
}

#[test]
fn tint_from_components_keeps_channels() {
    assert_eq!(rgb(Tint::from_components((1, 2, 3))), (1, 2, 3));
}

#[test]
fn resolve_rejects_zero_width() {
    assert_eq!(Scene::resolve(0, 600, 6500, ObjectFit::Contain), Err(ConfigError::ZeroWidth));
}

#[test]
fn resolve_rejects_zero_height() {
    assert_eq!(Scene::resolve(800, 0, 6500, ObjectFit::Cover), Err(ConfigError::ZeroHeight));
}

#[test]
fn resolve_keeps_canvas_fit_and_tint() {
    let s = Scene::resolve(800, 600, 2500, ObjectFit::Cover).unwrap();
    assert_eq!((s.canvas.width, s.canvas.height), (800, 600));
    assert_eq!(s.fit, ObjectFit::Cover);
    assert_eq!(rgb(s.tint), (255, 159, 70));
}

use nannou::draw::ellipse::{Extent, DEFAULT_RESOLUTION};
use nannou::draw::{Drawing, Ellipse};

#[test]
fn nothing_is_said_of_a_new_ellipse() {
    let ellipse: Ellipse<f32> = Ellipse::new();
    assert_eq!(ellipse.width(), None);
    assert_eq!(ellipse.height(), None);
    assert_eq!(ellipse.sides(), 50);
    assert_eq!(DEFAULT_RESOLUTION, 50);
    let ellipse: Ellipse<f64> = Ellipse::default();
    assert_eq!(ellipse.width(), None);
    assert_eq!(ellipse.height(), None);
    assert_eq!(ellipse.sides(), 50);
}

#[test]
fn a_radius_gives_the_width_and_the_height() {
    let ellipse = Ellipse::new().radius(2.5f32);
    assert_eq!(ellipse.width(), Some(Extent::Radius(2.5)));
    assert_eq!(ellipse.height(), Some(Extent::Radius(2.5)));
    assert_eq!(ellipse.sides(), 50);
}

#[test]
fn the_last_word_on_the_extent_counts() {
    let ellipse = Ellipse::new().radius(2.0f32).w_h(3.0, 4.0);
    assert_eq!(ellipse.width(), Some(Extent::Length(3.0)));
    assert_eq!(ellipse.height(), Some(Extent::Length(4.0)));
    let ellipse = ellipse.radius(1.0);
    assert_eq!(ellipse.width(), Some(Extent::Radius(1.0)));
    assert_eq!(ellipse.height(), Some(Extent::Radius(1.0)));
}

#[test]
fn the_resolution_is_the_number_of_sides() {
    let ellipse = Ellipse::new().radius(2.0f64).resolution(12);
    assert_eq!(ellipse.sides(), 12);
    assert_eq!(ellipse.width(), Some(Extent::Radius(2.0)));
    let ellipse = ellipse.resolution(0).resolution(7);
    assert_eq!(ellipse.sides(), 7);
}

#[test]
fn a_drawing_describes_its_ellipse() {
    let drawing = Drawing::new(Ellipse::new()).radius(3i32).resolution(16);
    let ellipse = drawing.finish();
    assert_eq!(ellipse.width(), Some(Extent::Radius(3)));
    assert_eq!(ellipse.height(), Some(Extent::Radius(3)));
    assert_eq!(ellipse.sides(), 16);
}

#[test]
fn a_drawing_maps_its_shape() {
    let drawing = Drawing::new(4u8).map_ty(|n| vec![n; 2]);
    assert_eq!(drawing.finish(), vec![4, 4]);
}

use geom2d::bounding_box::BoundingBox;
use geom2d::scalar::Scalar;
use geom2d::shapes::circle::Circle;
use geom2d::shapes::rectangle::Rectangle;
use geom2d::transform2d::Transform2D;
use geom2d::vector2::Vector2;

fn s(value: f32) -> Scalar {
    Scalar::from_bits(value.to_bits())
}

fn f(value: Scalar) -> f32 {
    f32::from_bits(value.to_bits())
}

fn v(x: f32, y: f32) -> Vector2 {
    Vector2::new(s(x), s(y))
}

fn pair(point: Vector2) -> (f32, f32) {
    (f(point.x), f(point.y))
}

fn create_transform(x: f32, y: f32, rotation: f32) -> Transform2D {
    Transform2D::new(v(x, y), s(rotation))
}

/// The four corners of a rectangle before it is turned: top left, top
/// right, bottom left, bottom right.
fn upright_corners(rectangle: &Rectangle) -> [Vector2; 4] {
    let centre = pair(rectangle.transform.translation);
    let top = centre.1 + f(rectangle.height) / 2.0;
    let bottom = centre.1 - f(rectangle.height) / 2.0;
    let left = centre.0 + f(rectangle.width) / 2.0;
    let right = centre.0 - f(rectangle.width) / 2.0;
    BoundingBox::new(v(right, bottom), v(left, top)).corners()
}

#[test]
fn circle_test_area() {
    // The circle keeps the radius; the formula is evaluated on what it gives back.
    let circle = Circle::new(s(3.0), Transform2D::default());
    let expected_area = std::f32::consts::PI * 3.0 * 3.0;
    let radius = f(circle.radius);
    let actual_area = std::f32::consts::PI * radius * radius;
    assert!(
        (expected_area - actual_area).abs() < 1e-5,
        "Area calculation is incorrect"
    );
    assert!((actual_area - 28.2743).abs() < 1e-3);
}

#[test]
fn test_circumference() {
    let circle = Circle::new(s(3.0), Transform2D::identity());
    let expected_circumference = 2.0 * std::f32::consts::PI * 3.0;
    let actual_circumference = 2.0 * std::f32::consts::PI * f(circle.radius);
    assert!(
        (expected_circumference - actual_circumference).abs() < 1e-5,
        "Circumference calculation is incorrect"
    );
    assert!((actual_circumference - 18.8496).abs() < 1e-3);
}

#[test]
fn test_bounding_box() {
    let translation = v(3.0, 4.0);
    let transform = Transform2D::new(translation, s(0.0));
    let circle = Circle::new(s(5.0), transform);
    let centre = pair(circle.transform.translation);
    let radius = f(circle.radius);
    let bbox = BoundingBox::new(
        v(centre.0 - radius, centre.1 - radius),
        v(centre.0 + radius, centre.1 + radius),
    );
    let expected_bbox = BoundingBox::new(v(3.0 - 5.0, 4.0 - 5.0), v(3.0 + 5.0, 4.0 + 5.0));
    assert_eq!(
        bbox.min, expected_bbox.min,
        "Bounding box min point is incorrect"
    );
    assert_eq!(
        bbox.max, expected_bbox.max,
        "Bounding box max point is incorrect"
    );
    assert_eq!(pair(bbox.min), (-2.0, -1.0));
    assert_eq!(pair(bbox.max), (8.0, 9.0));
    assert!(bbox.is_ordered());
    assert!(bbox.contains(translation));
}

#[test]
fn rectangle_test_area() {
    let transform = create_transform(0.0, 0.0, 0.0);
    let rectangle = Rectangle::new(s(4.0), s(2.0), transform);
    assert_eq!(f(rectangle.width) * f(rectangle.height), 8.0);
}

#[test]
fn test_perimeter() {
    let transform = create_transform(0.0, 0.0, 0.0);
    let rectangle = Rectangle::new(s(4.0), s(2.0), transform);
    assert_eq!(2.0 * (f(rectangle.width) + f(rectangle.height)), 12.0);
}

#[test]
fn test_bounding_box_no_rotation() {
    let transform = create_transform(0.0, 0.0, 0.0);
    let rectangle = Rectangle::new(s(4.0), s(2.0), transform);
    assert!(rectangle.transform.rotation.eq_number(Scalar::zero()));
    let corners = upright_corners(&rectangle);
    assert_eq!(pair(corners[0]), (2.0, 1.0));
    assert_eq!(pair(corners[1]), (-2.0, 1.0));
    assert_eq!(pair(corners[2]), (2.0, -1.0));
    assert_eq!(pair(corners[3]), (-2.0, -1.0));
    let bbox = BoundingBox::enclosing(&corners);

    assert_eq!(pair(bbox.min), (-2.0, -1.0));
    assert_eq!(pair(bbox.max), (2.0, 1.0));
    assert!(bbox.min.eq_point(v(-2.0, -1.0)));
    assert!(bbox.max.eq_point(v(2.0, 1.0)));
}

#[test]
fn test_bounding_box_with_rotation() {
    // A right angle counter-clockwise sends (x, y) to (-y, x).
    let transform = create_transform(0.0, 0.0, std::f32::consts::FRAC_PI_2);
    let rectangle = Rectangle::new(s(4.0), s(2.0), transform);
    assert_eq!(f(rectangle.transform.rotation), std::f32::consts::FRAC_PI_2);
    let corners = upright_corners(&rectangle).map(|c| c.quarter_turn());
    assert_eq!(pair(corners[0]), (-1.0, 2.0));
    assert_eq!(pair(corners[1]), (-1.0, -2.0));
    assert_eq!(pair(corners[2]), (1.0, 2.0));
    assert_eq!(pair(corners[3]), (1.0, -2.0));
    let bbox = BoundingBox::enclosing(&corners);

    assert_eq!(pair(bbox.min), (-1.0, -2.0));
    assert_eq!(pair(bbox.max), (1.0, 2.0));
}

#[test]
fn identity_is_the_default_pose() {
    let identity = Transform2D::identity();
    assert_eq!(identity, Transform2D::default());
    assert_eq!(identity.translation, Vector2::origin());
    assert_eq!(identity.translation.x.to_bits(), 0);
    assert_eq!(identity.translation.y.to_bits(), 0);
    assert_eq!(identity.rotation.to_bits(), 0);
    assert_eq!(pair(identity.translation), (0.0, 0.0));
    assert_eq!(f(identity.rotation), 0.0);
}

#[test]
fn constructors_keep_their_arguments() {
    let transform = create_transform(1.5, -2.5, 0.25);
    assert_eq!(pair(transform.translation), (1.5, -2.5));
    assert_eq!(f(transform.rotation), 0.25);
    let circle = Circle::new(s(7.0), transform);
    assert_eq!(f(circle.radius), 7.0);
    assert_eq!(circle.transform, transform);
    let rectangle = Rectangle::new(s(3.0), s(9.0), transform);
    assert_eq!(f(rectangle.width), 3.0);
    assert_eq!(f(rectangle.height), 9.0);
    assert_eq!(rectangle.transform, transform);
}

#[test]
fn improper_dimensions_are_kept_and_told_apart() {
    let pose = Transform2D::identity();
    assert!(Circle::new(s(3.0), pose).is_valid());
    assert!(Circle::new(s(f32::MIN_POSITIVE), pose).is_valid());
    assert!(Circle::new(s(f32::INFINITY), pose).is_valid());
    assert!(!Circle::new(s(0.0), pose).is_valid());
    assert!(!Circle::new(s(-0.0), pose).is_valid());
    assert!(!Circle::new(s(-3.0), pose).is_valid());
    assert!(!Circle::new(s(f32::NAN), pose).is_valid());
    assert_eq!(f(Circle::new(s(-3.0), pose).radius), -3.0);

    assert!(Rectangle::new(s(4.0), s(2.0), pose).is_valid());
    assert!(!Rectangle::new(s(0.0), s(2.0), pose).is_valid());
    assert!(!Rectangle::new(s(4.0), s(-2.0), pose).is_valid());
    assert!(!Rectangle::new(s(f32::NAN), s(2.0), pose).is_valid());
    assert!(!Rectangle::new(s(4.0), s(f32::NAN), pose).is_valid());
}

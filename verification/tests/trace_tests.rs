use solo_rt::trace::any_hit;
use solo_rt::trace::first_hit_index;
use solo_rt::trace::shade_action;
use solo_rt::trace::surface_color;
use solo_rt::trace::PrimitiveKind;
use solo_rt::trace::ShadeAction;

#[test]
fn surface_colors_per_kind() {
    assert_eq!(surface_color(PrimitiveKind::Sphere), (255, 0, 0));
    assert_eq!(surface_color(PrimitiveKind::Cube), (0, 0, 255));
    assert_eq!(surface_color(PrimitiveKind::Flat), (0, 255, 0));
    assert_eq!(surface_color(PrimitiveKind::Cylinder), (255, 0, 255));
}

#[test]
fn first_hit_empty_scene() {
    assert_eq!(first_hit_index(&vec![]), None);
}

#[test]
fn first_hit_no_intersections() {
    assert_eq!(first_hit_index(&vec![false, false, false]), None);
}

#[test]
fn first_hit_skips_misses() {
    assert_eq!(first_hit_index(&vec![false, true, true]), Some(1));
}

#[test]
fn first_hit_prefers_list_order() {
    // Scene [A, B]: both primitives intersect the ray and B is the
    // geometrically closer one, yet traversal settles on A because it
    // comes first in the list.
    assert_eq!(first_hit_index(&vec![true, true]), Some(0));
}

#[test]
fn any_hit_empty_scene() {
    assert!(!any_hit(&vec![]));
}

#[test]
fn any_hit_requires_some_occluder() {
    assert!(!any_hit(&vec![false, false]));
    assert!(any_hit(&vec![false, true]));
    assert!(any_hit(&vec![true, false, false]));
}

#[test]
fn shade_miss_is_black() {
    assert_eq!(shade_action(false, false, false, false), ShadeAction::Black);
    assert_eq!(shade_action(false, true, true, true), ShadeAction::Black);
}

#[test]
fn shade_accepted_scatter_bounces() {
    assert_eq!(shade_action(true, true, true, false), ShadeAction::Scatter);
    // The bounce happens before any shadow test is consulted.
    assert_eq!(shade_action(true, true, true, true), ShadeAction::Scatter);
}

#[test]
fn shade_shadowed_point_is_black() {
    assert_eq!(shade_action(true, false, false, true), ShadeAction::Black);
    // A rejected scatter falls through to the ordinary path.
    assert_eq!(shade_action(true, true, false, true), ShadeAction::Black);
}

#[test]
fn shade_lit_point_is_lambertian() {
    assert_eq!(shade_action(true, false, false, false), ShadeAction::Lambert);
    assert_eq!(shade_action(true, true, false, false), ShadeAction::Lambert);
}

use terrain_editor::geometry::{axis_span, Distance, PlaneToEdit, Span, Vec3i, COORD_LIMIT, UNIT};
use terrain_editor::pointer::{
    nearest_hit, point_along, project_pointer, CursorPos, PlacedSurface, PointerData, Ray,
};

fn plane(width: i64, height: i64) -> PlaneToEdit {
    PlaneToEdit { width, height, subdivisions: 0 }
}

fn v(x: i64, y: i64, z: i64) -> Vec3i {
    Vec3i::new(x, y, z)
}

fn identity() -> Vec3i {
    v(UNIT, UNIT, UNIT)
}

fn value_is(t: Distance, num: i64, den: i64) -> bool {
    (t.num as i128) * (den as i128) == (num as i128) * (t.den as i128)
}

#[test]
fn ray_straight_down_hits_at_ten() {
    let p = plane(10 * UNIT, 10 * UNIT);
    let r = p.ray_intersection(v(0, 0, 0), identity(), v(0, 10 * UNIT, 0), v(0, -UNIT, 0));
    let t = r.expect("the ray meets the surface");
    assert!(value_is(t, 10, 1));
}

#[test]
fn ray_straight_up_misses() {
    let p = plane(10 * UNIT, 10 * UNIT);
    let r = p.ray_intersection(v(0, 0, 0), identity(), v(0, 10 * UNIT, 0), v(0, UNIT, 0));
    assert_eq!(r, None);
}

#[test]
fn ray_down_outside_the_rectangle_misses() {
    let p = plane(10 * UNIT, 10 * UNIT);
    let r = p.ray_intersection(v(0, 0, 0), identity(), v(6 * UNIT, 10 * UNIT, 0), v(0, -UNIT, 0));
    assert_eq!(r, None);
    let edge = p.ray_intersection(v(0, 0, 0), identity(), v(5 * UNIT, 10 * UNIT, 0), v(0, -UNIT, 0));
    assert!(value_is(edge.unwrap(), 10, 1));
}

#[test]
fn slanted_ray_hits_at_exact_fraction() {
    let p = plane(10 * UNIT, 10 * UNIT);
    // From (0, 3, 0) towards (1, -2, 0): reaches height 0 after 1.5 steps, at x = 1.5.
    let t = p
        .ray_intersection(v(0, 0, 0), identity(), v(0, 3 * UNIT, 0), v(UNIT, -2 * UNIT, 0))
        .unwrap();
    assert!(value_is(t, 3, 2));
}

#[test]
fn scale_and_translation_move_the_rectangle() {
    let p = plane(2 * UNIT, 2 * UNIT);
    let loc = v(10 * UNIT, UNIT, 0);
    // Scaled by 3 the half-width is 3, so x = 12 is inside and x = 14 is not.
    let inside = p.ray_intersection(loc, v(3 * UNIT, 3 * UNIT, UNIT), v(12 * UNIT, 5 * UNIT, 0), v(0, -UNIT, 0));
    assert!(value_is(inside.unwrap(), 4, 1));
    let outside = p.ray_intersection(loc, v(3 * UNIT, 3 * UNIT, UNIT), v(14 * UNIT, 5 * UNIT, 0), v(0, -UNIT, 0));
    assert_eq!(outside, None);
    let unscaled = p.ray_intersection(loc, identity(), v(12 * UNIT, 5 * UNIT, 0), v(0, -UNIT, 0));
    assert_eq!(unscaled, None);
}

#[test]
fn parallel_ray_off_plane_misses() {
    let p = plane(10 * UNIT, 10 * UNIT);
    let r = p.ray_intersection(v(0, 0, 0), identity(), v(-20 * UNIT, 10 * UNIT, 0), v(UNIT, 0, 0));
    assert_eq!(r, None);
    let r2 = p.ray_intersection(v(0, 0, 0), identity(), v(0, -UNIT, 0), v(0, 0, UNIT));
    assert_eq!(r2, None);
}

#[test]
fn ray_within_the_plane_enters_at_the_edge() {
    let p = plane(10 * UNIT, 10 * UNIT);
    let t = p
        .ray_intersection(v(0, 0, 0), identity(), v(-20 * UNIT, 0, 0), v(UNIT, 0, 0))
        .unwrap();
    assert!(value_is(t, 15, 1));
    let inside = p
        .ray_intersection(v(0, 0, 0), identity(), v(0, 0, 0), v(UNIT, 0, 0))
        .unwrap();
    assert_eq!(inside.num, 0);
}

#[test]
fn origin_on_the_surface_hits_at_zero() {
    let p = plane(10 * UNIT, 10 * UNIT);
    let t = p
        .ray_intersection(v(0, 0, 0), identity(), v(UNIT, 0, UNIT), v(0, -UNIT, 0))
        .unwrap();
    assert_eq!(t.num, 0);
}

#[test]
fn axis_span_cases() {
    assert_eq!(axis_span(0, 0, 0, 10), Span::All);
    assert_eq!(axis_span(20, 0, 0, 10), Span::Empty);
    assert_eq!(axis_span(0, 1, 10, 4), Span::Range { lo: 19996, hi: 20004, den: 2000 });
    assert_eq!(axis_span(0, -1, 10, 4), Span::Range { lo: -20004, hi: -19996, den: 2000 });
}

fn surface_at(height: i64) -> PlacedSurface {
    PlacedSurface { plane: plane(10 * UNIT, 10 * UNIT), translation: v(0, height, 0), scale: identity() }
}

#[test]
fn nearest_surface_is_chosen() {
    let down = Ray { origin: v(0, 10 * UNIT, 0), direction: v(0, -UNIT, 0) };
    let low_first = vec![surface_at(0), surface_at(2 * UNIT)];
    let (i, t) = nearest_hit(&low_first, down.origin, down.direction).unwrap();
    assert_eq!(i, 1);
    assert!(value_is(t, 8, 1));
    let high_first = vec![surface_at(2 * UNIT), surface_at(0)];
    let (j, u) = nearest_hit(&high_first, down.origin, down.direction).unwrap();
    assert_eq!(j, 0);
    assert!(value_is(u, 8, 1));
}

#[test]
fn equal_distances_pick_the_first_surface() {
    let down = Ray { origin: v(0, 10 * UNIT, 0), direction: v(0, -UNIT, 0) };
    let both = vec![surface_at(UNIT), surface_at(UNIT)];
    let (i, _) = nearest_hit(&both, down.origin, down.direction).unwrap();
    assert_eq!(i, 0);
}

#[test]
fn hits_at_the_origin_are_not_counted() {
    let down = Ray { origin: v(0, 0, 0), direction: v(0, -UNIT, 0) };
    let surfaces = vec![surface_at(0)];
    assert_eq!(nearest_hit(&surfaces, down.origin, down.direction), None);
    assert_eq!(nearest_hit(&Vec::new(), down.origin, down.direction), None);
}

#[test]
fn point_along_scales_by_the_fraction() {
    let ray = Ray { origin: v(1, 2, 3), direction: v(4, 5, 6) };
    let p = point_along(ray, Distance { num: 3, den: 2 });
    assert_eq!((p.x, p.y, p.z, p.den), (2 + 12, 4 + 15, 6 + 18, 2));
}

#[test]
fn projection_records_the_nearest_world_hit() {
    let surfaces = vec![surface_at(0), surface_at(2 * UNIT)];
    let ray = Ray { origin: v(UNIT, 10 * UNIT, -UNIT), direction: v(0, -UNIT, 0) };
    let cursor = Some(CursorPos { x: 400, y: 300 });
    let data = project_pointer(cursor, false, Some(ray), &surfaces);
    assert_eq!(data.cursor_pos, cursor);
    let p = data.world_pos.unwrap();
    assert_eq!(p.x, UNIT * p.den);
    assert_eq!(p.y, 2 * UNIT * p.den);
    assert_eq!(p.z, -UNIT * p.den);
}

#[test]
fn projection_without_cursor_ui_or_ray_has_no_hit() {
    let surfaces = vec![surface_at(0)];
    let ray = Ray { origin: v(0, 10 * UNIT, 0), direction: v(0, -UNIT, 0) };
    let cursor = Some(CursorPos { x: 1, y: 2 });
    let none = project_pointer(None, false, Some(ray), &surfaces);
    assert_eq!(none, PointerData { cursor_pos: None, world_pos: None });
    let ui = project_pointer(cursor, true, Some(ray), &surfaces);
    assert_eq!(ui, PointerData { cursor_pos: cursor, world_pos: None });
    let no_ray = project_pointer(cursor, false, None, &surfaces);
    assert_eq!(no_ray, PointerData { cursor_pos: cursor, world_pos: None });
    let miss = Ray { origin: v(0, 10 * UNIT, 0), direction: v(0, UNIT, 0) };
    let missed = project_pointer(cursor, false, Some(miss), &surfaces);
    assert_eq!(missed, PointerData { cursor_pos: cursor, world_pos: None });
}

#[test]
fn pointer_data_resets_to_nothing_known() {
    let mut data = PointerData::new();
    assert_eq!(data.cursor_pos, None);
    data.cursor_pos = Some(CursorPos { x: 3, y: 4 });
    data.reset();
    assert_eq!(data, PointerData { cursor_pos: None, world_pos: None });
}

#[test]
fn far_corner_of_the_world_is_handled() {
    let p = plane(COORD_LIMIT, COORD_LIMIT);
    let t = p
        .ray_intersection(
            v(-COORD_LIMIT, -COORD_LIMIT, -COORD_LIMIT),
            identity(),
            v(COORD_LIMIT, COORD_LIMIT, COORD_LIMIT),
            v(-COORD_LIMIT, -COORD_LIMIT, -COORD_LIMIT),
        )
        .unwrap();
    assert!(value_is(t, 2, 1));
}

#[test]
fn fractional_scale_shrinks_the_rectangle() {
    let p = plane(10 * UNIT, 10 * UNIT);
    let half = v(UNIT / 2, UNIT / 2, UNIT / 2);
    // Scaled by one half the half-width is 2.5: x = 2 is inside, x = 3 is not.
    let inside = p.ray_intersection(v(0, 0, 0), half, v(2 * UNIT, 5 * UNIT, 0), v(0, -UNIT, 0));
    assert!(value_is(inside.unwrap(), 5, 1));
    let outside = p.ray_intersection(v(0, 0, 0), half, v(3 * UNIT, 5 * UNIT, 0), v(0, -UNIT, 0));
    assert_eq!(outside, None);
    let edge = p.ray_intersection(v(0, 0, 0), half, v(0, 5 * UNIT, 2500), v(0, -UNIT, 0));
    assert!(value_is(edge.unwrap(), 5, 1));
    let past = p.ray_intersection(v(0, 0, 0), half, v(0, 5 * UNIT, 2501), v(0, -UNIT, 0));
    assert_eq!(past, None);
}

use terrain_editor::brush::{BrushSettings, BrushStroke, BrushType, StrokeTest, in_reach, RAISE_STEP};
use terrain_editor::editor::TerrainEdit;
use terrain_editor::geometry::{PlaneToEdit, Vec3i, COORD_LIMIT, UNIT};
use terrain_editor::pointer::{project_pointer, CursorPos, PlacedSurface, Ray, WorldPoint};
use terrain_editor::vertex::{
    extract_mesh_data, register_vertices, PlaneVertex, RegisterError, Rgba, DEFAULT_VERTEX_RADIUS,
};

fn v(x: i64, y: i64, z: i64) -> Vec3i {
    Vec3i::new(x, y, z)
}

fn square(units: i64) -> PlacedSurface {
    PlacedSurface {
        plane: PlaneToEdit { width: units * UNIT, height: units * UNIT, subdivisions: 0 },
        translation: v(0, 0, 0),
        scale: v(UNIT, UNIT, UNIT),
    }
}

fn at(x: i64, y: i64, z: i64) -> WorldPoint {
    WorldPoint { x, y, z, den: 1 }
}

fn edit_with(positions: Vec<Vec3i>) -> TerrainEdit {
    TerrainEdit::new(7, square(4), positions, None).unwrap()
}

#[test]
fn brush_type_name() {
    assert_eq!(BrushType::Heights.to_str(), "heights");
}

#[test]
fn default_brush_settings() {
    let s = BrushSettings::default();
    assert_eq!(s.typ, BrushType::Heights);
    assert_eq!(s.radius, UNIT);
}

#[test]
fn new_stroke_has_untested_cache() {
    let s = BrushStroke::new(BrushType::Heights, 250, at(1, 2, 3), 3);
    assert_eq!(s.radius, 250);
    assert_eq!(s.center, at(1, 2, 3));
    assert_eq!(s.data, vec![StrokeTest::Untested; 3]);
}

#[test]
fn apply_raises_by_one_step_and_saturates() {
    let s = BrushStroke::new(BrushType::Heights, UNIT, at(0, 0, 0), 0);
    let mut t = v(1, 2, 3);
    s.apply(&mut t);
    assert_eq!(t, v(1, 2 + RAISE_STEP, 3));
    let mut top = v(0, COORD_LIMIT - 1, 0);
    s.apply(&mut top);
    assert_eq!(top, v(0, COORD_LIMIT, 0));
}

#[test]
fn reach_is_planar_and_inclusive() {
    // Vertex coordinates are given times UNIT.
    assert!(in_reach(at(0, 0, 0), 1500 * UNIT, 0, 2000));
    assert!(in_reach(at(0, 0, 0), 2000 * UNIT, 0, 2000));
    assert!(!in_reach(at(0, 0, 0), 3000 * UNIT, 0, 2000));
    // Height does not count.
    assert!(in_reach(at(0, 499_999, 0), 1200 * UNIT, 1600 * UNIT, 2000));
    assert!(!in_reach(at(0, 0, 0), 1201 * UNIT, 1600 * UNIT, 2000));
    // A point with a denominator: (1/2, 0, 0) is 1.5 sub-units from (2, _, 0).
    let half = WorldPoint { x: 500, y: 0, z: 0, den: 1000 };
    assert!(in_reach(half, 2 * UNIT, 0, 2));
    assert!(!in_reach(half, 2 * UNIT, 0, 1));
    // A vertex between sub-units: 1.5 sub-units from the origin.
    assert!(!in_reach(at(0, 0, 0), 1500, 0, 1));
    assert!(in_reach(at(0, 0, 0), 1500, 0, 2));
}

#[test]
fn plane_vertex_new_keeps_fields() {
    let p = PlaneVertex::new(4, &v(1, 2, 3), &Rgba { r: 1, g: 2, b: 3, a: 4 }, 9, 11);
    assert_eq!(p.index, 4);
    assert_eq!(p.loc, v(1, 2, 3));
    assert_eq!(p.clr, Rgba { r: 1, g: 2, b: 3, a: 4 });
    assert_eq!(p.radius, 9);
    assert_eq!(p.plane_entity, 11);
}

#[test]
fn missing_colours_become_white() {
    let (pos, clr) = extract_mesh_data(vec![v(0, 0, 0), v(1, 1, 1)], None);
    assert_eq!(pos, vec![v(0, 0, 0), v(1, 1, 1)]);
    assert_eq!(clr, vec![Rgba::white(); 2]);
    let red = Rgba { r: 255, g: 0, b: 0, a: 255 };
    let (_, own) = extract_mesh_data(vec![v(0, 0, 0)], Some(vec![red]));
    assert_eq!(own, vec![red]);
}

#[test]
fn register_one_record_per_slot() {
    let positions = vec![v(1, 0, 0), v(2, 0, 0), v(3, 0, 0)];
    let colors = vec![Rgba::white(); 3];
    let records = register_vertices(5, &positions, &colors).unwrap();
    assert_eq!(records.len(), 3);
    for (i, r) in records.iter().enumerate() {
        assert_eq!(r.index, i);
        assert_eq!(r.loc, positions[i]);
        assert_eq!(r.radius, DEFAULT_VERTEX_RADIUS);
        assert_eq!(r.plane_entity, 5);
    }
    let empty = register_vertices(5, &Vec::new(), &Vec::new()).unwrap();
    assert!(empty.is_empty());
}

#[test]
fn length_mismatch_is_rejected() {
    let positions = vec![v(1, 0, 0), v(2, 0, 0)];
    assert_eq!(register_vertices(0, &positions, &vec![Rgba::white()]), Err(RegisterError::LengthMismatch));
    let e = TerrainEdit::new(0, square(4), positions, Some(vec![Rgba::white()]));
    assert!(matches!(e, Err(RegisterError::LengthMismatch)));
}

#[test]
fn vertex_outside_the_world_is_rejected() {
    let e = TerrainEdit::new(0, square(4), vec![v(0, 0, 0), v(COORD_LIMIT + 1, 0, 0)], None);
    assert!(matches!(e, Err(RegisterError::OutOfRange)));
    let mut far = square(4);
    far.translation = v(COORD_LIMIT, 0, 0);
    let e2 = TerrainEdit::new(0, far, vec![v(1, 0, 0)], None);
    assert!(matches!(e2, Err(RegisterError::OutOfRange)));
}

#[test]
fn registration_starts_clean() {
    let e = edit_with(vec![v(1500, 0, 0), v(3000, 0, 0)]);
    assert_eq!(e.plane_entity, 7);
    assert!(e.stroke.is_none());
    assert_eq!(e.selected, vec![false, false]);
    assert_eq!(e.changed, vec![false, false]);
    assert_eq!(e.transforms, vec![v(1500, 0, 0), v(3000, 0, 0)]);
    assert_eq!(e.mesh.positions, vec![v(1500, 0, 0), v(3000, 0, 0)]);
    assert_eq!(e.mesh.colors, vec![Rgba::white(); 2]);
}

#[test]
fn end_to_end_stroke_raises_and_clears() {
    let surfaces = vec![square(4)];
    let mut e = edit_with(vec![v(1500, 0, 0), v(3000, 0, 0)]);
    let ray = Ray { origin: v(0, 10 * UNIT, 0), direction: v(0, -UNIT, 0) };
    let pointer = project_pointer(Some(CursorPos { x: 0, y: 0 }), false, Some(ray), &surfaces);
    let hit = pointer.world_pos;
    assert!(hit.is_some());
    let settings = BrushSettings::default();
    e.drag_start(hit, &settings);
    e.drag(hit);
    e.sync_mesh();
    assert!(e.selected[0]);
    assert!(!e.selected[1]);
    assert_eq!(e.transforms[0], v(1500, 500, 0));
    assert_eq!(e.transforms[1], v(3000, 0, 0));
    assert_eq!(e.vertices[0].loc, v(1500, 500, 0));
    assert_eq!(e.mesh.positions, vec![v(1500, 500, 0), v(3000, 0, 0)]);
    let stroke = e.stroke.as_ref().unwrap();
    assert_eq!(stroke.data, vec![StrokeTest::Positive, StrokeTest::Negative]);
    e.drag_end();
    assert!(e.stroke.is_none());
    assert_eq!(e.selected, vec![false, false]);
    assert_eq!(e.transforms[0], v(1500, 500, 0));
    assert_eq!(e.mesh.positions[0], v(1500, 500, 0));
}

#[test]
fn selection_persists_while_the_brush_moves_away() {
    let mut e = edit_with(vec![v(1500, 0, 0), v(3000, 0, 0)]);
    e.drag_start(Some(at(0, 0, 0)), &BrushSettings::default());
    e.drag(Some(at(0, 0, 0)));
    assert_eq!(e.selected, vec![true, false]);
    e.drag(Some(at(100 * UNIT, 0, 100 * UNIT)));
    assert_eq!(e.selected, vec![true, false]);
    assert_eq!(e.transforms[0], v(1500, 1000, 0));
    // A vertex out of reach at first comes within reach as the brush moves.
    e.drag(Some(at(3000, 0, 0)));
    assert_eq!(e.selected, vec![true, true]);
    assert_eq!(e.transforms[0], v(1500, 1500, 0));
    assert_eq!(e.transforms[1], v(3000, 500, 0));
}

#[test]
fn a_miss_keeps_the_stroke_and_changes_nothing() {
    let mut e = edit_with(vec![v(1500, 0, 0)]);
    e.drag_start(Some(at(0, 0, 0)), &BrushSettings::default());
    e.drag(Some(at(0, 0, 0)));
    e.drag(None);
    assert!(e.stroke.is_some());
    assert_eq!(e.transforms[0], v(1500, 500, 0));
}

#[test]
fn drag_without_a_stroke_does_nothing() {
    let mut e = edit_with(vec![v(0, 0, 0)]);
    e.drag(Some(at(0, 0, 0)));
    assert_eq!(e.selected, vec![false]);
    assert_eq!(e.transforms[0], v(0, 0, 0));
    e.drag_start(None, &BrushSettings::default());
    assert!(e.stroke.is_none());
    e.drag(Some(at(0, 0, 0)));
    assert_eq!(e.selected, vec![false]);
}

#[test]
fn indices_stay_and_mesh_follows_records() {
    let mut e = edit_with(vec![v(0, 0, 0), v(500, 0, 500), v(9000, 0, 0)]);
    e.drag_start(Some(at(0, 0, 0)), &BrushSettings::default());
    for _ in 0..5 {
        e.drag(Some(at(0, 0, 0)));
        e.sync_mesh();
    }
    for i in 0..3 {
        assert_eq!(e.vertices[i].index, i);
        assert_eq!(e.mesh.positions[e.vertices[i].index], e.vertices[i].loc);
        assert_eq!(e.vertices[i].loc, e.transforms[i]);
    }
    assert_eq!(e.vertices[0].loc, v(0, 2500, 0));
    assert_eq!(e.vertices[2].loc, v(9000, 0, 0));
    assert_eq!(e.changed, vec![false, false, false]);
}

#[test]
fn unsynced_moves_wait_for_the_next_sync() {
    let mut e = edit_with(vec![v(0, 0, 0)]);
    e.drag_start(Some(at(0, 0, 0)), &BrushSettings::default());
    e.drag(Some(at(0, 0, 0)));
    assert_eq!(e.changed, vec![true]);
    assert_eq!(e.mesh.positions[0], v(0, 0, 0));
    e.drag_end();
    e.sync_mesh();
    assert_eq!(e.mesh.positions[0], v(0, 500, 0));
}

#[test]
fn new_drag_replaces_a_live_stroke() {
    let mut e = edit_with(vec![v(1500, 0, 0), v(3000, 0, 0)]);
    e.drag_start(Some(at(0, 0, 0)), &BrushSettings::default());
    e.drag(Some(at(0, 0, 0)));
    assert_eq!(e.selected, vec![true, false]);
    let wide = BrushSettings { typ: BrushType::Heights, radius: 5 * UNIT };
    e.drag_start(Some(at(3000, 0, 0)), &wide);
    assert_eq!(e.selected, vec![false, false]);
    let stroke = e.stroke.as_ref().unwrap();
    assert_eq!(stroke.radius, 5 * UNIT);
    assert_eq!(stroke.center, at(3000, 0, 0));
    assert_eq!(stroke.data, vec![StrokeTest::Untested; 2]);
}

#[test]
fn deselect_all_keeps_the_stroke() {
    let mut e = edit_with(vec![v(0, 0, 0)]);
    e.drag_start(Some(at(0, 0, 0)), &BrushSettings::default());
    e.drag(Some(at(0, 0, 0)));
    e.deselect_all_vertices();
    assert_eq!(e.selected, vec![false]);
    assert!(e.stroke.is_some());
}

#[test]
fn fractional_surface_scale_places_vertices() {
    let mut surface = square(4);
    surface.scale = v(UNIT / 2, UNIT, UNIT / 2);
    // Local x = 3.0 and 5.0 stand at world x = 1.5 and 2.5 on a surface scaled by one half.
    let mut e = TerrainEdit::new(7, surface, vec![v(3000, 0, 0), v(5000, 0, 0)], None).unwrap();
    e.drag_start(Some(at(0, 0, 0)), &BrushSettings::default());
    e.drag(Some(at(0, 0, 0)));
    assert_eq!(e.selected, vec![true, false]);
    assert_eq!(e.transforms[0], v(3000, 500, 0));
    e.sync_mesh();
    assert_eq!(e.mesh.positions[0], v(3000, 500, 0));
}

#[test]
fn translated_surface_offsets_vertices() {
    let mut surface = square(4);
    surface.translation = v(10 * UNIT, 0, 0);
    let mut e = TerrainEdit::new(7, surface, vec![v(0, 0, 0), v(-9000, 0, 0)], None).unwrap();
    e.drag_start(Some(at(1500, 0, 0)), &BrushSettings::default());
    e.drag(Some(at(1500, 0, 0)));
    assert_eq!(e.selected, vec![false, true]);
}

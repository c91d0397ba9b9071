use wolf3d_rs::fixed::FP;
use wolf3d_rs::geometry::RawPrimitive;
use wolf3d_rs::level::{Level, LevelError};
use wolf3d_rs::parser::geometry::{Geometry, GeometryMap, SpawnSymbol};
use wolf3d_rs::parser::material::{
    Material, MaterialMap, MaterialProperties, PhysicsProperties, PortalSymbolSet, Shading,
};
use wolf3d_rs::vec2::{Ray, Vec2};

fn rows(lines: &[&str]) -> Vec<Vec<char>> {
    lines.iter().map(|l| l.chars().collect()).collect()
}

/// A wall entry: a single plane spanning the tile's west edge, with the
/// normal facing west (toward negative x).
fn wall_entry() -> Geometry {
    Geometry {
        name: String::from("wall"),
        symbol: 'w',
        primitives: Some(vec![RawPrimitive::Plane {
            p1: Vec2 { x: 0, y: FP },
            p2: Vec2 { x: 0, y: 0 },
        }]),
    }
}

/// A floor entry: a named entry with nothing to draw.
fn floor_entry() -> Geometry {
    Geometry { name: String::from("floor"), symbol: 'f', primitives: None }
}

fn plain_material() -> Material {
    Material {
        name: String::from("stone"),
        symbol: 'm',
        properties: MaterialProperties { physics_properties: PhysicsProperties::Absorption },
        shading: Shading::Color(String::from("gray")),
    }
}

fn no_portals() -> PortalSymbolSet {
    PortalSymbolSet {
        previous_level_symbol: None,
        next_level_symbol: None,
        bonus_level_symbol: None,
        end_symbol: None,
    }
}

fn make_level(
    geo_rows: &[&str],
    mtl_rows: &[&str],
    portals: PortalSymbolSet,
) -> Result<Level, LevelError> {
    let geo_map = GeometryMap {
        geometry_set: String::from("walls"),
        spawn_symbol_set: String::from("spawns"),
        map: rows(geo_rows),
    };
    let mtl_map = MaterialMap {
        material_set: String::from("stones"),
        portal_symbol_set: String::from("portals"),
        previous_level: None,
        next_level: None,
        bonus_level: None,
        map: rows(mtl_rows),
    };
    let geo_set = vec![wall_entry(), floor_entry()];
    let spawn_set = vec![SpawnSymbol { player: 0, symbol: 'p' }];
    let mtl_set = vec![plain_material()];
    Level::new(&geo_map, &geo_set, &spawn_set, &mtl_map, &mtl_set, &portals)
}

#[test]
fn border_wall_hit_at_half_tile() {
    // a 3x3 grid, border tiles carry the wall geometry, the interior is
    // empty; casting from the center toward (1, 0) hits the east border
    // at a perpendicular distance of exactly half a tile
    let level = make_level(
        &["www", "wpw", "www"],
        &["mmm", "mmm", "mmm"],
        no_portals(),
    )
    .unwrap();
    assert_eq!(level.spawns.len(), 1);
    assert_eq!(level.spawns[0].player, 0);
    assert_eq!(level.spawns[0].coordinates, Vec2 { x: FP + FP / 2, y: FP + FP / 2 });

    let ray = Ray::new(level.spawns[0].coordinates, Vec2 { x: FP, y: 0 });
    let dist = level.get_wall_dist(ray);
    assert_eq!(dist, Some(FP / 2));
}

#[test]
fn wall_distance_is_never_negative() {
    let level = make_level(
        &["www", "wpw", "www"],
        &["mmm", "mmm", "mmm"],
        no_portals(),
    )
    .unwrap();
    let origin = Vec2 { x: FP + FP / 2, y: FP + FP / 2 };
    let dirs = [
        Vec2 { x: FP, y: 0 },
        Vec2 { x: -FP, y: 0 },
        Vec2 { x: 0, y: FP },
        Vec2 { x: 0, y: -FP },
        Vec2 { x: FP, y: FP },
        Vec2 { x: -3 * FP / 4, y: FP / 3 },
        Vec2 { x: 1, y: -2 },
    ];
    for dir in dirs.iter() {
        if let Some(d) = level.get_wall_dist(Ray::new(origin, *dir)) {
            assert!(d >= 0);
        }
    }
}

#[test]
fn ray_leaving_the_grid_misses() {
    // a single open tile: the ray steps to the border and leaves
    let level = make_level(&["p"], &["m"], no_portals()).unwrap();
    let ray = Ray::new(Vec2 { x: FP / 2, y: FP / 2 }, Vec2 { x: FP, y: 0 });
    assert_eq!(level.get_wall_dist(ray), None);
}

#[test]
fn portal_on_empty_geometry_is_rejected() {
    // a portal-bearing material tile pointing at the "empty" geometry
    // entry must fail construction
    let portals = PortalSymbolSet {
        previous_level_symbol: None,
        next_level_symbol: None,
        bonus_level_symbol: None,
        end_symbol: Some('e'),
    };
    let err = make_level(&["wp"], &["me"], portals).unwrap_err();
    assert_eq!(err, LevelError::InvalidPortalPlacement { line: 0, col: 1 });
    assert_eq!(err.message(), "a portal must be associated to a non-empty geometric tile");
}

#[test]
fn portal_on_wall_is_accepted() {
    let portals = PortalSymbolSet {
        previous_level_symbol: None,
        next_level_symbol: None,
        bonus_level_symbol: None,
        end_symbol: Some('e'),
    };
    // the portal sits on the wall tile; the spawn tile keeps a plain
    // material
    let level = make_level(&["wp"], &["em"], portals).unwrap();
    assert_eq!(level.map.width, 2);
    assert_eq!(level.map.height, 1);
    // 'e' is the appended portal entry, after the one raw material
    assert_eq!(level.map.tiles[0][0].mtl_idx, 1);
    assert_eq!(level.map.tiles[0][0].geo_idx, 1);
    assert_eq!(level.map.tiles[0][1].geo_idx, 0);
}

#[test]
fn duplicate_symbol_is_rejected() {
    let geo_map = GeometryMap {
        geometry_set: String::from("walls"),
        spawn_symbol_set: String::from("spawns"),
        map: rows(&["wp"]),
    };
    let mtl_map = MaterialMap {
        material_set: String::from("stones"),
        portal_symbol_set: String::from("portals"),
        previous_level: None,
        next_level: None,
        bonus_level: None,
        map: rows(&["mm"]),
    };
    // the spawn marker reuses the wall symbol
    let geo_set = vec![wall_entry()];
    let spawn_set = vec![SpawnSymbol { player: 0, symbol: 'w' }];
    let mtl_set = vec![plain_material()];
    let err = Level::new(&geo_map, &geo_set, &spawn_set, &mtl_map, &mtl_set, &no_portals())
        .unwrap_err();
    assert_eq!(err, LevelError::DuplicateSymbol { symbol: 'w' });
    assert_eq!(err.message(), "duplicate symbol");
}

#[test]
fn mismatched_rows_are_rejected() {
    let err = make_level(&["wpw", "ww"], &["mmm", "mmm"], no_portals()).unwrap_err();
    assert_eq!(err, LevelError::MapDimensionMismatch);
    let err = make_level(&["wpw"], &["mmm", "mmm"], no_portals()).unwrap_err();
    assert_eq!(err, LevelError::MapDimensionMismatch);
    let err = make_level(&[], &[], no_portals()).unwrap_err();
    assert_eq!(err, LevelError::MapDimensionMismatch);
}

#[test]
fn unknown_symbol_is_rejected() {
    let err = make_level(&["wp", "wz"], &["mm", "mm"], no_portals()).unwrap_err();
    assert_eq!(err, LevelError::UnknownSymbol { symbol: 'z', line: 1, col: 1 });
    let err = make_level(&["wp"], &["mz"], no_portals()).unwrap_err();
    assert_eq!(err, LevelError::UnknownSymbol { symbol: 'z', line: 0, col: 1 });
    assert_eq!(err.message(), "unknown symbol");
}

#[test]
fn level_without_spawn_is_rejected() {
    let err = make_level(&["ww"], &["mm"], no_portals()).unwrap_err();
    assert_eq!(err, LevelError::NoSpawnAvailable);
    assert_eq!(err.message(), "no spawn available");
}

#[test]
fn draw_emits_one_command_per_hit_column() {
    let level = make_level(
        &["www", "wpw", "www"],
        &["mmm", "mmm", "mmm"],
        no_portals(),
    )
    .unwrap();
    let pos = Vec2 { x: FP + FP / 2, y: FP + FP / 2 };
    let dir = Vec2 { x: FP, y: 0 };
    // a zero-length camera plane: every column casts straight ahead and
    // hits the east border at half a tile
    let cmds = level.draw(2, 100, pos, dir, 0);
    assert_eq!(cmds.len(), 2);
    // line height: (100 * FP / (FP/2)) * 13 / 10 = 260, taller than the
    // screen, so the column is filled top to bottom
    for (i, c) in cmds.iter().enumerate() {
        assert_eq!(c.column, i);
        assert_eq!(c.start, 0);
        assert_eq!(c.end, 99);
    }
}

#[test]
fn draw_computes_line_height_from_distance() {
    // a 7x3 corridor: the east wall is 4.5 tiles from the spawn, so a
    // 16-pixel-high screen gets a slice of height (16/4.5)*1.3 rounded
    // down twice: start row 6, end row 9
    let level = make_level(
        &["wwwwwww", "wpffffw", "wwwwwww"],
        &["mmmmmmm", "mmmmmmm", "mmmmmmm"],
        no_portals(),
    )
    .unwrap();
    let pos = level.spawns[0].coordinates;
    let dir = Vec2 { x: FP, y: 0 };
    let cmds = level.draw(1, 16, pos, dir, 0);
    assert_eq!(cmds.len(), 1);
    assert_eq!(cmds[0].column, 0);
    assert_eq!(cmds[0].start, 6);
    assert_eq!(cmds[0].end, 9);
}

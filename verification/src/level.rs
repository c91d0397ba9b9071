//! The runtime level: catalogs, the tile grid, ray casting and per-column
//! draw command generation.

use vstd::prelude::*;

pub mod geometry;
pub mod material;

use crate::fixed::{
    FP,
    T_LIMIT,
    qdiv,
    div_q,
    mul_wide,
    lemma_sqrt_floor,
    lemma_qdiv_bounds,
    lemma_qdiv_scaled_bound,
};
use crate::vec2::{Vec2, Vec2i, Ray, vlen, vnorm, vadd, vscale, vorth, bounded, lemma_vnorm_bounds};
use crate::geometry::{PrimitiveGeometry, prim_visible_hit};
use self::geometry::{GeometrySet, SpawnSymbolSet, entry_wf};
use crate::parser::first_dup_from;
use self::material::MaterialSet;
use vstd::arithmetic::div_mod::{
    lemma_multiply_divide_lt,
    lemma_fundamental_div_mod,
    lemma_mod_division_less_than_divisor,
};

verus! {

/// Largest supported grid dimension, in tiles.
pub const MAX_DIM: usize = 4096;

/// A player spawn point: the player it belongs to and the world position
/// at the center of its map tile.
#[derive(Debug)]
pub struct Spawn {
    pub player: usize,
    pub coordinates: Vec2,
}

/// One grid tile: indices into the level's geometry and material catalogs.
#[derive(Clone, Copy, Debug, Default, PartialEq, Eq, Structural)]
pub struct MapTile {
    pub geo_idx: usize,
    pub mtl_idx: usize,
}

/// The tile grid: `height` rows of `width` tiles each.
#[derive(Debug)]
pub struct TileGrid {
    pub height: usize,
    pub width: usize,
    pub tiles: Vec<Vec<MapTile>>,
}

impl TileGrid {
    /// The grid is non-empty, within the supported dimensions, and every
    /// row holds exactly `width` tiles.
    pub open spec fn wf(self) -> bool {
        1 <= self.width <= MAX_DIM && 1 <= self.height <= MAX_DIM && self.tiles@.len()
            == self.height && (forall|i: int|
            0 <= i < self.height ==> (#[trigger] self.tiles@[i])@.len() == self.width)
    }

    /// Every tile's indices stay inside the two catalogs.
    pub open spec fn indices_ok(self, geo_len: int, mtl_len: int) -> bool {
        forall|i: int, j: int|
            0 <= i < self.height && 0 <= j < self.width ==> (#[trigger] self.tiles@[i]@[j]).geo_idx
                < geo_len && self.tiles@[i]@[j].mtl_idx < mtl_len
    }

    /// Resolve the two symbol maps against the catalogs into a tile grid
    /// and the spawn points found along the way.  Fails on a duplicate
    /// symbol, mismatched dimensions, an unknown symbol, or a portal
    /// material on an empty-geometry tile; succeeds exactly when none of
    /// these occurs.
    #[verifier::loop_isolation(false)]
    #[verifier::rlimit(100)]
    #[verifier::spinoff_prover]
    pub fn new(
        geo_map: &Vec<Vec<char>>,
        mtl_map: &Vec<Vec<char>>,
        geo_set: &GeometrySet,
        geo_set_symbols: &Vec<char>,
        mtl_set: &MaterialSet,
        mtl_set_symbols: &Vec<char>,
        spawn_symbol_set: &SpawnSymbolSet,
    ) -> (r: Result<(TileGrid, Vec<Spawn>), LevelError>)
        requires
            geo_set.wf(),
            mtl_set.wf(),
            geo_set_symbols@.len() + 1 == geo_set.geometries@.len(),
            mtl_set_symbols@.len() == mtl_set.material_properties@.len(),
            spawn_symbol_set.players@.len() == spawn_symbol_set.symbols@.len(),
        ensures
            ({
                let gs = geo_set_symbols@;
                let ss = spawn_symbol_set.symbols@;
                let ms = mtl_set_symbols@;
                let g = geo_map@.map_values(|row: Vec<char>| row@);
                let mm = mtl_map@.map_values(|row: Vec<char>| row@);
                let props = mtl_set.material_properties@;
                let geoms = geo_set.geometries@;
                &&& ((r is Ok) <==> first_dup_from(gs + ss, 0) is None && first_dup_from(ms, 0)
                    is None && dims_ok(g, mm) && cells_ok(g, mm, gs, ss, ms, props, geoms))
                &&& (r matches Ok(ok) ==> {
                    let grid = ok.0;
                    &&& grid.wf()
                    &&& grid.height == g.len()
                    &&& grid.width == g[0].len()
                    &&& grid.indices_ok(geoms.len() as int, props.len() as int)
                    &&& (forall|i: int, j: int|
                        0 <= i < g.len() && 0 <= j < g[0].len() ==> (#[trigger] grid.tiles@[i]@[j]).geo_idx
                            == cell_geo_idx(gs, g[i][j]) && grid.tiles@[i]@[j].mtl_idx
                            == find_from(ms, mm[i][j], 0)->0)
                    &&& spawns_view(ok.1@) == map_spawns_upto(g, gs, ss, spawn_symbol_set.players@, g.len() as int)
                })
                &&& (r matches Err(e) ==> match e {
                    LevelError::DuplicateSymbol { symbol } => first_dup_from(gs + ss, 0)
                        == Some(symbol) || (first_dup_from(gs + ss, 0) is None && first_dup_from(
                        ms,
                        0,
                    ) == Some(symbol)),
                    LevelError::MapDimensionMismatch => !dims_ok(g, mm),
                    LevelError::UnknownSymbol { symbol, line, col } => 0 <= line < g.len() && 0
                        <= col < g[0].len() && ((symbol == g[line as int][col as int]
                        && !cell_geo_known(gs, ss, symbol)) || (symbol == mm[line as int][
                        col as int
                    ] && find_from(ms, symbol, 0) is None)),
                    LevelError::InvalidPortalPlacement { line, col } => 0 <= line < g.len() && 0
                        <= col < g[0].len() && !cell_portal_ok(
                        gs,
                        ms,
                        props,
                        geoms,
                        g[line as int][col as int],
                        mm[line as int][col as int],
                    ),
                    LevelError::NoSpawnAvailable => false,
                })
            }),
    {
        let ghost gs = geo_set_symbols@;
        let ghost ss = spawn_symbol_set.symbols@;
        let ghost ms = mtl_set_symbols@;
        let ghost g = geo_map@.map_values(|row: Vec<char>| row@);
        let ghost mm = mtl_map@.map_values(|row: Vec<char>| row@);
        let ghost props = mtl_set.material_properties@;
        let ghost geoms = geo_set.geometries@;
        let ghost players = spawn_symbol_set.players@;

        // duplicate symbols across the geometry/spawn and material symbol
        // spaces are load-time failures
        let mut combined: Vec<char> = Vec::new();
        let mut ci: usize = 0;
        while ci < geo_set_symbols.len()
            invariant
                0 <= ci <= geo_set_symbols@.len(),
                combined@ == gs.subrange(0, ci as int),
            decreases geo_set_symbols@.len() - ci,
        {
            combined.push(geo_set_symbols[ci]);
            proof {
                assert(combined@ =~= gs.subrange(0, ci + 1));
            }
            ci += 1;
        }
        let mut si: usize = 0;
        while si < spawn_symbol_set.symbols.len()
            invariant
                0 <= si <= ss.len(),
                combined@ == gs + ss.subrange(0, si as int),
            decreases ss.len() - si,
        {
            combined.push(spawn_symbol_set.symbols[si]);
            proof {
                assert(combined@ =~= gs + ss.subrange(0, si + 1));
            }
            si += 1;
        }
        proof {
            assert(gs.subrange(0, gs.len() as int) =~= gs);
            assert(ss.subrange(0, ss.len() as int) =~= ss);
            assert(combined@ =~= gs + ss);
        }
        if let Some(symbol) = crate::parser::check_for_duplicate_symbols(&combined) {
            return Err(LevelError::DuplicateSymbol { symbol });
        }
        if let Some(symbol) = crate::parser::check_for_duplicate_symbols(mtl_set_symbols) {
            return Err(LevelError::DuplicateSymbol { symbol });
        }

        let height = geo_map.len();
        if height == 0 || height > MAX_DIM || height != mtl_map.len() {
            return Err(LevelError::MapDimensionMismatch);
        }
        let width = geo_map[0].len();
        if width == 0 || width > MAX_DIM {
            return Err(LevelError::MapDimensionMismatch);
        }

        let mut tiles: Vec<Vec<MapTile>> = Vec::new();
        let mut spawns: Vec<Spawn> = Vec::new();
        let mut line: usize = 0;
        while line < height
            invariant
                0 <= line <= height,
                height == g.len(),
                height == mm.len(),
                width == g[0].len(),
                1 <= width <= MAX_DIM,
                1 <= height <= MAX_DIM,
                tiles@.len() == line,
                forall|i: int| 0 <= i < line ==> (#[trigger] tiles@[i])@.len() == width,
                forall|i: int|
                    0 <= i < line ==> #[trigger] g[i].len() == width && mm[i].len() == width,
                forall|i: int, j: int|
                    0 <= i < line && 0 <= j < width ==> cell_geo_known(gs, ss, #[trigger] g[i][j])
                        && find_from(ms, #[trigger] mm[i][j], 0) is Some && cell_portal_ok(
                        gs,
                        ms,
                        props,
                        geoms,
                        g[i][j],
                        mm[i][j],
                    ),
                forall|i: int, j: int|
                    0 <= i < line && 0 <= j < width ==> (#[trigger] tiles@[i]@[j]).geo_idx
                        == cell_geo_idx(gs, g[i][j]) && tiles@[i]@[j].geo_idx < geoms.len()
                        && tiles@[i]@[j].mtl_idx == find_from(ms, mm[i][j], 0)->0
                        && tiles@[i]@[j].mtl_idx < props.len(),
                spawns_view(spawns@) == map_spawns_upto(g, gs, ss, players, line as int),
            decreases height - line,
        {
            if geo_map[line].len() != width || mtl_map[line].len() != width {
                proof {
                    assert(g[line as int] == geo_map@[line as int]@);
                    assert(mm[line as int] == mtl_map@[line as int]@);
                }
                return Err(LevelError::MapDimensionMismatch);
            }
            proof {
                assert(g[line as int] == geo_map@[line as int]@);
                assert(mm[line as int] == mtl_map@[line as int]@);
            }
            let mut row: Vec<MapTile> = Vec::new();
            let mut col: usize = 0;
            while col < width
                invariant
                    0 <= col <= width,
                    0 <= line < height,
                    g[line as int].len() == width,
                    mm[line as int].len() == width,
                    geo_map@[line as int]@ == g[line as int],
                    mtl_map@[line as int]@ == mm[line as int],
                    row@.len() == col,
                    forall|j: int|
                        0 <= j < col ==> cell_geo_known(gs, ss, #[trigger] g[line as int][j])
                            && find_from(ms, #[trigger] mm[line as int][j], 0) is Some
                            && cell_portal_ok(
                            gs,
                            ms,
                            props,
                            geoms,
                            g[line as int][j],
                            mm[line as int][j],
                        ),
                    forall|j: int|
                        0 <= j < col ==> (#[trigger] row@[j]).geo_idx == cell_geo_idx(
                            gs,
                            g[line as int][j],
                        ) && row@[j].geo_idx < geoms.len() && row@[j].mtl_idx == find_from(
                            ms,
                            mm[line as int][j],
                            0,
                        )->0 && row@[j].mtl_idx < props.len(),
                    spawns_view(spawns@) == map_spawns_upto(g, gs, ss, players, line as int)
                        + row_spawns_upto(g[line as int], gs, ss, players, line as int, col as int),
                decreases width - col,
            {
                let geo_symbol = geo_map[line][col];
                let mtl_symbol = mtl_map[line][col];
                let ghost prev_spawns = spawns@;
                let geo_idx: usize;
                match position_of(geo_set_symbols, geo_symbol) {
                    Some(idx) => {
                        geo_idx = idx + 1;
                    },
                    None => {
                        match position_of(&spawn_symbol_set.symbols, geo_symbol) {
                            Some(idx) => {
                                spawns.push(
                                    Spawn {
                                        player: spawn_symbol_set.players[idx],
                                        coordinates: Vec2 {
                                            x: (col as i64) * FP + FP / 2,
                                            y: (line as i64) * FP + FP / 2,
                                        },
                                    },
                                );
                                proof {
                                    assert(spawns_view(spawns@) =~= spawns_view(prev_spawns)
                                        + seq![
                                        (
                                            players[find_from(ss, g[line as int][col as int], 0)->0] as int,
                                            (col as int) * FP + FP / 2,
                                            (line as int) * FP + FP / 2,
                                        ),
                                    ]);
                                }
                                geo_idx = 0;
                            },
                            None => {
                                return Err(
                                    LevelError::UnknownSymbol {
                                        symbol: geo_symbol,
                                        line,
                                        col,
                                    },
                                );
                            },
                        }
                    },
                }
                let mtl_idx: usize;
                match position_of(mtl_set_symbols, mtl_symbol) {
                    Some(idx) => {
                        let is_portal = mtl_set.material_properties[idx].portal.is_some();
                        let geo_empty = geo_set.geometries[geo_idx].is_none();
                        if is_portal && geo_empty {
                            return Err(LevelError::InvalidPortalPlacement { line, col });
                        }
                        mtl_idx = idx;
                    },
                    None => {
                        return Err(
                            LevelError::UnknownSymbol { symbol: mtl_symbol, line, col },
                        );
                    },
                }
                row.push(MapTile { geo_idx, mtl_idx });
                col += 1;
            }
            tiles.push(row);
            line += 1;
            proof {
                assert(row_spawns_upto(g[line - 1], gs, ss, players, line - 1, width as int)
                    =~= row_spawns_upto(g[line - 1], gs, ss, players, line - 1, g[line - 1].len() as int));
            }
        }
        let grid = TileGrid { height, width, tiles };
        proof {
            assert(dims_ok(g, mm));
            assert(cells_ok(g, mm, gs, ss, ms, props, geoms));
            assert(grid.wf());
        }
        Ok((grid, spawns))
    }
}

/// A loaded level: the two catalogs, the spawn points found in the map,
/// and the tile grid.
#[derive(Debug)]
pub struct Level {
    pub geo_set: GeometrySet,
    pub mtl_set: MaterialSet,
    pub spawns: Vec<Spawn>,
    pub map: TileGrid,
}

/// The flat color every wall column is drawn in, as `0xRRGGBB`.
pub const WALL_COLOR: u32 = 0x247048;

/// One vertical draw command: fill column `column` from row `start` to row
/// `end` (inclusive) with `WALL_COLOR`.
#[derive(Clone, Copy, Debug, PartialEq, Eq, Structural)]
pub struct DrawCommand {
    pub column: usize,
    pub start: i64,
    pub end: i64,
}

/// A fatal level-construction error; no partial level is ever produced.
#[derive(Clone, Debug, PartialEq, Eq, Structural)]
pub enum LevelError {
    /// Two catalog entries (or a catalog entry and a spawn marker) share a
    /// map symbol.
    DuplicateSymbol { symbol: char },
    /// The two maps differ in size, a row has the wrong length, the map is
    /// empty, or a dimension exceeds `MAX_DIM`.
    MapDimensionMismatch,
    /// A map cell's symbol has no catalog or spawn entry.
    UnknownSymbol { symbol: char, line: usize, col: usize },
    /// A portal material sits on a tile with the "empty" geometry entry.
    InvalidPortalPlacement { line: usize, col: usize },
    /// The map contains no spawn marker.
    NoSpawnAvailable,
}

impl LevelError {
    /// A short human-readable description of the error.
    pub fn message(&self) -> (r: String)
        ensures
            self is DuplicateSymbol ==> r@ == "duplicate symbol"@,
            self is MapDimensionMismatch ==> r@ == "map dimensions mismatch"@,
            self is UnknownSymbol ==> r@ == "unknown symbol"@,
            self is InvalidPortalPlacement ==> r@
                == "a portal must be associated to a non-empty geometric tile"@,
            self is NoSpawnAvailable ==> r@ == "no spawn available"@,
    {
        match self {
            LevelError::DuplicateSymbol { .. } => String::from_str("duplicate symbol"),
            LevelError::MapDimensionMismatch => String::from_str("map dimensions mismatch"),
            LevelError::UnknownSymbol { .. } => String::from_str("unknown symbol"),
            LevelError::InvalidPortalPlacement { .. } => String::from_str(
                "a portal must be associated to a non-empty geometric tile",
            ),
            LevelError::NoSpawnAvailable => String::from_str("no spawn available"),
        }
    }
}

/// The first position at or after `i` where `c` occurs in `s`.
pub open spec fn find_from(s: Seq<char>, c: char, i: int) -> Option<int>
    decreases s.len() - i,
    when 0 <= i
{
    if i >= s.len() {
        None
    } else if s[i] == c {
        Some(i)
    } else {
        find_from(s, c, i + 1)
    }
}

/// The first position of `c` in `symbols`, scanning from the front.
pub fn position_of(symbols: &Vec<char>, c: char) -> (r: Option<usize>)
    ensures
        r matches Some(k) ==> find_from(symbols@, c, 0) == Some(k as int) && k < symbols@.len()
            && symbols@[k as int] == c,
        r is None ==> find_from(symbols@, c, 0) is None,
{
    let n = symbols.len();
    let mut i: usize = 0;
    while i < n
        invariant
            0 <= i <= n,
            n == symbols@.len(),
            find_from(symbols@, c, 0) == find_from(symbols@, c, i as int),
        decreases n - i,
    {
        if symbols[i] == c {
            return Some(i);
        }
        i += 1;
    }
    None
}

/// A found position lies in range and holds the symbol searched for.
pub proof fn lemma_find_from_range(s: Seq<char>, c: char, i: int)
    requires
        0 <= i,
    ensures
        find_from(s, c, i) matches Some(k) ==> i <= k < s.len() && s[k] == c,
    decreases s.len() - i,
{
    if i < s.len() && s[i] != c {
        lemma_find_from_range(s, c, i + 1);
    }
}

/// Both maps are non-empty, of equal height, within the supported
/// dimensions, and every row of both has the width of the first row.
pub open spec fn dims_ok(g: Seq<Seq<char>>, m: Seq<Seq<char>>) -> bool {
    1 <= g.len() <= MAX_DIM && g.len() == m.len() && 1 <= g[0].len() <= MAX_DIM && (forall|i: int|
        0 <= i < g.len() ==> (#[trigger] g[i]).len() == g[0].len() && (#[trigger] m[i]).len()
            == g[0].len())
}

/// The geometry catalog index a map symbol resolves to: entries shift up
/// by one past the reserved "empty" entry, and spawn markers resolve to it.
pub open spec fn cell_geo_idx(gs: Seq<char>, c: char) -> int {
    match find_from(gs, c, 0) {
        Option::Some(k) => k + 1,
        Option::None => 0,
    }
}

/// The symbol names a geometry entry or a spawn marker.
pub open spec fn cell_geo_known(gs: Seq<char>, ss: Seq<char>, c: char) -> bool {
    find_from(gs, c, 0) is Some || find_from(ss, c, 0) is Some
}

/// The symbol names a spawn marker (and no geometry entry, which wins).
pub open spec fn cell_is_spawn(gs: Seq<char>, ss: Seq<char>, c: char) -> bool {
    find_from(gs, c, 0) is None && find_from(ss, c, 0) is Some
}

/// A portal material may only sit on a tile with non-empty geometry.
pub open spec fn cell_portal_ok(
    gs: Seq<char>,
    ms: Seq<char>,
    props: Seq<material::MaterialProperties>,
    geoms: Seq<Option<Vec<PrimitiveGeometry>>>,
    g: char,
    m: char,
) -> bool {
    match find_from(ms, m, 0) {
        Option::Some(k) => props[k].portal is Some ==> geoms[cell_geo_idx(gs, g)] is Some,
        Option::None => true,
    }
}

/// Every cell of both maps resolves to catalog entries and satisfies the
/// portal placement rule.
pub open spec fn cells_ok(
    g: Seq<Seq<char>>,
    mm: Seq<Seq<char>>,
    gs: Seq<char>,
    ss: Seq<char>,
    ms: Seq<char>,
    props: Seq<material::MaterialProperties>,
    geoms: Seq<Option<Vec<PrimitiveGeometry>>>,
) -> bool {
    forall|i: int, j: int|
        0 <= i < g.len() && 0 <= j < g[0].len() ==> cell_geo_known(gs, ss, #[trigger] g[i][j])
            && find_from(ms, #[trigger] mm[i][j], 0) is Some && cell_portal_ok(
            gs,
            ms,
            props,
            geoms,
            g[i][j],
            mm[i][j],
        )
}

/// The spawns contributed by the first `j` cells of row `line`, in cell
/// order, as `(player, x, y)` triples in fixed-point world coordinates.
pub open spec fn row_spawns_upto(
    row: Seq<char>,
    gs: Seq<char>,
    ss: Seq<char>,
    players: Seq<usize>,
    line: int,
    j: int,
) -> Seq<(int, int, int)>
    decreases j,
{
    if j <= 0 {
        Seq::empty()
    } else {
        let prev = row_spawns_upto(row, gs, ss, players, line, j - 1);
        if cell_is_spawn(gs, ss, row[j - 1]) {
            prev + seq![
                (
                    players[find_from(ss, row[j - 1], 0)->0] as int,
                    (j - 1) * FP + FP / 2,
                    line * FP + FP / 2,
                ),
            ]
        } else {
            prev
        }
    }
}

/// The spawns contributed by the first `i` rows of the geometry map, in
/// row-major order.
pub open spec fn map_spawns_upto(
    g: Seq<Seq<char>>,
    gs: Seq<char>,
    ss: Seq<char>,
    players: Seq<usize>,
    i: int,
) -> Seq<(int, int, int)>
    decreases i,
{
    if i <= 0 {
        Seq::empty()
    } else {
        map_spawns_upto(g, gs, ss, players, i - 1) + row_spawns_upto(
            g[i - 1],
            gs,
            ss,
            players,
            i - 1,
            g[i - 1].len() as int,
        )
    }
}

/// A `Spawn` list reduced to `(player, x, y)` triples.
pub open spec fn spawns_view(s: Seq<Spawn>) -> Seq<(int, int, int)> {
    s.map_values(|sp: Spawn| (sp.player as int, sp.coordinates.x as int, sp.coordinates.y as int))
}

/// The map symbols of raw geometry entries, in order.
pub open spec fn geo_symbols_of(raw: Seq<crate::parser::geometry::Geometry>) -> Seq<char> {
    raw.map_values(|e: crate::parser::geometry::Geometry| e.symbol)
}

/// The map symbols of raw spawn markers, in order.
pub open spec fn spawn_symbols_of(raw: Seq<crate::parser::geometry::SpawnSymbol>) -> Seq<char> {
    raw.map_values(|e: crate::parser::geometry::SpawnSymbol| e.symbol)
}

/// The player numbers of raw spawn markers, in order.
pub open spec fn spawn_players_of(raw: Seq<crate::parser::geometry::SpawnSymbol>) -> Seq<usize> {
    raw.map_values(|e: crate::parser::geometry::SpawnSymbol| e.player)
}

/// The full material symbol list: the raw entries' symbols followed by the
/// symbols of the portals the level document asks for, in their fixed
/// order.
pub open spec fn mtl_symbols_of(
    raw: Seq<crate::parser::material::Material>,
    map: crate::parser::material::MaterialMap,
    pss: crate::parser::material::PortalSymbolSet,
) -> Seq<char> {
    raw.map_values(|e: crate::parser::material::Material| e.symbol) + (if material::portal_added(
        pss.previous_level_symbol,
        map.previous_level,
    ) {
        seq![pss.previous_level_symbol->0]
    } else {
        Seq::empty()
    }) + (if material::portal_added(pss.next_level_symbol, map.next_level) {
        seq![pss.next_level_symbol->0]
    } else {
        Seq::empty()
    }) + (if material::portal_added(pss.bonus_level_symbol, map.bonus_level) {
        seq![pss.bonus_level_symbol->0]
    } else {
        Seq::empty()
    }) + (if pss.end_symbol is Some {
        seq![pss.end_symbol->0]
    } else {
        Seq::empty()
    })
}

/// The geometry entry a map symbol resolves to has primitives to draw.
pub open spec fn cell_geo_nonempty(
    gs: Seq<char>,
    raw_geo: Seq<crate::parser::geometry::Geometry>,
    c: char,
) -> bool {
    match find_from(gs, c, 0) {
        Option::Some(k) => raw_geo[k].primitives is Some,
        Option::None => false,
    }
}

/// `cells_ok`, restated over the raw level data: every cell resolves, and
/// a cell whose material is one of the appended portal entries (index at
/// or past the raw entries) has non-empty geometry.
pub open spec fn cells_ok_raw(
    g: Seq<Seq<char>>,
    mm: Seq<Seq<char>>,
    gs: Seq<char>,
    ss: Seq<char>,
    ms: Seq<char>,
    n_raw_mtl: int,
    raw_geo: Seq<crate::parser::geometry::Geometry>,
) -> bool {
    forall|i: int, j: int|
        0 <= i < g.len() && 0 <= j < g[0].len() ==> cell_geo_known(gs, ss, #[trigger] g[i][j])
            && find_from(ms, #[trigger] mm[i][j], 0) is Some && (find_from(ms, mm[i][j], 0)->0
            >= n_raw_mtl ==> cell_geo_nonempty(gs, raw_geo, g[i][j]))
}

/// `cells_ok` over the built catalogs implies `cells_ok_raw` over the raw
/// level data, given how construction relates the two.
pub proof fn lemma_cells_ok_to_raw(
    g: Seq<Seq<char>>,
    mm: Seq<Seq<char>>,
    gs: Seq<char>,
    ss: Seq<char>,
    ms: Seq<char>,
    props: Seq<material::MaterialProperties>,
    geoms: Seq<Option<Vec<PrimitiveGeometry>>>,
    n_raw: int,
    raw_geo: Seq<crate::parser::geometry::Geometry>,
)
    requires
        ms.len() == props.len(),
        geoms.len() == raw_geo.len() + 1,
        gs.len() == raw_geo.len(),
        geoms[0] is None,
        forall|k: int|
            0 <= k < props.len() ==> ((#[trigger] props[k]).portal is Some <==> k >= n_raw),
        forall|k: int|
            1 <= k < geoms.len() ==> ((#[trigger] geoms[k]) is Some <==> raw_geo[k
                - 1].primitives is Some),
    ensures
        cells_ok(g, mm, gs, ss, ms, props, geoms) ==> cells_ok_raw(g, mm, gs, ss, ms, n_raw, raw_geo),
        cells_ok_raw(g, mm, gs, ss, ms, n_raw, raw_geo) ==> cells_ok(g, mm, gs, ss, ms, props, geoms),
{
    if cells_ok(g, mm, gs, ss, ms, props, geoms) {
        assert forall|i: int, j: int|
            0 <= i < g.len() && 0 <= j < g[0].len() implies cell_geo_known(
            gs,
            ss,
            #[trigger] g[i][j],
        ) && find_from(ms, #[trigger] mm[i][j], 0) is Some && (find_from(ms, mm[i][j], 0)->0
            >= n_raw ==> cell_geo_nonempty(gs, raw_geo, g[i][j])) by {
            lemma_find_from_range(ms, mm[i][j], 0);
            lemma_find_from_range(gs, g[i][j], 0);
            assert(cell_portal_ok(gs, ms, props, geoms, g[i][j], mm[i][j]));
            let k = find_from(ms, mm[i][j], 0)->0;
            if k >= n_raw {
                assert(props[k].portal is Some);
                assert(geoms[cell_geo_idx(gs, g[i][j])] is Some);
                match find_from(gs, g[i][j], 0) {
                    Option::Some(kg) => {
                        assert(geoms[kg + 1] is Some);
                    },
                    Option::None => {
                        assert(geoms[0] is None);
                    },
                }
            }
        }
        assert(cells_ok_raw(g, mm, gs, ss, ms, n_raw, raw_geo));
    }
    if cells_ok_raw(g, mm, gs, ss, ms, n_raw, raw_geo) {
        assert forall|i: int, j: int|
            0 <= i < g.len() && 0 <= j < g[0].len() implies cell_geo_known(
            gs,
            ss,
            #[trigger] g[i][j],
        ) && find_from(ms, #[trigger] mm[i][j], 0) is Some && cell_portal_ok(
            gs,
            ms,
            props,
            geoms,
            g[i][j],
            mm[i][j],
        ) by {
            lemma_find_from_range(ms, mm[i][j], 0);
            lemma_find_from_range(gs, g[i][j], 0);
            let k = find_from(ms, mm[i][j], 0)->0;
            assert(props[k].portal is Some <==> k >= n_raw);
            if props[k].portal is Some {
                assert(cell_geo_nonempty(gs, raw_geo, g[i][j]));
                match find_from(gs, g[i][j], 0) {
                    Option::Some(kg) => {
                        assert(geoms[kg + 1] is Some);
                    },
                    Option::None => {},
                }
            }
        }
        assert(cells_ok(g, mm, gs, ss, ms, props, geoms));
    }
}

/// A hit parameter list as the executable code carries it, lifted to the
/// mathematical integers.
pub open spec fn opt_lift(t: Option<i64>) -> Option<int> {
    match t {
        Option::Some(v) => Some(v as int),
        Option::None => None,
    }
}

/// The minimum visible hit among the first `i` primitives of a tile's
/// geometry entry (an earlier primitive wins ties).
pub open spec fn min_hit_upto(
    prims: Seq<PrimitiveGeometry>,
    o: Vec2i,
    d: Vec2i,
    tx: int,
    ty: int,
    i: int,
) -> Option<int>
    decreases i,
{
    if i <= 0 {
        None
    } else {
        let prev = min_hit_upto(prims, o, d, tx, ty, i - 1);
        match prim_visible_hit(prims[i - 1], o, d, tx, ty) {
            Option::Some(t) => match prev {
                Option::Some(tm) => if t < tm {
                    Some(t)
                } else {
                    Some(tm)
                },
                Option::None => Some(t),
            },
            Option::None => prev,
        }
    }
}

/// Every visible hit a tile reports lies within `[0, T_LIMIT]`.
pub proof fn lemma_min_hit_bounds(
    prims: Seq<PrimitiveGeometry>,
    o: Vec2i,
    d: Vec2i,
    tx: int,
    ty: int,
    i: int,
)
    ensures
        min_hit_upto(prims, o, d, tx, ty, i) matches Some(t) ==> 0 <= t <= T_LIMIT,
    decreases i,
{
    if i > 0 {
        lemma_min_hit_bounds(prims, o, d, tx, ty, i - 1);
    }
}

impl Level {
    /// A DDA march only ever returns a tile hit, so any distance it
    /// reports lies within `[0, T_LIMIT]`, from any in-bounds tile.
    pub proof fn lemma_dda_nonneg(
        self,
        o: Vec2i,
        d: Vec2i,
        tx: int,
        ty: int,
        sx_pos: bool,
        sy_pos: bool,
        dx: Option<int>,
        dy: Option<int>,
        sdx: int,
        sdy: int,
    )
        requires
            0 <= tx < self.map.width,
            0 <= ty < self.map.height,
        ensures
            self.dda(o, d, tx, ty, sx_pos, sy_pos, dx, dy, sdx, sdy) matches Some(t) ==> 0 <= t
                <= T_LIMIT,
        decreases (if sx_pos {
            self.map.width - 1 - tx
        } else {
            tx
        }) + (if sy_pos {
            self.map.height - 1 - ty
        } else {
            ty
        }),
    {
        match self.tile_hit(o, d, tx, ty) {
            Option::Some(t) => {
                match self.geo_set.geometries@[self.map.tiles@[ty]@[tx].geo_idx as int] {
                    Option::Some(prims) => {
                        lemma_min_hit_bounds(prims@, o, d, tx, ty, prims@.len() as int);
                    },
                    Option::None => {},
                }
            },
            Option::None => {
                let prefer_x = dx is Some && (dy is None || sdx <= sdy);
                if prefer_x {
                    if !((sx_pos && tx == self.map.width - 1) || (!sx_pos && tx == 0)) {
                        self.lemma_dda_nonneg(
                            o,
                            d,
                            if sx_pos {
                                tx + 1
                            } else {
                                tx - 1
                            },
                            ty,
                            sx_pos,
                            sy_pos,
                            dx,
                            dy,
                            sdx + dx->0,
                            sdy,
                        );
                    }
                } else {
                    if !((sy_pos && ty == self.map.height - 1) || (!sy_pos && ty == 0)) {
                        self.lemma_dda_nonneg(
                            o,
                            d,
                            tx,
                            if sy_pos {
                                ty + 1
                            } else {
                                ty - 1
                            },
                            sx_pos,
                            sy_pos,
                            dx,
                            dy,
                            sdx,
                            sdy + dy->0,
                        );
                    }
                }
            },
        }
    }

    /// Any distance a cast from a point strictly inside the grid reports
    /// is non-negative (and, being an integer, finite).
    pub proof fn lemma_wall_dist_nonneg(self, origin: Vec2i, dir0: Vec2i)
        requires
            self.map.wf(),
            0 < origin.x < self.map.width * FP,
            0 < origin.y < self.map.height * FP,
        ensures
            self.wall_dist_spec(origin, dir0) matches Some(v) ==> v >= 0,
    {
        let d = vnorm(dir0);
        if !(d.x == 0 && d.y == 0) {
            let tx = qdiv(origin.x, FP as int);
            let ty = qdiv(origin.y, FP as int);
            lemma_qdiv_bounds(origin.x, FP as int);
            lemma_qdiv_bounds(origin.y, FP as int);
            lemma_multiply_divide_lt(origin.x, FP as int, self.map.width as int);
            lemma_multiply_divide_lt(origin.y, FP as int, self.map.height as int);
            assert(self.map.width * FP == (FP as int) * (self.map.width as int))
                by (nonlinear_arith);
            assert(self.map.height * FP == (FP as int) * (self.map.height as int))
                by (nonlinear_arith);
            let dx: Option<int> = if d.x != 0 {
                Some(qdiv((FP * FP) as int, if d.x < 0 { -d.x } else { d.x }))
            } else {
                None
            };
            let dy: Option<int> = if d.y != 0 {
                Some(qdiv((FP * FP) as int, if d.y < 0 { -d.y } else { d.y }))
            } else {
                None
            };
            let sdx = match dx {
                Option::Some(v) => if d.x < 0 {
                    qdiv((origin.x - tx * FP) * v, FP as int)
                } else {
                    qdiv((tx * FP + FP - origin.x) * v, FP as int)
                },
                Option::None => 0,
            };
            let sdy = match dy {
                Option::Some(v) => if d.y < 0 {
                    qdiv((origin.y - ty * FP) * v, FP as int)
                } else {
                    qdiv((ty * FP + FP - origin.y) * v, FP as int)
                },
                Option::None => 0,
            };
            self.lemma_dda_nonneg(origin, d, tx, ty, d.x >= 0, d.y >= 0, dx, dy, sdx, sdy);
            match self.dda(origin, d, tx, ty, d.x >= 0, d.y >= 0, dx, dy, sdx, sdy) {
                Option::Some(t) => {
                    crate::vec2::lemma_component_le_len(dir0);
                    if vlen(dir0) == 0 {
                        crate::vec2::lemma_vlen_zero(dir0);
                        assert(d.x == 0 && d.y == 0);
                    }
                    assert(vlen(dir0) > 0);
                    lemma_qdiv_bounds(t * FP, vlen(dir0));
                    assert(t * FP >= 0) by (nonlinear_arith)
                        requires t >= 0, FP == 0x1_0000;
                },
                Option::None => {},
            }
        }
    }

    /// A level is well formed when its grid is, its tile indices stay
    /// inside its catalogs, and its geometry catalog is well formed.
    pub open spec fn wf(self) -> bool {
        self.map.wf() && self.geo_set.wf() && self.mtl_set.wf() && self.map.indices_ok(
            self.geo_set.geometries@.len() as int,
            self.mtl_set.material_properties@.len() as int,
        )
    }

    /// Build a level from raw, already-parsed level data: construct the
    /// two catalogs and the spawn symbol table, resolve the symbol maps
    /// into the tile grid, and require at least one spawn point.
    /// Succeeds exactly when the symbol spaces are duplicate-free, the map
    /// dimensions agree, every cell resolves, no portal sits on empty
    /// geometry, and a spawn marker exists.
    #[verifier::rlimit(100)]
    #[verifier::spinoff_prover]
    pub fn new(
        geo_map: &crate::parser::geometry::GeometryMap,
        raw_geo_set: &Vec<crate::parser::geometry::Geometry>,
        raw_spawn_set: &Vec<crate::parser::geometry::SpawnSymbol>,
        mtl_map: &crate::parser::material::MaterialMap,
        raw_mtl_set: &Vec<crate::parser::material::Material>,
        portal_symbol_set: &crate::parser::material::PortalSymbolSet,
    ) -> (r: Result<Level, LevelError>)
        ensures
            ({
                let g = geo_map.map@.map_values(|row: Vec<char>| row@);
                let mm = mtl_map.map@.map_values(|row: Vec<char>| row@);
                let gs = geo_symbols_of(raw_geo_set@);
                let ss = spawn_symbols_of(raw_spawn_set@);
                let players = spawn_players_of(raw_spawn_set@);
                let ms = mtl_symbols_of(raw_mtl_set@, *mtl_map, *portal_symbol_set);
                &&& ((r is Ok) <==> first_dup_from(gs + ss, 0) is None && first_dup_from(ms, 0)
                    is None && dims_ok(g, mm) && cells_ok_raw(
                    g,
                    mm,
                    gs,
                    ss,
                    ms,
                    raw_mtl_set@.len() as int,
                    raw_geo_set@,
                ) && map_spawns_upto(g, gs, ss, players, g.len() as int).len() > 0)
                &&& (r matches Ok(lvl) ==> {
                    &&& lvl.wf()
                    &&& lvl.spawns@.len() >= 1
                    &&& lvl.map.height == g.len()
                    &&& lvl.map.width == g[0].len()
                    &&& (forall|i: int, j: int|
                        0 <= i < g.len() && 0 <= j < g[0].len() ==> (
                        #[trigger] lvl.map.tiles@[i]@[j]).geo_idx == cell_geo_idx(gs, g[i][j])
                            && lvl.map.tiles@[i]@[j].mtl_idx == find_from(ms, mm[i][j], 0)->0)
                    &&& spawns_view(lvl.spawns@) == map_spawns_upto(
                        g,
                        gs,
                        ss,
                        players,
                        g.len() as int,
                    )
                })
                &&& (r matches Err(e) ==> match e {
                    LevelError::DuplicateSymbol { symbol } => first_dup_from(gs + ss, 0)
                        == Some(symbol) || (first_dup_from(gs + ss, 0) is None && first_dup_from(
                        ms,
                        0,
                    ) == Some(symbol)),
                    LevelError::MapDimensionMismatch => !dims_ok(g, mm),
                    LevelError::UnknownSymbol { symbol, line, col } => 0 <= line < g.len() && 0
                        <= col < g[0].len() && ((symbol == g[line as int][col as int]
                        && !cell_geo_known(gs, ss, symbol)) || (symbol == mm[line as int][
                        col as int
                    ] && find_from(ms, symbol, 0) is None)),
                    LevelError::InvalidPortalPlacement { line, col } => 0 <= line < g.len() && 0
                        <= col < g[0].len() && (find_from(ms, mm[line as int][col as int], 0)
                        matches Some(k) && k >= raw_mtl_set@.len() && !cell_geo_nonempty(
                        gs,
                        raw_geo_set@,
                        g[line as int][col as int],
                    )),
                    LevelError::NoSpawnAvailable => map_spawns_upto(
                        g,
                        gs,
                        ss,
                        players,
                        g.len() as int,
                    ).len() == 0,
                })
            }),
    {
        let ghost gs = geo_symbols_of(raw_geo_set@);
        let ghost ss = spawn_symbols_of(raw_spawn_set@);
        let ghost players = spawn_players_of(raw_spawn_set@);
        let ghost ms = mtl_symbols_of(raw_mtl_set@, *mtl_map, *portal_symbol_set);

        let (geo_set, geo_set_symbols) = GeometrySet::new(raw_geo_set);
        let spawn_symbol_set = SpawnSymbolSet::new(raw_spawn_set);
        let (mtl_set, mtl_set_symbols) = MaterialSet::new(
            raw_mtl_set,
            mtl_map,
            portal_symbol_set,
        );
        proof {
            assert(geo_set_symbols@ =~= gs);
            assert(spawn_symbol_set.symbols@ =~= ss);
            assert(spawn_symbol_set.players@ =~= players);
            assert(mtl_set_symbols@.len() == ms.len());
            assert forall|k: int| 0 <= k < ms.len() implies mtl_set_symbols@[k] == ms[k] by {
                let n_raw = raw_mtl_set@.len() as int;
                let base = raw_mtl_set@.map_values(
                    |e: crate::parser::material::Material| e.symbol,
                );
                if k < n_raw {
                    assert(mtl_set.material_properties@[k] == mtl_set.material_properties@[k]);
                    assert(mtl_set_symbols@[k] == raw_mtl_set@[k].symbol);
                    assert(ms[k] == base[k]);
                } else {
                    let a1 = material::portal_added(
                        portal_symbol_set.previous_level_symbol,
                        mtl_map.previous_level,
                    );
                    let a2 = material::portal_added(
                        portal_symbol_set.next_level_symbol,
                        mtl_map.next_level,
                    );
                    let a3 = material::portal_added(
                        portal_symbol_set.bonus_level_symbol,
                        mtl_map.bonus_level,
                    );
                    let a4 = portal_symbol_set.end_symbol is Some;
                    let o2 = n_raw + (if a1 { 1int } else { 0int });
                    let o3 = o2 + (if a2 { 1int } else { 0int });
                    let o4 = o3 + (if a3 { 1int } else { 0int });
                    if a1 && k == n_raw {
                        assert(mtl_set_symbols@[k]
                            == portal_symbol_set.previous_level_symbol->0);
                        assert(ms[k] == portal_symbol_set.previous_level_symbol->0);
                    } else if a2 && k == o2 {
                        assert(mtl_set_symbols@[k] == portal_symbol_set.next_level_symbol->0);
                        assert(ms[k] == portal_symbol_set.next_level_symbol->0);
                    } else if a3 && k == o3 {
                        assert(mtl_set_symbols@[k] == portal_symbol_set.bonus_level_symbol->0);
                        assert(ms[k] == portal_symbol_set.bonus_level_symbol->0);
                    } else if a4 && k == o4 {
                        assert(mtl_set_symbols@[k] == portal_symbol_set.end_symbol->0);
                        assert(ms[k] == portal_symbol_set.end_symbol->0);
                    } else {
                        assert(false);
                    }
                }
            }
            assert(mtl_set_symbols@ =~= ms);
            // the appended entries, and only they, carry a portal
            assert forall|k: int|
                0 <= k < mtl_set.material_properties@.len() implies ((
            #[trigger] mtl_set.material_properties@[k]).portal is Some <==> k
                >= raw_mtl_set@.len()) by {
                assert(mtl_set.material_properties@[k] == mtl_set.material_properties@[k]);
            }
            // a geometry entry is non-empty exactly when its raw entry has
            // primitives
            assert forall|k: int|
                0 <= k < geo_set.geometries@.len() implies ((#[trigger] geo_set.geometries@[k])
                is Some <==> (k >= 1 && raw_geo_set@[k - 1].primitives is Some)) by {
                if k >= 1 {
                    assert(self::geometry::entry_from_raw(
                        geo_set.geometries@[k],
                        raw_geo_set@[k - 1].primitives,
                    ));
                }
            }
        }
        let result = TileGrid::new(
            &geo_map.map,
            &mtl_map.map,
            &geo_set,
            &geo_set_symbols,
            &mtl_set,
            &mtl_set_symbols,
            &spawn_symbol_set,
        );
        proof {
            let g = geo_map.map@.map_values(|row: Vec<char>| row@);
            let mm = mtl_map.map@.map_values(|row: Vec<char>| row@);
            lemma_cells_ok_to_raw(
                g,
                mm,
                gs,
                ss,
                ms,
                mtl_set.material_properties@,
                geo_set.geometries@,
                raw_mtl_set@.len() as int,
                raw_geo_set@,
            );
        }
        match result {
            Ok((map, spawns)) => {
                if spawns.len() == 0 {
                    return Err(LevelError::NoSpawnAvailable);
                }
                Ok(Level { geo_set, mtl_set, spawns, map })
            },
            Err(e) => {
                proof {
                    let g = geo_map.map@.map_values(|row: Vec<char>| row@);
                    let mm = mtl_map.map@.map_values(|row: Vec<char>| row@);
                    let props = mtl_set.material_properties@;
                    let geoms = geo_set.geometries@;
                    match e {
                        LevelError::InvalidPortalPlacement { line, col } => {
                            let gc = g[line as int][col as int];
                            let mc = mm[line as int][col as int];
                            assert(!cell_portal_ok(gs, ms, props, geoms, gc, mc));
                            lemma_find_from_range(ms, mc, 0);
                            lemma_find_from_range(gs, gc, 0);
                            let k = find_from(ms, mc, 0)->0;
                            assert(props[k].portal is Some);
                            assert(k >= raw_mtl_set@.len());
                            assert(geoms[cell_geo_idx(gs, gc)] is None);
                            match find_from(gs, gc, 0) {
                                Option::Some(kg) => {
                                    assert(geo_set.geometries@[kg + 1] is None);
                                    assert(!(raw_geo_set@[kg].primitives is Some));
                                },
                                Option::None => {},
                            }
                            assert(!cell_geo_nonempty(gs, raw_geo_set@, gc));
                        },
                        _ => {},
                    }
                }
                Err(e)
            },
        }
    }

    /// The nearest visible hit the geometry entry of tile `(tx, ty)`
    /// reports for a ray, or `None` on an empty entry or a miss.
    pub open spec fn tile_hit(self, o: Vec2i, d: Vec2i, tx: int, ty: int) -> Option<int> {
        match self.geo_set.geometries@[self.map.tiles@[ty]@[tx].geo_idx as int] {
            Option::Some(prims) => min_hit_upto(prims@, o, d, tx, ty, prims@.len() as int),
            Option::None => None,
        }
    }

    /// One DDA traversal state and what the rest of the march returns from
    /// it: the current tile's nearest hit if it has one; otherwise a step
    /// along the axis whose next grid line is closer (the x axis on ties),
    /// or `None` when that axis has already reached the grid border.
    /// `dx`/`dy` are the per-axis crossing costs (`None` on an axis the
    /// ray never crosses), `sdx`/`sdy` the accumulated distances to the
    /// next crossing.
    pub open spec fn dda(
        self,
        o: Vec2i,
        d: Vec2i,
        tx: int,
        ty: int,
        sx_pos: bool,
        sy_pos: bool,
        dx: Option<int>,
        dy: Option<int>,
        sdx: int,
        sdy: int,
    ) -> Option<int>
        decreases (if sx_pos {
            self.map.width - 1 - tx
        } else {
            tx
        }) + (if sy_pos {
            self.map.height - 1 - ty
        } else {
            ty
        }),
        when 0 <= tx < self.map.width && 0 <= ty < self.map.height
    {
        match self.tile_hit(o, d, tx, ty) {
            Option::Some(t) => Some(t),
            Option::None => {
                let prefer_x = dx is Some && (dy is None || sdx <= sdy);
                if prefer_x {
                    if (sx_pos && tx == self.map.width - 1) || (!sx_pos && tx == 0) {
                        None
                    } else {
                        self.dda(
                            o,
                            d,
                            if sx_pos {
                                tx + 1
                            } else {
                                tx - 1
                            },
                            ty,
                            sx_pos,
                            sy_pos,
                            dx,
                            dy,
                            sdx + dx->0,
                            sdy,
                        )
                    }
                } else {
                    if (sy_pos && ty == self.map.height - 1) || (!sy_pos && ty == 0) {
                        None
                    } else {
                        self.dda(
                            o,
                            d,
                            tx,
                            if sy_pos {
                                ty + 1
                            } else {
                                ty - 1
                            },
                            sx_pos,
                            sy_pos,
                            dx,
                            dy,
                            sdx,
                            sdy + dy->0,
                        )
                    }
                }
            },
        }
    }

    /// What `get_wall_dist` returns: set up the march exactly as the
    /// executable code does (normalize the direction, find the start tile,
    /// derive per-axis crossing costs and initial side distances), run the
    /// DDA, and scale a hit back by the original direction's length to
    /// undo the fisheye distortion.
    pub open spec fn wall_dist_spec(self, origin: Vec2i, dir0: Vec2i) -> Option<int> {
        let ray_len = vlen(dir0);
        let d = vnorm(dir0);
        if d.x == 0 && d.y == 0 {
            None
        } else {
            let tx = qdiv(origin.x, FP as int);
            let ty = qdiv(origin.y, FP as int);
            let dx: Option<int> = if d.x != 0 {
                Some(qdiv((FP * FP) as int, if d.x < 0 { -d.x } else { d.x }))
            } else {
                None
            };
            let dy: Option<int> = if d.y != 0 {
                Some(qdiv((FP * FP) as int, if d.y < 0 { -d.y } else { d.y }))
            } else {
                None
            };
            let sdx = match dx {
                Option::Some(v) => if d.x < 0 {
                    qdiv((origin.x - tx * FP) * v, FP as int)
                } else {
                    qdiv((tx * FP + FP - origin.x) * v, FP as int)
                },
                Option::None => 0,
            };
            let sdy = match dy {
                Option::Some(v) => if d.y < 0 {
                    qdiv((origin.y - ty * FP) * v, FP as int)
                } else {
                    qdiv((ty * FP + FP - origin.y) * v, FP as int)
                },
                Option::None => 0,
            };
            match self.dda(origin, d, tx, ty, d.x >= 0, d.y >= 0, dx, dy, sdx, sdy) {
                Option::Some(t) => Some(qdiv(t * FP, ray_len)),
                Option::None => None,
            }
        }
    }

    /// The perpendicular distance to the nearest visible surface along
    /// `ray`, or `None` when the ray leaves the grid without a hit.  The
    /// origin must lie strictly inside the grid; the direction need not be
    /// normalized and must not be zero.  The traversal's loop invariant
    /// keeps the visited tile inside `[0, width) x [0, height)`, so no
    /// step ever reads a tile outside the grid.
    #[verifier::loop_isolation(false)]
    #[verifier::rlimit(100)]
    #[verifier::spinoff_prover]
    pub fn get_wall_dist(&self, ray: Ray) -> (r: Option<i64>)
        requires
            self.wf(),
            0 < ray.origin.x < self.map.width * FP,
            0 < ray.origin.y < self.map.height * FP,
            bounded(ray.dir@, 0x20_0000),
            !(ray.dir.x == 0 && ray.dir.y == 0),
        ensures
            opt_lift(r) == self.wall_dist_spec(ray.origin@, ray.dir@),
            r matches Some(v) ==> v >= 0,
    {
        let ghost dir0 = ray.dir@;
        let ghost origin = ray.origin@;
        let mut ray = ray;
        let ray_len = ray.dir.length();
        proof {
            assert(dir0.x * dir0.x + dir0.y * dir0.y >= 1) by (nonlinear_arith)
                requires !(dir0.x == 0 && dir0.y == 0);
            lemma_sqrt_floor(dir0.x * dir0.x + dir0.y * dir0.y);
            assert(ray_len >= 1);
            lemma_vnorm_bounds(dir0);
        }
        ray.dir.normalize();
        let d = ray.dir;
        if d.x == 0 && d.y == 0 {
            return None;
        }
        // start tile
        let tile_x0 = ((ray.origin.x as u64) / (FP as u64)) as usize;
        let tile_y0 = ((ray.origin.y as u64) / (FP as u64)) as usize;
        proof {
            lemma_multiply_divide_lt(origin.x, FP as int, self.map.width as int);
            lemma_multiply_divide_lt(origin.y, FP as int, self.map.height as int);
            assert(self.map.width * FP == (FP as int) * self.map.width) by (nonlinear_arith);
            assert(self.map.height * FP == (FP as int) * self.map.height) by (nonlinear_arith);
            assert(tile_x0 as int == qdiv(origin.x, FP as int));
            assert(tile_y0 as int == qdiv(origin.y, FP as int));
            assert(tile_x0 < self.map.width);
            assert(tile_y0 < self.map.height);
        }
        // per-axis crossing costs
        let delta_x: Option<i64> = if d.x != 0 {
            let ax = if d.x < 0 {
                -d.x
            } else {
                d.x
            };
            let v = div_q((FP as i128) * (FP as i128), ax as i128);
            proof {
                lemma_qdiv_bounds((FP * FP) as int, ax as int);
                assert((FP * FP) as int <= 0x1_0000_0000int * (ax as int)) by (nonlinear_arith)
                    requires ax >= 1, FP == 0x1_0000;
                crate::fixed::lemma_qdiv_scaled_bound(
                    (FP * FP) as int,
                    ax as int,
                    0x1_0000_0000int,
                );
                assert(v >= FP) by {
                    assert(qdiv((FP * FP) as int, ax as int) >= FP) by (nonlinear_arith)
                        requires
                            1 <= ax <= FP,
                            FP == 0x1_0000,
                            qdiv((FP * FP) as int, ax as int) == ((FP * FP) as int) / (ax as int);
                }
            }
            Some(v as i64)
        } else {
            None
        };
        let delta_y: Option<i64> = if d.y != 0 {
            let ay = if d.y < 0 {
                -d.y
            } else {
                d.y
            };
            let v = div_q((FP as i128) * (FP as i128), ay as i128);
            proof {
                lemma_qdiv_bounds((FP * FP) as int, ay as int);
                assert((FP * FP) as int <= 0x1_0000_0000int * (ay as int)) by (nonlinear_arith)
                    requires ay >= 1, FP == 0x1_0000;
                crate::fixed::lemma_qdiv_scaled_bound(
                    (FP * FP) as int,
                    ay as int,
                    0x1_0000_0000int,
                );
                assert(v >= FP) by {
                    assert(qdiv((FP * FP) as int, ay as int) >= FP) by (nonlinear_arith)
                        requires
                            1 <= ay <= FP,
                            FP == 0x1_0000,
                            qdiv((FP * FP) as int, ay as int) == ((FP * FP) as int) / (ay as int);
                }
            }
            Some(v as i64)
        } else {
            None
        };
        // initial side distances: the fraction of a tile to the next grid
        // line along each axis, scaled by that axis's crossing cost
        proof {
            lemma_fundamental_div_mod(origin.x, FP as int);
            lemma_fundamental_div_mod(origin.y, FP as int);
            lemma_mod_division_less_than_divisor(origin.x, FP as int);
            lemma_mod_division_less_than_divisor(origin.y, FP as int);
        }
        let mut side_x: i64 = 0;
        if let Some(v) = delta_x {
            let frac = if d.x < 0 {
                ray.origin.x - (tile_x0 as i64) * FP
            } else {
                (tile_x0 as i64) * FP + FP - ray.origin.x
            };
            proof {
                assert(0 <= (frac as int) * (v as int) <= (v as int) * FP) by (nonlinear_arith)
                    requires 0 <= frac <= FP, FP <= v, FP == 0x1_0000;
                lemma_qdiv_scaled_bound((frac as int) * (v as int), FP as int, v as int);
                lemma_qdiv_bounds((frac as int) * (v as int), FP as int);
            }
            side_x = div_q(mul_wide(frac, v), FP as i128) as i64;
            proof {
                assert(0 <= side_x);
                assert(side_x <= v);
            }
        }
        proof {
            assert(delta_x matches Some(vv) ==> 0 <= side_x && side_x <= vv);
        }
        let mut side_y: i64 = 0;
        if let Some(v) = delta_y {
            let frac = if d.y < 0 {
                ray.origin.y - (tile_y0 as i64) * FP
            } else {
                (tile_y0 as i64) * FP + FP - ray.origin.y
            };
            proof {
                assert(0 <= (frac as int) * (v as int) <= (v as int) * FP) by (nonlinear_arith)
                    requires 0 <= frac <= FP, FP <= v, FP == 0x1_0000;
                lemma_qdiv_scaled_bound((frac as int) * (v as int), FP as int, v as int);
                lemma_qdiv_bounds((frac as int) * (v as int), FP as int);
            }
            side_y = div_q(mul_wide(frac, v), FP as i128) as i64;
            proof {
                assert(0 <= side_y);
                assert(side_y <= v);
            }
        }
        proof {
            assert(delta_y matches Some(vv) ==> 0 <= side_y && side_y <= vv);
        }
        let sx_pos = d.x >= 0;
        let sy_pos = d.y >= 0;
        let ghost dxo: Option<int> = match delta_x {
            Option::Some(v) => Some(v as int),
            Option::None => None,
        };
        let ghost dyo: Option<int> = match delta_y {
            Option::Some(v) => Some(v as int),
            Option::None => None,
        };
        let ghost target = self.dda(
            origin,
            d@,
            tile_x0 as int,
            tile_y0 as int,
            sx_pos,
            sy_pos,
            dxo,
            dyo,
            side_x as int,
            side_y as int,
        );
        proof {
            assert(self.wall_dist_spec(origin, dir0) == match target {
                Option::Some(t) => Some(qdiv(t * FP, ray_len as int)),
                Option::None => None,
            });
        }
        let mut tile_x = tile_x0;
        let mut tile_y = tile_y0;
        proof {
            match dxo {
                Option::Some(v) => {
                    assert(0 <= side_x && side_x <= v);
                    assert(((if sx_pos {
                        tile_x as int - tile_x0 as int
                    } else {
                        tile_x0 as int - tile_x as int
                    }) + 1) * v == v) by (nonlinear_arith)
                        requires tile_x == tile_x0;
                },
                Option::None => {},
            }
            match dyo {
                Option::Some(v) => {
                    assert(0 <= side_y && side_y <= v);
                    assert(((if sy_pos {
                        tile_y as int - tile_y0 as int
                    } else {
                        tile_y0 as int - tile_y as int
                    }) + 1) * v == v) by (nonlinear_arith)
                        requires tile_y == tile_y0;
                },
                Option::None => {},
            }
        }
        loop
            invariant
                0 <= tile_x < self.map.width,
                0 <= tile_y < self.map.height,
                sx_pos ==> tile_x0 <= tile_x,
                !sx_pos ==> tile_x <= tile_x0,
                sy_pos ==> tile_y0 <= tile_y,
                !sy_pos ==> tile_y <= tile_y0,
                dxo matches Some(v) ==> FP <= v <= 0x1_0000_0000,
                dyo matches Some(v) ==> FP <= v <= 0x1_0000_0000,
                dxo matches Some(v) ==> 0 <= side_x && side_x <= ((if sx_pos {
                    tile_x - tile_x0
                } else {
                    tile_x0 - tile_x
                }) + 1) * v,
                dyo matches Some(v) ==> 0 <= side_y && side_y <= ((if sy_pos {
                    tile_y - tile_y0
                } else {
                    tile_y0 - tile_y
                }) + 1) * v,
                (dxo is Some) == (d.x != 0),
                (dyo is Some) == (d.y != 0),
                target == self.dda(
                    origin,
                    d@,
                    tile_x as int,
                    tile_y as int,
                    sx_pos,
                    sy_pos,
                    dxo,
                    dyo,
                    side_x as int,
                    side_y as int,
                ),
            decreases (if sx_pos {
                self.map.width - 1 - tile_x
            } else {
                tile_x as int
            }) + (if sy_pos {
                self.map.height - 1 - tile_y
            } else {
                tile_y as int
            }),
        {
            // test every primitive of the tile we are in and keep the
            // nearest visible hit
            let geo_idx = self.map.tiles[tile_y][tile_x].geo_idx;
            let mut t_min: Option<i64> = None;
            if let Some(prims) = &self.geo_set.geometries[geo_idx] {
                proof {
                    assert(entry_wf(self.geo_set.geometries@[geo_idx as int]));
                }
                let np = prims.len();
                let mut k: usize = 0;
                while k < np
                    invariant
                        0 <= k <= np,
                        np == prims@.len(),
                        self.geo_set.geometries@[geo_idx as int] == Some(*prims),
                        t_min matches Some(t) ==> 0 <= t <= T_LIMIT,
                        opt_lift(t_min) == min_hit_upto(
                            prims@,
                            origin,
                            d@,
                            tile_x as int,
                            tile_y as int,
                            k as int,
                        ),
                    decreases np - k,
                {
                    if let Some(t) = prims[k].ray_intersection(ray, tile_x, tile_y) {
                        if t_min.is_none() || t < t_min.unwrap() {
                            t_min = Some(t);
                        }
                    }
                    k += 1;
                }
            }
            proof {
                assert(opt_lift(t_min) == self.tile_hit(
                    origin,
                    d@,
                    tile_x as int,
                    tile_y as int,
                ));
            }
            if let Some(t) = t_min {
                let dist = div_q(mul_wide(t, FP), ray_len as i128);
                proof {
                    lemma_qdiv_bounds((t as int) * (FP as int), ray_len as int);
                    assert(0 <= (t as int) * (FP as int) <= 0x100_0000_0000_0000int)
                        by (nonlinear_arith)
                        requires 0 <= t <= T_LIMIT, T_LIMIT == 0x100_0000_0000, FP == 0x1_0000;
                }
                return Some(dist as i64);
            }
            // advance to the next tile along the axis whose next grid line
            // is closer; the x axis wins ties
            let prefer_x = match (delta_x, delta_y) {
                (Some(_), None) => true,
                (Some(_), Some(_)) => side_x <= side_y,
                _ => false,
            };
            if prefer_x {
                if (sx_pos && tile_x == self.map.width - 1) || (!sx_pos && tile_x == 0) {
                    return None;
                }
                let v = delta_x.unwrap();
                proof {
                    let travel = if sx_pos {
                        tile_x - tile_x0
                    } else {
                        tile_x0 - tile_x
                    };
                    assert((travel + 1) * (v as int) + v <= (travel + 2) * (v as int)
                        && (travel + 2) * (v as int) <= 0x1002 * 0x1_0000_0000int)
                        by (nonlinear_arith)
                        requires 0 <= travel + 2 <= 0x1002, FP <= v <= 0x1_0000_0000;
                }
                side_x = side_x + v;
                tile_x = if sx_pos {
                    tile_x + 1
                } else {
                    tile_x - 1
                };
            } else {
                proof {
                    assert(delta_y is Some);
                }
                if (sy_pos && tile_y == self.map.height - 1) || (!sy_pos && tile_y == 0) {
                    return None;
                }
                let v = delta_y.unwrap();
                proof {
                    let travel = if sy_pos {
                        tile_y - tile_y0
                    } else {
                        tile_y0 - tile_y
                    };
                    assert((travel + 1) * (v as int) + v <= (travel + 2) * (v as int)
                        && (travel + 2) * (v as int) <= 0x1002 * 0x1_0000_0000int)
                        by (nonlinear_arith)
                        requires 0 <= travel + 2 <= 0x1002, FP <= v <= 0x1_0000_0000;
                }
                side_y = side_y + v;
                tile_y = if sy_pos {
                    tile_y + 1
                } else {
                    tile_y - 1
                };
            }
        }
    }

    /// The vertical segment drawn for screen column `x`, if any: the
    /// camera-space offset of the column fans the facing direction out
    /// across the camera plane, the ray is cast, and a hit's perpendicular
    /// distance fixes the segment's height on screen.
    pub open spec fn column_segment(
        self,
        w: int,
        h: int,
        pos: Vec2i,
        dir: Vec2i,
        hlen: int,
        x: int,
    ) -> Option<(int, int)> {
        let cx = qdiv(2 * x * FP, w) - FP;
        let plane = vscale(vorth(dir, true), hlen);
        let dcol = vadd(dir, vscale(plane, cx));
        if dcol.x == 0 && dcol.y == 0 {
            None
        } else {
            match self.wall_dist_spec(pos, dcol) {
                Option::Some(dist) => if dist == 0 {
                    Some((0, h - 1))
                } else {
                    let lh = qdiv(qdiv(h * FP, dist) * 13, 10);
                    let start = if lh > h {
                        0int
                    } else {
                        (h - lh) / 2
                    };
                    let end = if h / 2 + lh / 2 >= h {
                        h - 1
                    } else {
                        h / 2 + lh / 2
                    };
                    Some((start, end))
                },
                Option::None => None,
            }
        }
    }

    /// The draw commands for the first `x` screen columns, in column
    /// order; columns whose ray leaves the grid contribute nothing.
    pub open spec fn columns_upto(
        self,
        w: int,
        h: int,
        pos: Vec2i,
        dir: Vec2i,
        hlen: int,
        x: int,
    ) -> Seq<(int, int, int)>
        decreases x,
    {
        if x <= 0 {
            Seq::empty()
        } else {
            let prev = self.columns_upto(w, h, pos, dir, hlen, x - 1);
            match self.column_segment(w, h, pos, dir, hlen, x - 1) {
                Option::Some(se) => prev + seq![(x - 1, se.0, se.1)],
                Option::None => prev,
            }
        }
    }

    /// Cast one ray per screen column and emit a vertical draw command for
    /// every column whose ray hits a surface.  `camera_plane_hlen` is the
    /// fixed-point half-length of the camera plane (the tangent of half
    /// the field-of-view angle).
    #[verifier::loop_isolation(false)]
    #[verifier::rlimit(100)]
    #[verifier::spinoff_prover]
    pub fn draw(
        &self,
        width: usize,
        height: usize,
        pos: Vec2,
        dir: Vec2,
        camera_plane_hlen: i64,
    ) -> (r: Vec<DrawCommand>)
        requires
            self.wf(),
            1 <= width <= 0x1_0000,
            1 <= height <= 0x1_0000,
            0 < pos.x < self.map.width * FP,
            0 < pos.y < self.map.height * FP,
            bounded(dir@, 2 * FP),
            0 <= camera_plane_hlen <= 4 * FP,
        ensures
            r@.map_values(|c: DrawCommand| (c.column as int, c.start as int, c.end as int))
                == self.columns_upto(
                width as int,
                height as int,
                pos@,
                dir@,
                camera_plane_hlen as int,
                width as int,
            ),
            forall|i: int|
                0 <= i < r@.len() ==> (#[trigger] r@[i]).column < width && 0 <= r@[i].start
                    && r@[i].start < height && 0 <= r@[i].end < height,
    {
        proof {
            assert(-(0x8_0000int * FP) <= (-(dir@.y as int)) * (camera_plane_hlen as int)
                <= 0x8_0000int * FP && -(0x8_0000int * FP) <= (dir@.x as int) * (
            camera_plane_hlen as int) <= 0x8_0000int * FP) by (nonlinear_arith)
                requires
                    -0x2_0000 <= dir@.x <= 0x2_0000,
                    -0x2_0000 <= dir@.y <= 0x2_0000,
                    0 <= camera_plane_hlen <= 0x4_0000,
                    FP == 0x1_0000;
        }
        let camera_plane_dir = dir.orthogonal(true).scaled(camera_plane_hlen);
        proof {
            lemma_qdiv_scaled_bound(
                (-(dir@.y as int)) * (camera_plane_hlen as int),
                FP as int,
                0x8_0000int,
            );
            lemma_qdiv_scaled_bound(
                (dir@.x as int) * (camera_plane_hlen as int),
                FP as int,
                0x8_0000int,
            );
            assert(-0x8_0000int <= camera_plane_dir.x <= 0x8_0000int && -0x8_0000int
                <= camera_plane_dir.y <= 0x8_0000int);
        }
        let mut commands: Vec<DrawCommand> = Vec::new();
        let mut x: usize = 0;
        while x < width
            invariant
                0 <= x <= width,
                commands@.map_values(|c: DrawCommand| (c.column as int, c.start as int, c.end as int))
                    == self.columns_upto(
                    width as int,
                    height as int,
                    pos@,
                    dir@,
                    camera_plane_hlen as int,
                    x as int,
                ),
                forall|i: int|
                    0 <= i < commands@.len() ==> (#[trigger] commands@[i]).column < width && 0
                        <= commands@[i].start && commands@[i].start < height && 0
                        <= commands@[i].end < height,
            decreases width - x,
        {
            let ghost prev_cmds = commands@;
            // x-coordinate of the column in camera space, in [-FP, FP)
            let camera_x = div_q((2 * (x as i128)) * (FP as i128), width as i128) as i64 - FP;
            proof {
                lemma_qdiv_scaled_bound(2 * (x as int) * (FP as int), width as int, 2 * FP as int);
                assert(0 <= 2 * (x as int) * (FP as int) <= (2 * FP as int) * (width as int))
                    by (nonlinear_arith)
                    requires 0 <= x < width, FP == 0x1_0000;
            }
            proof {
                assert(-(0x10_0000int * FP) <= (camera_plane_dir.x as int) * (camera_x as int)
                    <= 0x10_0000int * FP && -(0x10_0000int * FP) <= (camera_plane_dir.y as int) * (
                camera_x as int) <= 0x10_0000int * FP) by (nonlinear_arith)
                    requires
                        -0x8_0000 <= camera_plane_dir.x <= 0x8_0000,
                        -0x8_0000 <= camera_plane_dir.y <= 0x8_0000,
                        -0x2_0000 <= camera_x <= 0x2_0000,
                        FP == 0x1_0000;
            }
            let col_offset = camera_plane_dir.scaled(camera_x);
            proof {
                lemma_qdiv_scaled_bound(
                    (camera_plane_dir.x as int) * (camera_x as int),
                    FP as int,
                    0x10_0000int,
                );
                lemma_qdiv_scaled_bound(
                    (camera_plane_dir.y as int) * (camera_x as int),
                    FP as int,
                    0x10_0000int,
                );
            }
            let ray_dir = dir.add(col_offset);
            if !(ray_dir.x == 0 && ray_dir.y == 0) {
                let wall_dist = self.get_wall_dist(Ray::new(pos, ray_dir));
                if let Some(dist) = wall_dist {
                    let (draw_start, draw_end) = if dist == 0 {
                        (0i64, height as i64 - 1)
                    } else {
                        // height of the column's wall slice on screen
                        let line_height = div_q(
                            div_q((height as i128) * (FP as i128), dist as i128) * 13,
                            10,
                        );
                        proof {
                            lemma_qdiv_bounds((height as int) * (FP as int), dist as int);
                            lemma_qdiv_bounds(
                                qdiv((height as int) * (FP as int), dist as int) * 13,
                                10,
                            );
                            assert(0 <= (height as int) * (FP as int)
                                <= 0x1_0000_0000_0000int) by (nonlinear_arith)
                                requires 1 <= height <= 0x1_0000, FP == 0x1_0000;
                            assert(0 <= qdiv((height as int) * (FP as int), dist as int) * 13
                                <= 0xD_0000_0000_0000int) by (nonlinear_arith)
                                requires
                                    0 <= qdiv((height as int) * (FP as int), dist as int)
                                        <= 0x1_0000_0000_0000int;
                        }
                        let lh = line_height as i64;
                        let start: i64 = if lh > height as i64 {
                            0
                        } else {
                            (height as i64 - lh) / 2
                        };
                        let half = height as i64 / 2 + lh / 2;
                        let end: i64 = if half >= height as i64 {
                            height as i64 - 1
                        } else {
                            half
                        };
                        (start, end)
                    };
                    commands.push(DrawCommand { column: x, start: draw_start, end: draw_end });
                    proof {
                        assert(commands@.map_values(
                            |c: DrawCommand| (c.column as int, c.start as int, c.end as int),
                        ) =~= prev_cmds.map_values(
                            |c: DrawCommand| (c.column as int, c.start as int, c.end as int),
                        ) + seq![(x as int, draw_start as int, draw_end as int)]);
                    }
                }
            }
            x += 1;
            proof {
                assert(commands@.map_values(
                    |c: DrawCommand| (c.column as int, c.start as int, c.end as int),
                ) =~= self.columns_upto(
                    width as int,
                    height as int,
                    pos@,
                    dir@,
                    camera_plane_hlen as int,
                    x as int,
                ));
            }
        }
        commands
    }
}

} // verus!

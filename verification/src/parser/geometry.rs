//! Raw geometry-side level data: spawn symbols, named geometry entries and
//! the geometry half of a level document.

use vstd::prelude::*;
use crate::geometry::RawPrimitive;

verus! {

/// One spawn marker: a map symbol and the player it belongs to.
#[derive(Clone, Copy, Debug)]
pub struct SpawnSymbol {
    pub player: usize,
    pub symbol: char,
}

/// The spawn markers a level understands.
#[derive(Clone, Debug)]
pub struct SpawnSymbolSet {
    pub spawn_symbol_set: Vec<SpawnSymbol>,
}

/// One named geometry entry: its map symbol and its primitives, or `None`
/// for an entry with nothing to draw.
#[derive(Clone, Debug)]
pub struct Geometry {
    pub name: String,
    pub symbol: char,
    pub primitives: Option<Vec<RawPrimitive>>,
}

/// The geometry entries a level catalog is built from.
#[derive(Clone, Debug)]
pub struct GeometrySet {
    pub geometry_set: Vec<Geometry>,
}

/// The geometry half of a level document: which geometry set and spawn
/// symbol set it uses, and the map rows of geometry symbols.
#[derive(Clone, Debug)]
pub struct GeometryMap {
    pub geometry_set: String,
    pub spawn_symbol_set: String,
    pub map: Vec<Vec<char>>,
}

} // verus!

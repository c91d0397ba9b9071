//! The geometry-side runtime catalogs of a level: spawn symbols and the
//! geometry catalog, built from raw level data.

use vstd::prelude::*;
use crate::geometry::{PrimitiveGeometry, RawPrimitive, prim_wf, prim_from_raw};
use crate::parser::geometry::{SpawnSymbol, Geometry};

verus! {

/// Spawn markers split into parallel symbol and player columns.
#[derive(Debug)]
pub struct SpawnSymbolSet {
    pub symbols: Vec<char>,
    pub players: Vec<usize>,
}

impl SpawnSymbolSet {
    /// Split raw spawn markers into parallel symbol and player columns,
    /// keeping their order.
    pub fn new(raw_set: &Vec<SpawnSymbol>) -> (r: SpawnSymbolSet)
        ensures
            r.symbols@.len() == raw_set@.len(),
            r.players@.len() == raw_set@.len(),
            forall|i: int|
                0 <= i < raw_set@.len() ==> r.symbols@[i] == raw_set@[i].symbol && r.players@[i]
                    == raw_set@[i].player,
    {
        let n = raw_set.len();
        let mut symbols: Vec<char> = Vec::new();
        let mut players: Vec<usize> = Vec::new();
        let mut i: usize = 0;
        while i < n
            invariant
                0 <= i <= n,
                n == raw_set@.len(),
                symbols@.len() == i,
                players@.len() == i,
                forall|m: int|
                    0 <= m < i ==> symbols@[m] == raw_set@[m].symbol && players@[m]
                        == raw_set@[m].player,
            decreases n - i,
        {
            symbols.push(raw_set[i].symbol);
            players.push(raw_set[i].player);
            i += 1;
        }
        SpawnSymbolSet { symbols, players }
    }
}

/// How a geometry catalog entry relates to the raw entry it was built
/// from: absent stays absent, and each primitive is built as
/// `PrimitiveGeometry::new` builds it.
pub open spec fn entry_from_raw(
    e: Option<Vec<PrimitiveGeometry>>,
    raw: Option<Vec<RawPrimitive>>,
) -> bool {
    match raw {
        Option::None => e is None,
        Option::Some(rv) => e matches Some(v) && v@.len() == rv@.len() && (forall|j: int|
            0 <= j < rv@.len() ==> prim_from_raw(#[trigger] v@[j], rv@[j])),
    }
}

/// Every primitive of a present catalog entry is well formed.
pub open spec fn entry_wf(e: Option<Vec<PrimitiveGeometry>>) -> bool {
    match e {
        Option::None => true,
        Option::Some(v) => forall|j: int| 0 <= j < v@.len() ==> prim_wf(#[trigger] v@[j]),
    }
}

/// The geometry catalog: parallel arrays of names and primitive lists,
/// shared read-only for a level's lifetime.  Index 0 is always the "empty"
/// entry with nothing to draw.
#[derive(Debug)]
pub struct GeometrySet {
    pub names: Vec<String>,
    pub geometries: Vec<Option<Vec<PrimitiveGeometry>>>,
}

impl GeometrySet {
    /// Names and geometries stay parallel, the reserved "empty" entry sits
    /// at index 0, and every stored primitive is well formed.
    pub open spec fn wf(self) -> bool {
        self.names@.len() == self.geometries@.len() && self.geometries@.len() >= 1
            && self.geometries@[0] is None && (forall|i: int|
            0 <= i < self.geometries@.len() ==> entry_wf(#[trigger] self.geometries@[i]))
    }

    /// Build the catalog from raw entries: the reserved "empty" entry
    /// first, then one entry per raw geometry in order, with the collected
    /// map symbols returned alongside.
    pub fn new(raw_set: &Vec<Geometry>) -> (r: (GeometrySet, Vec<char>))
        ensures
            r.0.wf(),
            r.0.names@[0]@ == "empty"@,
            r.0.names@.len() == raw_set@.len() + 1,
            r.0.geometries@.len() == raw_set@.len() + 1,
            r.1@.len() == raw_set@.len(),
            forall|i: int| 0 <= i < raw_set@.len() ==> r.1@[i] == raw_set@[i].symbol,
            forall|i: int| 0 <= i < raw_set@.len() ==> r.0.names@[i + 1]@ == raw_set@[i].name@,
            forall|i: int|
                0 <= i < raw_set@.len() ==> entry_from_raw(
                    #[trigger] r.0.geometries@[i + 1],
                    raw_set@[i].primitives,
                ),
    {
        let n = raw_set.len();
        let mut names: Vec<String> = Vec::new();
        let mut geometries: Vec<Option<Vec<PrimitiveGeometry>>> = Vec::new();
        let mut symbols: Vec<char> = Vec::new();

        names.push(String::from_str("empty"));
        geometries.push(None);

        let mut i: usize = 0;
        while i < n
            invariant
                0 <= i <= n,
                n == raw_set@.len(),
                names@.len() == i + 1,
                geometries@.len() == i + 1,
                symbols@.len() == i,
                geometries@[0] is None,
                names@[0]@ == "empty"@,
                forall|m: int| 0 <= m < i + 1 ==> entry_wf(#[trigger] geometries@[m]),
                forall|m: int| 0 <= m < i ==> symbols@[m] == raw_set@[m].symbol,
                forall|m: int| 0 <= m < i ==> names@[m + 1]@ == raw_set@[m].name@,
                forall|m: int|
                    0 <= m < i ==> entry_from_raw(
                        #[trigger] geometries@[m + 1],
                        raw_set@[m].primitives,
                    ),
            decreases n - i,
        {
            let entry = &raw_set[i];
            symbols.push(entry.symbol);
            names.push(entry.name.clone());
            let primitives: Option<Vec<PrimitiveGeometry>> = match &entry.primitives {
                Some(raw_prims) => {
                    let np = raw_prims.len();
                    let mut prims: Vec<PrimitiveGeometry> = Vec::new();
                    let mut j: usize = 0;
                    while j < np
                        invariant
                            0 <= j <= np,
                            np == raw_prims@.len(),
                            prims@.len() == j,
                            forall|m: int| 0 <= m < j ==> prim_wf(#[trigger] prims@[m]),
                            forall|m: int|
                                0 <= m < j ==> prim_from_raw(#[trigger] prims@[m], raw_prims@[m]),
                        decreases np - j,
                    {
                        prims.push(PrimitiveGeometry::new(raw_prims[j]));
                        j += 1;
                    }
                    Some(prims)
                },
                None => None,
            };
            geometries.push(primitives);
            i += 1;
        }
        (GeometrySet { names, geometries }, symbols)
    }
}

} // verus!

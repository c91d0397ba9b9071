//! The material-side runtime catalog of a level, built from raw level
//! data: named physical properties, plus portal entries appended from the
//! level document's portal references.

use vstd::prelude::*;
use crate::parser::material::{Material, MaterialMap, PortalSymbolSet, PhysicsProperties};

verus! {

/// How a material is drawn: a texture file name or a color, carried
/// through from the level document (resolving either into device
/// resources is the presentation collaborator's work).
#[derive(Debug)]
pub enum Shading {
    Texture(String),
    Color(String),
}

/// The runtime shading carries the raw entry's value, variant for
/// variant.
pub open spec fn shading_from_raw(s: Shading, raw: crate::parser::material::Shading) -> bool {
    match raw {
        crate::parser::material::Shading::Texture(t) => s matches Shading::Texture(t2) && t2@
            == t@,
        crate::parser::material::Shading::Color(c) => s matches Shading::Color(c2) && c2@ == c@,
    }
}

/// Where a portal leads: to a named level or to the end of the game.
#[derive(Debug)]
pub enum Portal {
    ToLevel(String),
    ToEnd,
}

/// Runtime material properties: the physical tag plus an optional portal.
#[derive(Debug)]
pub struct MaterialProperties {
    pub physics_properties: PhysicsProperties,
    pub portal: Option<Portal>,
}

/// The material catalog: parallel arrays of names, properties and
/// shadings, shared read-only for a level's lifetime.
#[derive(Debug)]
pub struct MaterialSet {
    pub material_names: Vec<String>,
    pub material_properties: Vec<MaterialProperties>,
    pub material_shadings: Vec<Shading>,
}

/// A level-transition portal is appended only when both its map symbol and
/// its destination level are given.
pub open spec fn portal_added(sym: Option<char>, lvl: Option<String>) -> bool {
    sym is Some && lvl is Some
}

/// The number of portal entries the level document asks for.
pub open spec fn portal_count(map: MaterialMap, pss: PortalSymbolSet) -> int {
    (if portal_added(pss.previous_level_symbol, map.previous_level) {
        1int
    } else {
        0int
    }) + (if portal_added(pss.next_level_symbol, map.next_level) {
        1int
    } else {
        0int
    }) + (if portal_added(pss.bonus_level_symbol, map.bonus_level) {
        1int
    } else {
        0int
    }) + (if pss.end_symbol is Some {
        1int
    } else {
        0int
    })
}

/// An absorbing material that teleports to the level named `lvl`.
pub open spec fn props_is_portal_to(p: MaterialProperties, lvl: Seq<char>) -> bool {
    p.physics_properties is Absorption && (p.portal matches Some(Portal::ToLevel(l)) && l@ == lvl)
}

/// An absorbing material that ends the game.
pub open spec fn props_is_end(p: MaterialProperties) -> bool {
    p.physics_properties is Absorption && p.portal matches Some(Portal::ToEnd)
}

/// The portal entries that sit after position `base` of the catalog, in
/// their fixed order: previous level, next level, bonus level, end.
pub open spec fn portal_tail(
    names: Seq<String>,
    props: Seq<MaterialProperties>,
    syms: Seq<char>,
    base: int,
    map: MaterialMap,
    pss: PortalSymbolSet,
) -> bool {
    let a1 = portal_added(pss.previous_level_symbol, map.previous_level);
    let a2 = portal_added(pss.next_level_symbol, map.next_level);
    let a3 = portal_added(pss.bonus_level_symbol, map.bonus_level);
    let a4 = pss.end_symbol is Some;
    let o2 = base + (if a1 { 1int } else { 0int });
    let o3 = o2 + (if a2 { 1int } else { 0int });
    let o4 = o3 + (if a3 { 1int } else { 0int });
    (a1 ==> names[base]@ == "previous_level"@ && syms[base] == pss.previous_level_symbol->0
        && props_is_portal_to(props[base], map.previous_level->0@)) && (a2 ==> names[o2]@
        == "next_level"@ && syms[o2] == pss.next_level_symbol->0 && props_is_portal_to(
        props[o2],
        map.next_level->0@,
    )) && (a3 ==> names[o3]@ == "bonus_level"@ && syms[o3] == pss.bonus_level_symbol->0
        && props_is_portal_to(props[o3], map.bonus_level->0@)) && (a4 ==> names[o4]@ == "end"@
        && syms[o4] == pss.end_symbol->0 && props_is_end(props[o4]))
}

impl MaterialSet {
    /// Names and properties stay parallel.
    pub open spec fn wf(self) -> bool {
        self.material_names@.len() == self.material_properties@.len()
    }

    /// Append the portal entries the level document asks for: one per
    /// portal whose symbol and destination are both given, in the fixed
    /// order previous, next, bonus, end.
    fn add_portals(
        &mut self,
        mtl_map: &MaterialMap,
        portal_symbol_set: &PortalSymbolSet,
        symbols: &mut Vec<char>,
    )
        requires
            old(self).wf(),
            old(symbols)@.len() == old(self).material_names@.len(),
        ensures
            final(self).wf(),
            final(self).material_names@.len() == old(self).material_names@.len() + portal_count(
                *mtl_map,
                *portal_symbol_set,
            ),
            final(symbols)@.len() == final(self).material_names@.len(),
            forall|i: int|
                0 <= i < old(self).material_names@.len()
                    ==> #[trigger] final(self).material_names@[i] == old(self).material_names@[i],
            forall|i: int|
                0 <= i < old(self).material_names@.len()
                    ==> #[trigger] final(self).material_properties@[i] == old(
                    self,
                ).material_properties@[i],
            forall|i: int|
                0 <= i < old(self).material_names@.len() ==> #[trigger] final(symbols)@[i]
                    == old(symbols)@[i],
            portal_tail(
                final(self).material_names@,
                final(self).material_properties@,
                final(symbols)@,
                old(self).material_names@.len() as int,
                *mtl_map,
                *portal_symbol_set,
            ),
            final(self).material_shadings@ == old(self).material_shadings@,
    {
        if let Some(sym) = portal_symbol_set.previous_level_symbol {
            if let Some(level) = &mtl_map.previous_level {
                self.material_names.push(String::from_str("previous_level"));
                symbols.push(sym);
                self.material_properties.push(
                    MaterialProperties {
                        physics_properties: PhysicsProperties::Absorption,
                        portal: Some(Portal::ToLevel(level.clone())),
                    },
                );
            }
        }
        if let Some(sym) = portal_symbol_set.next_level_symbol {
            if let Some(level) = &mtl_map.next_level {
                self.material_names.push(String::from_str("next_level"));
                symbols.push(sym);
                self.material_properties.push(
                    MaterialProperties {
                        physics_properties: PhysicsProperties::Absorption,
                        portal: Some(Portal::ToLevel(level.clone())),
                    },
                );
            }
        }
        if let Some(sym) = portal_symbol_set.bonus_level_symbol {
            if let Some(level) = &mtl_map.bonus_level {
                self.material_names.push(String::from_str("bonus_level"));
                symbols.push(sym);
                self.material_properties.push(
                    MaterialProperties {
                        physics_properties: PhysicsProperties::Absorption,
                        portal: Some(Portal::ToLevel(level.clone())),
                    },
                );
            }
        }
        if let Some(sym) = portal_symbol_set.end_symbol {
            self.material_names.push(String::from_str("end"));
            symbols.push(sym);
            self.material_properties.push(
                MaterialProperties {
                    physics_properties: PhysicsProperties::Absorption,
                    portal: Some(Portal::ToEnd),
                },
            );
        }
    }

    /// Build the catalog from raw material entries, in order, then append
    /// the portal entries the level document asks for.  Returns the catalog
    /// and the collected map symbols.
    pub fn new(
        raw_set: &Vec<Material>,
        mtl_map: &MaterialMap,
        portal_symbol_set: &PortalSymbolSet,
    ) -> (r: (MaterialSet, Vec<char>))
        ensures
            r.0.wf(),
            r.0.material_names@.len() == raw_set@.len() + portal_count(
                *mtl_map,
                *portal_symbol_set,
            ),
            r.1@.len() == r.0.material_names@.len(),
            r.0.material_shadings@.len() == raw_set@.len(),
            forall|i: int|
                0 <= i < raw_set@.len() ==> shading_from_raw(
                    #[trigger] r.0.material_shadings@[i],
                    raw_set@[i].shading,
                ),
            forall|i: int|
                0 <= i < raw_set@.len() ==> (#[trigger] r.0.material_names@[i])@
                    == raw_set@[i].name@,
            forall|i: int| 0 <= i < raw_set@.len() ==> #[trigger] r.1@[i] == raw_set@[i].symbol,
            forall|i: int|
                0 <= i < raw_set@.len() ==> (#[trigger] r.0.material_properties@[i]).physics_properties
                    == raw_set@[i].properties.physics_properties
                    && r.0.material_properties@[i].portal is None,
            portal_tail(
                r.0.material_names@,
                r.0.material_properties@,
                r.1@,
                raw_set@.len() as int,
                *mtl_map,
                *portal_symbol_set,
            ),
    {
        let n = raw_set.len();
        let mut set = MaterialSet {
            material_names: Vec::new(),
            material_properties: Vec::new(),
            material_shadings: Vec::new(),
        };
        let mut symbols: Vec<char> = Vec::new();
        let mut i: usize = 0;
        while i < n
            invariant
                0 <= i <= n,
                n == raw_set@.len(),
                set.material_names@.len() == i,
                set.material_properties@.len() == i,
                symbols@.len() == i,
                set.material_shadings@.len() == i,
                forall|m: int|
                    0 <= m < i ==> shading_from_raw(
                        #[trigger] set.material_shadings@[m],
                        raw_set@[m].shading,
                    ),
                forall|m: int|
                    0 <= m < i ==> (#[trigger] set.material_names@[m])@ == raw_set@[m].name@,
                forall|m: int| 0 <= m < i ==> #[trigger] symbols@[m] == raw_set@[m].symbol,
                forall|m: int|
                    0 <= m < i ==> (#[trigger] set.material_properties@[m]).physics_properties
                        == raw_set@[m].properties.physics_properties
                        && set.material_properties@[m].portal is None,
            decreases n - i,
        {
            let material = &raw_set[i];
            symbols.push(material.symbol);
            set.material_names.push(material.name.clone());
            match &material.shading {
                crate::parser::material::Shading::Texture(t) => {
                    set.material_shadings.push(Shading::Texture(t.clone()));
                },
                crate::parser::material::Shading::Color(c) => {
                    set.material_shadings.push(Shading::Color(c.clone()));
                },
            }
            set.material_properties.push(
                MaterialProperties {
                    physics_properties: material.properties.physics_properties,
                    portal: None,
                },
            );
            i += 1;
        }
        set.add_portals(mtl_map, portal_symbol_set, &mut symbols);
        proof {
            assert forall|m: int| 0 <= m < n implies (#[trigger] set.material_names@[m])@
                == raw_set@[m].name@ by {
                assert(set.material_names@[m] == set.material_names@[m]);
            }
            assert forall|m: int| 0 <= m < n implies #[trigger] symbols@[m]
                == raw_set@[m].symbol by {
                assert(symbols@[m] == symbols@[m]);
            }
            assert forall|m: int|
                0 <= m < n implies (#[trigger] set.material_properties@[m]).physics_properties
                == raw_set@[m].properties.physics_properties && set.material_properties@[m].portal
                is None by {
                assert(set.material_properties@[m] == set.material_properties@[m]);
            }
        }
        (set, symbols)
    }
}

} // verus!

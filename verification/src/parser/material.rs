//! Raw material-side level data: portal symbols, named material entries and
//! the material half of a level document.

use vstd::prelude::*;

verus! {

/// The portal markers a level understands, each optional.
#[derive(Clone, Copy, Debug)]
pub struct PortalSymbolSet {
    pub previous_level_symbol: Option<char>,
    pub next_level_symbol: Option<char>,
    pub bonus_level_symbol: Option<char>,
    pub end_symbol: Option<char>,
}

/// How a material is drawn: a texture file name or a flat color.
#[derive(Clone, Debug)]
pub enum Shading {
    Texture(String),
    Color(String),
}

/// How a surface interacts with light; the refraction index is a
/// fixed-point fraction (`FP` meaning one).
#[derive(Clone, Copy, Debug)]
pub enum PhysicsProperties {
    Reflection,
    Refraction { index: i64 },
    Transmission,
    Absorption,
}

/// The physical half of a raw material entry.
#[derive(Clone, Copy, Debug)]
pub struct MaterialProperties {
    pub physics_properties: PhysicsProperties,
}

/// One named material entry with its map symbol.
#[derive(Clone, Debug)]
pub struct Material {
    pub name: String,
    pub symbol: char,
    pub properties: MaterialProperties,
    pub shading: Shading,
}

/// The material entries a level catalog is built from.
#[derive(Clone, Debug)]
pub struct MaterialSet {
    pub material_set: Vec<Material>,
}

/// The material half of a level document: which material and portal symbol
/// sets it uses, where its portals lead, and the map rows of material
/// symbols.
#[derive(Clone, Debug)]
pub struct MaterialMap {
    pub material_set: String,
    pub portal_symbol_set: String,
    pub previous_level: Option<String>,
    pub next_level: Option<String>,
    pub bonus_level: Option<String>,
    pub map: Vec<Vec<char>>,
}

} // verus!

//! Tiles of the hex world: biomes, their movement costs, and how a biome is
//! chosen from layered terrain noise.
//!
//! The noise generators themselves are external collaborators working in
//! floating point; their samples reach this module scaled to thousandths
//! (one unit of noise is 1000 here), so the biome thresholds are exact
//! integers.

use vstd::prelude::*;

verus! {

/// Axial coordinates of one hex cell.
#[derive(Debug, Clone, Copy, PartialEq, Eq, Structural, Hash)]
pub struct Hex {
    /// The axial x coordinate.
    pub x: i32,
    /// The axial y coordinate.
    pub y: i32,
}

impl Hex {
    /// The hex at the given axial coordinates.
    pub fn new(x: i32, y: i32) -> (r: Hex)
        ensures
            r.x == x,
            r.y == y,
    {
        Hex { x, y }
    }
}

/// The terrain kind of one tile.
#[derive(Clone, Copy, Debug, Hash, PartialEq, Eq, Structural)]
pub enum Biome {
    /// Open water.
    Water,
    /// Hot, dry land.
    Desert,
    /// Open grassland.
    Plains,
    /// Light forest.
    Forest,
    /// Thick forest.
    DenseForest,
    /// Rolling hills.
    Hill,
    /// High mountains.
    Mountain,
    /// Built-up city.
    City,
    /// The center of a city.
    CityCenter,
    /// A paved road.
    Road,
}

/// The movement cost of each biome.
pub open spec fn move_cost_spec(b: Biome) -> Option<u32> {
    match b {
        Biome::Water => Some(20u32),
        Biome::Desert => Some(7u32),
        Biome::Plains => Some(5u32),
        Biome::Forest => Some(10u32),
        Biome::DenseForest => Some(14u32),
        Biome::Hill => Some(10u32),
        Biome::Mountain => Some(17u32),
        Biome::City => Some(10u32),
        Biome::CityCenter => Some(10u32),
        Biome::Road => Some(2u32),
    }
}

impl Biome {
    /// What moving across one tile of this biome costs; a biome with no
    /// cost would be impassable.
    pub fn move_cost(&self) -> (r: Option<u32>)
        ensures
            r == move_cost_spec(*self),
    {
        match self {
            Biome::Water => Some(20),
            Biome::Desert => Some(7),
            Biome::Plains => Some(5),
            Biome::Forest => Some(10),
            Biome::DenseForest => Some(14),
            Biome::Hill => Some(10),
            Biome::Mountain => Some(17),
            Biome::City => Some(10),
            Biome::CityCenter => Some(10),
            Biome::Road => Some(2),
        }
    }

    /// Every biome, once each.
    pub fn all() -> (r: Vec<Biome>)
        ensures
            r@ =~= seq![
                Biome::Water,
                Biome::Desert,
                Biome::Plains,
                Biome::Forest,
                Biome::DenseForest,
                Biome::Hill,
                Biome::Mountain,
                Biome::City,
                Biome::Road,
                Biome::CityCenter,
            ],
    {
        vec![
            Biome::Water,
            Biome::Desert,
            Biome::Plains,
            Biome::Forest,
            Biome::DenseForest,
            Biome::Hill,
            Biome::Mountain,
            Biome::City,
            Biome::Road,
            Biome::CityCenter,
        ]
    }
}

/// One tile's sample of the layered terrain noise, each layer scaled to
/// thousandths: 1000 here is one unit of noise.
#[derive(Clone, Copy, Debug, PartialEq, Eq, Structural)]
pub struct MultiLayerNoiseValue {
    /// Terrain height.
    pub height: i64,
    /// Temperature.
    pub temperature: i64,
    /// Humidity.
    pub humidity: i64,
    /// The layer that seeds special features such as cities.
    pub special: i64,
}

/// The biome the layered noise selects: deep water first, then city seeds,
/// then height bands, then a temperature and humidity split, plains
/// otherwise.
pub open spec fn biome_of_noise(n: MultiLayerNoiseValue) -> Biome {
    if n.height < -200 {
        Biome::Water
    } else if n.special > 750 {
        Biome::City
    } else if n.height > 600 {
        Biome::Mountain
    } else if n.height > 400 {
        Biome::Hill
    } else if n.temperature > 0 {
        if n.humidity > 600 {
            Biome::DenseForest
        } else if n.humidity > 300 {
            Biome::Forest
        } else {
            Biome::Desert
        }
    } else {
        Biome::Plains
    }
}

impl MultiLayerNoiseValue {
    /// The biome this sample selects.
    pub fn gen_biome(&self) -> (r: Biome)
        ensures
            r == biome_of_noise(*self),
    {
        if self.height < -200 {
            return Biome::Water;
        }
        if self.special > 750 {
            return Biome::City;
        }
        if self.height > 600 {
            return Biome::Mountain;
        }
        if self.height > 400 {
            return Biome::Hill;
        }
        if self.temperature > 0 {
            if self.humidity > 600 {
                return Biome::DenseForest;
            }
            if self.humidity > 300 {
                return Biome::Forest;
            }
            return Biome::Desert;
        }
        Biome::Plains
    }
}

/// One cell of the world: its position, terrain, and build state.
#[derive(Debug, Clone, Copy, PartialEq, Eq, Structural)]
pub struct Tile {
    /// The tile's position.
    pub hex: Hex,
    /// The tile's terrain kind.
    pub biome: Biome,
    /// How built up the tile is.
    pub infrastructure_level: u8,
    /// Elevation, in thousandths.
    pub height: i64,
    /// Carrying weight of the tile.
    pub wight: u8,
    /// How many structures fit on the tile.
    pub slots: u8,
    /// The noise sample the tile was generated from.
    pub noise: MultiLayerNoiseValue,
}

impl Tile {
    /// A fresh tile at the given position, its biome selected by the noise
    /// sample: nothing built, full weight, three free slots.
    pub fn from_noise(hex: Hex, noise: MultiLayerNoiseValue) -> (r: Tile)
        ensures
            r.hex == hex,
            r.biome == biome_of_noise(noise),
            r.infrastructure_level == 0,
            r.height == 0,
            r.wight == 100,
            r.slots == 3,
            r.noise == noise,
    {
        let biome = noise.gen_biome();
        Tile { hex, biome, infrastructure_level: 0, height: 0, wight: 100, slots: 3, noise }
    }
}

} // verus!

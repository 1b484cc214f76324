//! Terrain categories: an ordered threshold table from height level to a
//! discrete category with a water/land flag.

use vstd::prelude::*;

use crate::finvec::FinDef;
use crate::finvec::FinIdx;
use crate::finvec::Leveled;

verus! {

/// A level higher than any admissible height: the catch-all top category.
pub const LEVEL_TOP: i64 = 0x100_0000_0000;

/// A terrain category: a dense index into the terrain definition table.
#[derive(Clone, Copy, Debug, PartialEq, Eq, Structural)]
pub struct TerrainType(pub usize);

impl FinIdx for TerrainType {
    open spec fn spec_index(self) -> int {
        self.0 as int
    }

    fn index(self) -> (r: usize) {
        self.0
    }

    fn of_index(i: usize) -> (r: Self) {
        TerrainType(i)
    }
}

/// One record of the terrain table: a display name, the water/land flag,
/// and the ascending height level up to which the category reaches.
pub struct TerrainTypeData {
    pub name: String,
    pub is_water: bool,
    pub height_level: i64,
}

impl Leveled for TerrainTypeData {
    open spec fn spec_level(&self) -> i64 {
        self.height_level
    }

    fn level(&self) -> (r: i64) {
        self.height_level
    }
}

impl TerrainType {
    /// The default five-category table: deep water, water, land, hill and
    /// mountain, with the top category catching every height.
    pub fn default_definition() -> (r: FinDef<TerrainType, TerrainTypeData>)
        ensures
            r.data@.len() == 5,
            r.data@[0].is_water && r.data@[0].height_level == 0i64,
            r.data@[1].is_water && r.data@[1].height_level == crate::SCALE as i64 / 2,
            !r.data@[2].is_water && r.data@[2].height_level == crate::SCALE as i64 / 2,
            !r.data@[3].is_water && r.data@[3].height_level == 750i64,
            !r.data@[4].is_water && r.data@[4].height_level == LEVEL_TOP,
            forall|i: int|
                0 <= i < r.data@.len() ==> 0 <= (#[trigger] r.data@[i]).height_level <= LEVEL_TOP,
    {
        let mut data: Vec<TerrainTypeData> = Vec::new();
        data.push(
            TerrainTypeData { name: "Deep Water".to_string(), is_water: true, height_level: 0 },
        );
        data.push(
            TerrainTypeData { name: "Water".to_string(), is_water: true, height_level: crate::SCALE / 2 },
        );
        data.push(
            TerrainTypeData { name: "Land".to_string(), is_water: false, height_level: crate::SCALE / 2 },
        );
        data.push(TerrainTypeData { name: "Hill".to_string(), is_water: false, height_level: 750 });
        data.push(
            TerrainTypeData { name: "Mountain".to_string(), is_water: false, height_level: LEVEL_TOP },
        );
        FinDef::new(data)
    }
}

} // verus!

//! Static game data that the editor looks up by ID: the challenge modes of the
//! DLCs and the maps of the field.
use vstd::prelude::*;

verus! {

/// The integer type of game data IDs.
pub type IdInt = u32;

#[derive(Debug, Clone, Copy, PartialEq, Eq)]
pub struct ChallengeData {
    pub id: usize,
    pub name_id: usize,
}

#[derive(Debug, Clone, Copy, PartialEq, Eq)]
pub struct Emblem {
    pub id: usize,
    pub name_id: usize,
    pub levels: usize,
}

#[derive(Debug, Clone, Copy, PartialEq, Eq)]
pub struct GauntletMap {
    pub id: usize,
    pub based_on_lang_id: usize,
}

#[derive(Debug, Clone, Copy, PartialEq, Eq)]
pub struct Whimsy {
    pub id: usize,
    pub caption: usize,
}

/// The challenge battles, gauntlets and emblems of the challenge mode.
#[derive(Debug, PartialEq, Eq)]
pub struct ChallengeGame {
    pub challenges: Vec<ChallengeData>,
    pub gauntlets: Vec<ChallengeData>,
    pub emblems: Vec<Emblem>,
    pub gauntlet_maps: Vec<GauntletMap>,
    pub whimsy: Vec<Whimsy>,
}

/// The entry with ID `id` of a table whose IDs count from 1, if there is one.
pub open spec fn by_id<T>(table: Seq<T>, id: int) -> Option<T> {
    if 1 <= id <= table.len() {
        Some(table[id - 1])
    } else {
        None
    }
}

impl ChallengeGame {
    pub fn get_challenge(&self, id: usize) -> (r: Option<&ChallengeData>)
        ensures
            match r {
                Some(x) => by_id(self.challenges@, id as int) == Some(*x),
                None => by_id(self.challenges@, id as int) is None,
            },
    {
        if id >= 1 && id <= self.challenges.len() {
            Some(&self.challenges[id - 1])
        } else {
            None
        }
    }

    pub fn get_gauntlet(&self, id: usize) -> (r: Option<&ChallengeData>)
        ensures
            match r {
                Some(x) => by_id(self.gauntlets@, id as int) == Some(*x),
                None => by_id(self.gauntlets@, id as int) is None,
            },
    {
        if id >= 1 && id <= self.gauntlets.len() {
            Some(&self.gauntlets[id - 1])
        } else {
            None
        }
    }

    pub fn get_emblem(&self, id: usize) -> (r: Option<&Emblem>)
        ensures
            match r {
                Some(x) => by_id(self.emblems@, id as int) == Some(*x),
                None => by_id(self.emblems@, id as int) is None,
            },
    {
        if id >= 1 && id <= self.emblems.len() {
            Some(&self.emblems[id - 1])
        } else {
            None
        }
    }
}

impl ChallengeData {
    pub fn id(&self) -> (r: usize)
        ensures
            r == self.id,
    {
        self.id
    }
}

impl GauntletMap {
    pub fn id(&self) -> (r: usize)
        ensures
            r == self.id,
    {
        self.id
    }
}

impl Whimsy {
    pub fn id(&self) -> (r: usize)
        ensures
            r == self.id,
    {
        self.id
    }
}

#[derive(Debug, Clone, Copy, PartialEq, Eq)]
pub struct MapId {
    pub id: IdInt,
    pub name_id: IdInt,
}

#[derive(Debug, Clone, Copy, PartialEq, Eq)]
pub enum LocationType {
    Region,
    Location,
    Landmark,
    RestSpot,
    SecretArea,
    Colony,
    /// Invisible landmarks, usually only active for a specific story
    /// sequence.
    RespawnPoint,
}

/// A point on a map. Each coordinate is the bit pattern of an IEEE 754
/// single-precision number.
#[derive(Debug, Clone, Copy, PartialEq, Eq)]
pub struct MapPoint {
    pub x: u32,
    pub y: u32,
    pub z: u32,
}

#[derive(Debug, Clone, Copy, PartialEq, Eq)]
pub struct Location {
    pub id: IdInt,
    pub name_id: IdInt,
    pub location_type: LocationType,
    /// The map that the location leads to; never zero.
    pub map_jump: Option<u16>,
    pub map_point: Option<MapPoint>,
}

/// A map of the field and its locations.
#[derive(Debug, PartialEq, Eq)]
pub struct FieldMap {
    pub id: MapId,
    pub locations: Vec<Location>,
}

/// The maps of the game, by ID (counted from 1).
#[derive(Debug, PartialEq, Eq)]
pub struct FieldRegistry {
    maps: Vec<FieldMap>,
}

impl MapId {
    pub fn id(&self) -> (r: IdInt)
        ensures
            r == self.id,
    {
        self.id
    }
}

impl FieldMap {
    pub fn id(&self) -> (r: IdInt)
        ensures
            r == self.id.id,
    {
        self.id.id()
    }
}

impl Location {
    pub fn id(&self) -> (r: IdInt)
        ensures
            r == self.id,
    {
        self.id
    }
}

impl FieldRegistry {
    /// The maps, in the order of their IDs.
    pub closed spec fn maps_spec(&self) -> Seq<FieldMap> {
        self.maps@
    }

    pub fn new(maps: Vec<FieldMap>) -> (r: FieldRegistry)
        ensures
            r.maps_spec() == maps@,
    {
        FieldRegistry { maps }
    }

    pub fn get_map_by_id(&self, id: IdInt) -> (r: Option<&FieldMap>)
        ensures
            match r {
                Some(x) => by_id(self.maps_spec(), id as int) == Some(*x),
                None => by_id(self.maps_spec(), id as int) is None,
            },
    {
        if id >= 1 && ((id - 1) as usize) < self.maps.len() {
            Some(&self.maps[(id - 1) as usize])
        } else {
            None
        }
    }

    pub fn maps(&self) -> (r: &[FieldMap])
        ensures
            r@ == self.maps_spec(),
    {
        self.maps.as_slice()
    }
}

} // verus!

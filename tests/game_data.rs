use recordkeeper::game_data::{
    ChallengeData, ChallengeGame, Emblem, FieldMap, FieldRegistry, GauntletMap, Location,
    LocationType, MapId, MapPoint, Whimsy,
};

fn game() -> ChallengeGame {
    ChallengeGame {
        challenges: vec![ChallengeData { id: 1, name_id: 10 }, ChallengeData { id: 2, name_id: 11 }],
        gauntlets: vec![ChallengeData { id: 1, name_id: 20 }],
        emblems: vec![Emblem { id: 1, name_id: 30, levels: 3 }],
        gauntlet_maps: vec![GauntletMap { id: 1, based_on_lang_id: 4 }],
        whimsy: vec![Whimsy { id: 1, caption: 5 }],
    }
}

#[test]
fn challenge_lookup_counts_from_one() {
    let g = game();
    assert_eq!(g.get_challenge(0), None);
    assert_eq!(g.get_challenge(2).map(|c| c.name_id), Some(11));
    assert_eq!(g.get_challenge(3), None);
    assert_eq!(g.get_gauntlet(1).map(|c| c.id()), Some(1));
    assert_eq!(g.get_emblem(1).map(|e| e.levels), Some(3));
    assert_eq!(g.get_emblem(2), None);
    assert_eq!(g.gauntlet_maps[0].id(), 1);
    assert_eq!(g.whimsy[0].id(), 1);
}

#[test]
fn map_lookup_counts_from_one() {
    let loc = Location {
        id: 7,
        name_id: 8,
        location_type: LocationType::Landmark,
        map_jump: Some(2),
        map_point: Some(MapPoint { x: 0, y: 1, z: 2 }),
    };
    let reg = FieldRegistry::new(vec![
        FieldMap { id: MapId { id: 1, name_id: 100 }, locations: vec![loc] },
        FieldMap { id: MapId { id: 2, name_id: 200 }, locations: vec![] },
    ]);
    assert!(reg.get_map_by_id(0).is_none());
    assert_eq!(reg.get_map_by_id(2).map(|m| m.id()), Some(2));
    assert!(reg.get_map_by_id(3).is_none());
    assert_eq!(reg.maps().len(), 2);
    assert_eq!(reg.maps()[0].locations[0].id(), 7);
    assert_eq!(reg.maps()[0].id.id(), 1);
}

//! Tests of the identifier map.

use mudpuppy::idmap::IdMap;
use mudpuppy::model::{Mud, SessionInfo};

#[test]
fn session_id_map() {
    let mut map: IdMap<SessionInfo> = IdMap::new();

    let mud = Mud::default();
    let first_id = map.construct(|id| SessionInfo {
        id,
        mud_name: mud.name.clone(),
    });

    let second_id = map.construct(|id| SessionInfo {
        id,
        mud_name: mud.name.clone(),
    });
    assert_ne!(first_id, second_id);

    let mut ids = map.ids();
    ids.sort_unstable();
    assert_eq!(ids, vec![first_id, second_id]);

    for (id, info) in map.iter() {
        assert_eq!(*id, info.id);
        println!("{}: {}", id, info.mud_name);
    }
}

#[test]
fn idmap_insert_remove_get() {
    let mut map: IdMap<SessionInfo> = IdMap::new();
    assert!(map.is_empty());
    map.insert(SessionInfo {
        id: 7,
        mud_name: "Dune".to_string(),
    });
    assert_eq!(map.len(), 1);
    assert_eq!(map.get(7).unwrap().mud_name, "Dune");
    assert!(map.get(8).is_none());
    map.remove(7);
    assert!(map.get(7).is_none());
    let id = map.construct(|id| SessionInfo {
        id,
        mud_name: "X".to_string(),
    });
    assert_eq!(id, 0);
    map.clear();
    assert!(map.is_empty());
    let id = map.construct(|id| SessionInfo {
        id,
        mud_name: "Y".to_string(),
    });
    assert_eq!(id, 1);
}

#[test]
fn idmap_change_objects_in_place() {
    let mut map: IdMap<SessionInfo> = IdMap::new();
    let a = map.construct(|id| SessionInfo { id, mud_name: "Dune".to_string() });
    let b = map.construct(|id| SessionInfo { id, mud_name: "Arrakis".to_string() });
    for info in map.values_mut() {
        info.mud_name.push('!');
    }
    assert_eq!(map.get(a).unwrap().mud_name, "Dune!");
    assert_eq!(map.get(b).unwrap().mud_name, "Arrakis!");
    for (id, info) in map.iter_mut() {
        info.mud_name = format!("{id}:{}", info.mud_name);
    }
    assert_eq!(map.get(a).unwrap().mud_name, "0:Dune!");
    assert_eq!(map.get(b).unwrap().mud_name, "1:Arrakis!");
    let mut ids = map.ids();
    ids.sort_unstable();
    assert_eq!(ids, vec![a, b]);
}

#[test]
fn idmap_len_after_insert_and_remove() {
    let mut map: IdMap<SessionInfo> = IdMap::new();
    map.insert(SessionInfo { id: 3, mud_name: "a".to_string() });
    assert_eq!(map.len(), 1);
    map.insert(SessionInfo { id: 3, mud_name: "b".to_string() });
    assert_eq!(map.len(), 1);
    assert_eq!(map.get(3).unwrap().mud_name, "b");
    map.insert(SessionInfo { id: 4, mud_name: "c".to_string() });
    assert_eq!(map.len(), 2);
    map.remove(9);
    assert_eq!(map.len(), 2);
    map.remove(3);
    assert_eq!(map.len(), 1);
    assert!(map.get(3).is_none());
    map.clear();
    assert!(map.is_empty());
    let id = map.construct(|id| SessionInfo { id, mud_name: "d".to_string() });
    assert_eq!(id, 0);
}

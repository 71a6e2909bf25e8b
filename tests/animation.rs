use platformer::animation::{
    handle_animation_transition_events, play_idle_animation, store_animation_relationships, AddedPlayer,
    AnimatedRoot, AnimationCharacterMap, AnimationTransitionEvent, Clip, Playback,
};

#[test]
fn map_insert_get_len() {
    let mut map = AnimationCharacterMap::new();
    assert_eq!(map.len(), 0);
    assert_eq!(map.get(1), None);
    map.insert(1, 10);
    map.insert(2, 20);
    assert_eq!(map.get(1), Some(10));
    assert_eq!(map.get(2), Some(20));
    assert_eq!(map.len(), 2);
    map.insert(1, 11);
    assert_eq!(map.get(1), Some(11));
    assert_eq!(map.len(), 2);
}

#[test]
fn players_link_to_their_grandparent() {
    let mut map = AnimationCharacterMap::new();
    let players = vec![AddedPlayer { entity: 100, parent: 50 }, AddedPlayer { entity: 101, parent: 77 }];
    let roots = vec![
        AnimatedRoot { entity: 1, children: vec![40, 50] },
        AnimatedRoot { entity: 2, children: vec![60] },
    ];
    let linked = store_animation_relationships(&mut map, &players, &roots);
    assert_eq!(linked, vec![1]);
    assert_eq!(map.get(1), Some(100));
    assert_eq!(map.get(2), None);
    assert_eq!(map.len(), 1);
}

#[test]
fn transitions_go_to_linked_players_only() {
    let mut map = AnimationCharacterMap::new();
    map.insert(1, 100);
    let events = vec![
        AnimationTransitionEvent { entity: 2, clip: Clip::Run, transition_ms: 200 },
        AnimationTransitionEvent { entity: 1, clip: Clip::Idle, transition_ms: 300 },
    ];
    let out = handle_animation_transition_events(&map, &events);
    assert_eq!(out, vec![Playback { player: 100, clip: Clip::Idle, transition_ms: 300 }]);
}

#[test]
fn idle_starts_on_linked_players_only() {
    let mut map = AnimationCharacterMap::new();
    map.insert(5, 50);
    map.insert(7, 70);
    assert_eq!(play_idle_animation(&map, &vec![7, 6, 5]), vec![(7, 70), (5, 50)]);
    assert_eq!(play_idle_animation(&map, &vec![]), vec![]);
}

#[test]
fn unmatched_players_leave_the_map() {
    let mut map = AnimationCharacterMap::new();
    map.insert(1, 10);
    let players = vec![AddedPlayer { entity: 100, parent: 99 }];
    let roots = vec![AnimatedRoot { entity: 2, children: vec![60] }];
    assert!(store_animation_relationships(&mut map, &players, &roots).is_empty());
    assert_eq!(map.get(1), Some(10));
    assert_eq!(map.len(), 1);
}

#[test]
fn root_links_to_the_last_matching_player() {
    let mut map = AnimationCharacterMap::new();
    map.insert(3, 30);
    let players = vec![
        AddedPlayer { entity: 100, parent: 50 },
        AddedPlayer { entity: 101, parent: 51 },
        AddedPlayer { entity: 102, parent: 77 },
    ];
    let roots = vec![AnimatedRoot { entity: 1, children: vec![50, 51] }];
    let linked = store_animation_relationships(&mut map, &players, &roots);
    assert_eq!(linked, vec![1, 1]);
    assert_eq!(map.get(1), Some(101));
    assert_eq!(map.get(3), Some(30));
    assert_eq!(map.len(), 2);
}

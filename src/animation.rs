use vstd::prelude::*;

verus! {

/// Marks a character root whose animation player has not been linked yet.
#[derive(Clone, Copy, Debug, Default, PartialEq, Eq, Structural)]
pub struct Animated;

/// Marks a character whose first animation has been started.
#[derive(Clone, Copy, Debug, Default, PartialEq, Eq, Structural)]
pub struct AnimationInit;

/// Links each character root entity to the entity holding its animation
/// player. Entities are identified by their 64-bit ids.
#[verifier::external_body]
pub struct AnimationCharacterMap {
    links: bevy::utils::HashMap<u64, u64>,
}

/// The links that an [`AnimationCharacterMap`] holds.
pub uninterp spec fn links_of(m: AnimationCharacterMap) -> Map<u64, u64>;

/// The map with no link.
pub open spec fn no_links() -> Map<u64, u64> {
    Map::empty()
}

impl AnimationCharacterMap {
    /// Relies on `Default` of bevy's `HashMap`: a new map holds no entry.
    #[verifier::external_body]
    pub fn new() -> (r: AnimationCharacterMap)
        ensures
            links_of(r) == no_links(),
            links_of(r).dom().finite(),
    {
        AnimationCharacterMap { links: bevy::utils::HashMap::default() }
    }

    /// Relies on `HashMap::get`: the value stored under the key, if any.
    #[verifier::external_body]
    pub fn get(&self, key_entity: u64) -> (r: Option<u64>)
        ensures
            links_of(*self).contains_key(key_entity) ==> r == Some(links_of(*self)[key_entity]),
            !links_of(*self).contains_key(key_entity) ==> r.is_none(),
    {
        self.links.get(&key_entity).copied()
    }

    /// Relies on `HashMap::insert`: the key now maps to the value, and every
    /// other entry is kept.
    #[verifier::external_body]
    pub fn insert(&mut self, key_entity: u64, value_entity: u64)
        ensures
            links_of(*final(self)) == links_of(*old(self)).insert(key_entity, value_entity),
            links_of(*final(self)).dom().finite(),
    {
        self.links.insert(key_entity, value_entity);
    }

    /// Relies on `HashMap::len`: the number of entries.
    #[verifier::external_body]
    pub fn len(&self) -> (r: usize)
        ensures
            r == links_of(*self).dom().len(),
    {
        self.links.len()
    }
}

/// Which of the player's clips an animation transition plays.
#[derive(Clone, Copy, Debug, PartialEq, Eq, Structural)]
pub enum Clip {
    Idle,
    Run,
}

/// A request to cross-fade an entity's animation to a clip.
#[derive(Clone, Copy, Debug, PartialEq, Eq, Structural)]
pub struct AnimationTransitionEvent {
    pub entity: u64,
    pub clip: Clip,
    pub transition_ms: u32,
}

/// A cross-fade to be played on an animation player entity.
#[derive(Clone, Copy, Debug, PartialEq, Eq, Structural)]
pub struct Playback {
    pub player: u64,
    pub clip: Clip,
    pub transition_ms: u32,
}

/// A newly added animation player: its entity and its parent's.
#[derive(Clone, Copy, Debug, PartialEq, Eq, Structural)]
pub struct AddedPlayer {
    pub entity: u64,
    pub parent: u64,
}

/// A character root still marked [`Animated`], with its children.
#[derive(Debug)]
pub struct AnimatedRoot {
    pub entity: u64,
    pub children: Vec<u64>,
}

/// The links made for one added player against the first `j` roots, and the
/// roots linked, in order.
pub open spec fn link_player(
    links: Map<u64, u64>,
    p: AddedPlayer,
    roots: Seq<(u64, Seq<u64>)>,
    j: int,
) -> (Map<u64, u64>, Seq<u64>)
    decreases j,
{
    if j <= 0 {
        (links, Seq::empty())
    } else {
        let prev = link_player(links, p, roots, j - 1);
        if roots[j - 1].1.contains(p.parent) {
            (prev.0.insert(roots[j - 1].0, p.entity), prev.1.push(roots[j - 1].0))
        } else {
            prev
        }
    }
}

/// The links made for the first `i` added players against every root, and
/// the roots linked, in order.
pub open spec fn link_players(
    links: Map<u64, u64>,
    players: Seq<AddedPlayer>,
    roots: Seq<(u64, Seq<u64>)>,
    i: int,
) -> (Map<u64, u64>, Seq<u64>)
    decreases i,
{
    if i <= 0 {
        (links, Seq::empty())
    } else {
        let prev = link_players(links, players, roots, i - 1);
        let step = link_player(prev.0, players[i - 1], roots, roots.len() as int);
        (step.0, prev.1 + step.1)
    }
}

/// Some root among the first `j` has entity `k` and `parent` among its
/// children.
pub open spec fn hits(roots: Seq<(u64, Seq<u64>)>, k: u64, parent: u64, j: int) -> bool {
    exists|j2: int| 0 <= j2 < j && j2 < roots.len() && roots[j2].0 == k && roots[j2].1.contains(parent)
}

/// Added player `i` links to the root entity `k`.
pub open spec fn links_to(players: Seq<AddedPlayer>, roots: Seq<(u64, Seq<u64>)>, k: u64, i: int) -> bool {
    hits(roots, k, players[i].parent, roots.len() as int)
}

/// Some root among the first `j` has `parent` among its children.
pub open spec fn any_root_holds(roots: Seq<(u64, Seq<u64>)>, parent: u64, j: int) -> bool {
    exists|j2: int| 0 <= j2 < j && j2 < roots.len() && roots[j2].1.contains(parent)
}

proof fn lemma_link_player(links: Map<u64, u64>, p: AddedPlayer, roots: Seq<(u64, Seq<u64>)>, j: int)
    requires
        0 <= j <= roots.len(),
    ensures
        forall|k: u64| #[trigger] hits(roots, k, p.parent, j) ==> link_player(links, p, roots, j).0.contains_key(k)
            && link_player(links, p, roots, j).0[k] == p.entity,
        forall|k: u64| !#[trigger] hits(roots, k, p.parent, j) ==> (link_player(links, p, roots, j).0.contains_key(k)
            == links.contains_key(k)) && (links.contains_key(k) ==> link_player(links, p, roots, j).0[k]
            == links[k]),
        !any_root_holds(roots, p.parent, j) ==> link_player(links, p, roots, j).0 == links
            && link_player(links, p, roots, j).1.len() == 0,
    decreases j,
{
    if j > 0 {
        lemma_link_player(links, p, roots, j - 1);
        let prev = link_player(links, p, roots, j - 1);
        let cur = link_player(links, p, roots, j);
        assert forall|k: u64| #[trigger] hits(roots, k, p.parent, j) implies cur.0.contains_key(k)
            && cur.0[k] == p.entity by {
            if !(roots[j - 1].0 == k && roots[j - 1].1.contains(p.parent)) {
                let j2 = choose|j2: int| 0 <= j2 < j && j2 < roots.len() && roots[j2].0 == k
                    && roots[j2].1.contains(p.parent);
                assert(j2 < j - 1);
                assert(hits(roots, k, p.parent, j - 1));
            }
        }
        assert forall|k: u64| !#[trigger] hits(roots, k, p.parent, j) implies (cur.0.contains_key(k)
            == links.contains_key(k)) && (links.contains_key(k) ==> cur.0[k] == links[k]) by {
            if hits(roots, k, p.parent, j - 1) {
                let j2 = choose|j2: int| 0 <= j2 < j - 1 && j2 < roots.len() && roots[j2].0 == k
                    && roots[j2].1.contains(p.parent);
                assert(hits(roots, k, p.parent, j));
            }
            if roots[j - 1].0 == k && roots[j - 1].1.contains(p.parent) {
                assert(hits(roots, k, p.parent, j));
            }
        }
        if !any_root_holds(roots, p.parent, j) {
            if any_root_holds(roots, p.parent, j - 1) {
                let j2 = choose|j2: int| 0 <= j2 < j - 1 && j2 < roots.len() && roots[j2].1.contains(p.parent);
                assert(any_root_holds(roots, p.parent, j));
            }
            if roots[j - 1].1.contains(p.parent) {
                assert(any_root_holds(roots, p.parent, j));
            }
        }
    }
}

proof fn lemma_link_players(
    links: Map<u64, u64>,
    players: Seq<AddedPlayer>,
    roots: Seq<(u64, Seq<u64>)>,
    i: int,
)
    requires
        0 <= i <= players.len(),
    ensures
        forall|k: u64|
            #![trigger link_players(links, players, roots, i).0.contains_key(k)]
            #![trigger links.contains_key(k)]
            (forall|i2: int| 0 <= i2 < i ==> !#[trigger] links_to(players, roots, k, i2)) ==> (
            link_players(links, players, roots, i).0.contains_key(k) == links.contains_key(k)) && (
            links.contains_key(k) ==> link_players(links, players, roots, i).0[k] == links[k]),
        forall|k: u64, i0: int|
            0 <= i0 < i && #[trigger] links_to(players, roots, k, i0) && (forall|i2: int|
                i0 < i2 < i ==> !#[trigger] links_to(players, roots, k, i2)) ==> link_players(
                links,
                players,
                roots,
                i,
            ).0.contains_key(k) && link_players(links, players, roots, i).0[k] == players[i0].entity,
        (forall|i2: int, j2: int|
            0 <= i2 < i && 0 <= j2 < roots.len() ==> !#[trigger] roots[j2].1.contains(
                #[trigger] players[i2].parent,
            )) ==> link_players(links, players, roots, i).0 == links && link_players(
            links,
            players,
            roots,
            i,
        ).1.len() == 0,
    decreases i,
{
    if i > 0 {
        lemma_link_players(links, players, roots, i - 1);
        let prev = link_players(links, players, roots, i - 1);
        let p = players[i - 1];
        lemma_link_player(prev.0, p, roots, roots.len() as int);
        let cur = link_players(links, players, roots, i);
        assert forall|k: u64|
            #![trigger cur.0.contains_key(k)]
            #![trigger links.contains_key(k)]
            (forall|i2: int| 0 <= i2 < i ==> !#[trigger] links_to(players, roots, k, i2)) implies (
            cur.0.contains_key(k) == links.contains_key(k)) && (links.contains_key(k) ==> cur.0[k]
            == links[k]) by {
            assert(!links_to(players, roots, k, i - 1));
            assert(!hits(roots, k, p.parent, roots.len() as int));
            assert forall|i2: int| 0 <= i2 < i - 1 implies !#[trigger] links_to(players, roots, k, i2) by {
                assert(!links_to(players, roots, k, i2));
            }
            assert(prev.0.contains_key(k) == links.contains_key(k));
            assert(links.contains_key(k) ==> prev.0[k] == links[k]);
        }
        assert forall|k: u64, i0: int|
            0 <= i0 < i && #[trigger] links_to(players, roots, k, i0) && (forall|i2: int|
                i0 < i2 < i ==> !#[trigger] links_to(players, roots, k, i2)) implies cur.0.contains_key(
            k) && cur.0[k] == players[i0].entity by {
            if i0 < i - 1 {
                assert(!links_to(players, roots, k, i - 1));
                assert(!hits(roots, k, p.parent, roots.len() as int));
                assert forall|i2: int| i0 < i2 < i - 1 implies !#[trigger] links_to(players, roots, k, i2) by {
                    assert(!links_to(players, roots, k, i2));
                }
                assert(prev.0.contains_key(k) && prev.0[k] == players[i0].entity);
            } else {
                assert(hits(roots, k, p.parent, roots.len() as int));
            }
        }
        if forall|i2: int, j2: int|
            0 <= i2 < i && 0 <= j2 < roots.len() ==> !#[trigger] roots[j2].1.contains(
                #[trigger] players[i2].parent,
            ) {
            assert forall|i2: int, j2: int|
                0 <= i2 < i - 1 && 0 <= j2 < roots.len() implies !#[trigger] roots[j2].1.contains(
                #[trigger] players[i2].parent,
            ) by {
                assert(!roots[j2].1.contains(players[i2].parent));
            }
            if any_root_holds(roots, p.parent, roots.len() as int) {
                let j2 = choose|j2: int| 0 <= j2 < roots.len() && j2 < roots.len() && roots[j2].1.contains(p.parent);
                assert(!roots[j2].1.contains(players[i - 1].parent));
            }
            assert(prev.1 + Seq::<u64>::empty() =~= prev.1);
        }
    }
}

/// The roots with their children as sequences.
pub open spec fn roots_view(roots: Seq<AnimatedRoot>) -> Seq<(u64, Seq<u64>)> {
    roots.map_values(|r: AnimatedRoot| (r.entity, r.children@))
}

/// Whether `v` holds `x`.
fn contains_entity(v: &Vec<u64>, x: u64) -> (r: bool)
    ensures
        r == v@.contains(x),
{
    let mut i: usize = 0;
    while i < v.len()
        invariant
            0 <= i <= v.len(),
            forall|k: int| 0 <= k < i ==> v@[k] != x,
        decreases v.len() - i,
    {
        if v[i] == x {
            return true;
        }
        i = i + 1;
    }
    false
}

/// Links each newly added animation player to every [`Animated`] root that
/// has its parent among its children. Returns the roots linked, in the order
/// linked, whose [`Animated`] mark is to be removed. A root that no player
/// links to keeps its old link; a root that players link to ends up linked
/// to the last of them; with no match at all the map stays as it was and no
/// root is returned.
pub fn store_animation_relationships(
    map: &mut AnimationCharacterMap,
    players: &Vec<AddedPlayer>,
    roots: &Vec<AnimatedRoot>,
) -> (r: Vec<u64>)
    ensures
        links_of(*final(map)) == link_players(
            links_of(*old(map)),
            players@,
            roots_view(roots@),
            players@.len() as int,
        ).0,
        r@ == link_players(
            links_of(*old(map)),
            players@,
            roots_view(roots@),
            players@.len() as int,
        ).1,
        links_of(*old(map)).dom().finite() ==> links_of(*final(map)).dom().finite()
            && links_of(*final(map)).len() >= links_of(*old(map)).len(),
        forall|k: u64| #[trigger]
            links_of(*old(map)).contains_key(k) ==> links_of(*final(map)).contains_key(k),
        forall|k: u64|
            (forall|i: int|
                0 <= i < players@.len() ==> !#[trigger] links_to(
                    players@,
                    roots_view(roots@),
                    k,
                    i,
                )) ==> (links_of(*final(map)).contains_key(k) == links_of(*old(map)).contains_key(k))
                && (links_of(*old(map)).contains_key(k) ==> links_of(*final(map))[k] == links_of(
                *old(map),
            )[k]),
        forall|k: u64, i: int|
            0 <= i < players@.len() && #[trigger] links_to(players@, roots_view(roots@), k, i) && (
            forall|i2: int|
                i < i2 < players@.len() ==> !#[trigger] links_to(players@, roots_view(roots@), k, i2))
                ==> links_of(*final(map)).contains_key(k) && links_of(*final(map))[k]
                == players@[i].entity,
        (forall|i: int, j: int|
            0 <= i < players@.len() && 0 <= j < roots@.len() ==> !#[trigger] roots@[j].children@.contains(
                #[trigger] players@[i].parent,
            )) ==> links_of(*final(map)) == links_of(*old(map)) && r@.len() == 0,
{
    proof {
        let rv = roots_view(roots@);
        lemma_link_players(links_of(*map), players@, rv, players@.len() as int);
        if forall|i: int, j: int|
            0 <= i < players@.len() && 0 <= j < roots@.len() ==> !#[trigger] roots@[j].children@.contains(
                #[trigger] players@[i].parent,
            ) {
            assert forall|i2: int, j2: int|
                0 <= i2 < players@.len() && 0 <= j2 < rv.len() implies !#[trigger] rv[j2].1.contains(
                #[trigger] players@[i2].parent,
            ) by {
                assert(rv[j2].1 == roots@[j2].children@);
                assert(!roots@[j2].children@.contains(players@[i2].parent));
            }
        }
    }
    let ghost rv = roots_view(roots@);
    let ghost start = links_of(*map);
    let mut linked: Vec<u64> = Vec::new();
    let mut i: usize = 0;
    while i < players.len()
        invariant
            0 <= i <= players.len(),
            rv == roots_view(roots@),
            start.dom().finite() ==> links_of(*map).dom().finite(),
            start.dom().finite() ==> links_of(*map).len() >= start.len(),
            forall|k: u64| #[trigger] start.contains_key(k) ==> links_of(*map).contains_key(k),
            links_of(*map) == link_players(start, players@, rv, i as int).0,
            linked@ == link_players(start, players@, rv, i as int).1,
        decreases players.len() - i,
    {
        let p = players[i];
        let ghost before = links_of(*map);
        let ghost linked_before = linked@;
        let mut j: usize = 0;
        while j < roots.len()
            invariant
                0 <= j <= roots.len(),
                0 <= i < players.len(),
                p == players@[i as int],
                rv == roots_view(roots@),
                rv.len() == roots@.len(),
                links_of(*map) == link_player(before, p, rv, j as int).0,
                before.dom().finite() ==> links_of(*map).dom().finite(),
                before.dom().finite() ==> links_of(*map).len() >= before.len(),
                forall|k: u64| #[trigger] before.contains_key(k) ==> links_of(*map).contains_key(k),
                linked@ == linked_before + link_player(before, p, rv, j as int).1,
            decreases roots.len() - j,
        {
            let root = &roots[j];
            assert(rv[j as int] == (root.entity, root.children@));
            if contains_entity(&root.children, p.parent) {
                map.insert(root.entity, p.entity);
                linked.push(root.entity);
                assert(linked@ == linked_before + link_player(before, p, rv, j + 1).1);
            }
            j = j + 1;
        }
        i = i + 1;
    }
    linked
}

/// The cross-fade that one transition event asks for, when the event's
/// entity has a linked animation player.
pub open spec fn playback_for(links: Map<u64, u64>, e: AnimationTransitionEvent) -> Option<Playback> {
    if links.contains_key(e.entity) {
        Some(Playback { player: links[e.entity], clip: e.clip, transition_ms: e.transition_ms })
    } else {
        None
    }
}

/// The cross-fades for the first `i` events, in order; events whose entity
/// has no linked player yet are skipped.
pub open spec fn playbacks_for(links: Map<u64, u64>, events: Seq<AnimationTransitionEvent>, i: int) -> Seq<Playback>
    decreases i,
{
    if i <= 0 {
        Seq::empty()
    } else {
        let prev = playbacks_for(links, events, i - 1);
        match playback_for(links, events[i - 1]) {
            Some(pb) => prev.push(pb),
            None => prev,
        }
    }
}

/// Resolves transition events to the animation players they are played on.
pub fn handle_animation_transition_events(
    map: &AnimationCharacterMap,
    events: &Vec<AnimationTransitionEvent>,
) -> (r: Vec<Playback>)
    ensures
        r@ == playbacks_for(links_of(*map), events@, events@.len() as int),
{
    let mut out: Vec<Playback> = Vec::new();
    let mut i: usize = 0;
    while i < events.len()
        invariant
            0 <= i <= events.len(),
            out@ == playbacks_for(links_of(*map), events@, i as int),
        decreases events.len() - i,
    {
        let e = events[i];
        match map.get(e.entity) {
            Some(player) => {
                out.push(Playback { player, clip: e.clip, transition_ms: e.transition_ms });
            },
            None => {},
        }
        i = i + 1;
    }
    out
}

/// For the first `i` players, in order, each one that has a linked
/// animation player, paired with it.
pub open spec fn idle_targets(links: Map<u64, u64>, players: Seq<u64>, i: int) -> Seq<(u64, u64)>
    decreases i,
{
    if i <= 0 {
        Seq::empty()
    } else {
        let prev = idle_targets(links, players, i - 1);
        if links.contains_key(players[i - 1]) {
            prev.push((players[i - 1], links[players[i - 1]]))
        } else {
            prev
        }
    }
}

/// Finds where the idle clip starts for players whose first animation has
/// not started yet: each player with a linked animation player, paired with
/// it, in order. Players not linked yet are left for a later frame.
pub fn play_idle_animation(map: &AnimationCharacterMap, players: &Vec<u64>) -> (r: Vec<(u64, u64)>)
    ensures
        r@ == idle_targets(links_of(*map), players@, players@.len() as int),
{
    let mut out: Vec<(u64, u64)> = Vec::new();
    let mut i: usize = 0;
    while i < players.len()
        invariant
            0 <= i <= players.len(),
            out@ == idle_targets(links_of(*map), players@, i as int),
        decreases players.len() - i,
    {
        let entity = players[i];
        match map.get(entity) {
            Some(animation_entity) => {
                out.push((entity, animation_entity));
            },
            None => {},
        }
        i = i + 1;
    }
    out
}

} // verus!

use vstd::prelude::*;
use crate::planet::Planet;
use crate::starmap::{MapError, Starmap2D};

verus! {

/// Resources a body spends to spawn one unit.
pub const ADD_SHIP_RESOURCE_COST: u64 = 10;

/// Share of a body's units, in percent, that one move sends.
pub const MOVE_SHIP_FLEET_PERCENT: u64 = 50;

/// Resources a player's home body starts with.
pub const ADD_PLAYER_RESOURCES_INIT: u64 = 100;

/// Resources a player's home body gains each tick.
pub const ADD_PLAYER_RESOURCES_INC: u64 = 1;

/// A controlling party: human or autonomous, with the body it started on.
#[derive(Clone, Copy, Debug, PartialEq, Eq, Structural)]
pub struct Player {
    pub id: usize,
    pub human: bool,
    pub home: usize,
}

/// What a player may ask for.
#[derive(Clone, Copy, Debug, PartialEq, Eq, Structural)]
pub enum PlayerAction {
    /// Spawn a unit on the body with this id.
    AddShip(usize),
    /// Send units from the first body to the second.
    MoveShips(usize, usize),
    /// Input that maps to no action; dispatching it changes nothing.
    Unmatched,
}

/// `a + b`, held at `u64::MAX`.
pub open spec fn capped_add(a: u64, b: u64) -> u64 {
    if a as int + b as int <= u64::MAX {
        (a + b) as u64
    } else {
        u64::MAX
    }
}

/// The number of units one move sends out of `units`: the configured share, rounded down.
pub open spec fn fleet_share(units: u64) -> u64 {
    (units as int * MOVE_SHIP_FLEET_PERCENT as int / 100) as u64
}

/// The bodies after `player` spawns a unit on `target`, or the error that refuses it.
pub open spec fn add_ship_outcome(ps: Seq<Planet>, target: usize, player: usize) -> Result<
    Seq<Planet>,
    MapError,
> {
    if target >= ps.len() {
        Err(MapError::NotFound)
    } else if ps[target as int].resources < ADD_SHIP_RESOURCE_COST {
        Err(MapError::InsufficientResources)
    } else {
        let p = ps[target as int];
        Ok(
            ps.update(
                target as int,
                Planet {
                    resources: (p.resources - ADD_SHIP_RESOURCE_COST) as u64,
                    units: capped_add(p.units, 1),
                    owner: Some(player),
                    ..p
                },
            ),
        )
    }
}

/// The bodies after `player` sends units from `from` to `to`, or the error that refuses it.
pub open spec fn move_ships_outcome(ps: Seq<Planet>, from: usize, to: usize, player: usize) -> Result<
    Seq<Planet>,
    MapError,
> {
    if from >= ps.len() || to >= ps.len() {
        Err(MapError::NotFound)
    } else if ps[from as int].units == 0 || ps[from as int].owner != Some(player) {
        Err(MapError::NoUnitsAvailable)
    } else if from == to {
        Ok(ps)
    } else {
        let f = ps[from as int];
        let t = ps[to as int];
        let moved = fleet_share(f.units);
        Ok(
            ps.update(from as int, Planet { units: (f.units - moved) as u64, ..f }).update(
                to as int,
                Planet {
                    units: capped_add(t.units, moved),
                    owner: if moved > 0 {
                        Some(player)
                    } else {
                        t.owner
                    },
                    ..t
                },
            ),
        )
    }
}

/// The bodies after `player` issues `action`, or the error that refuses it.
pub open spec fn action_outcome(ps: Seq<Planet>, action: PlayerAction, player: usize) -> Result<
    Seq<Planet>,
    MapError,
> {
    match action {
        PlayerAction::AddShip(t) => add_ship_outcome(ps, t, player),
        PlayerAction::MoveShips(f, t) => move_ships_outcome(ps, f, t, player),
        PlayerAction::Unmatched => Ok(ps),
    }
}

/// A body after one tick of growth.
pub open spec fn grown(p: Planet) -> Planet {
    Planet { resources: capped_add(p.resources, p.growth), ..p }
}

/// `player` owns the body and can pay for a unit there.
pub open spec fn can_spawn(p: Planet, player: usize) -> bool {
    p.owner == Some(player) && p.resources >= ADD_SHIP_RESOURCE_COST
}

/// `player` owns the body and it holds enough units for a move to send one.
pub open spec fn can_launch(p: Planet, player: usize) -> bool {
    p.owner == Some(player) && p.units >= 2
}

/// The body is not `player`'s.
pub open spec fn is_foreign(p: Planet, player: usize) -> bool {
    p.owner != Some(player)
}

/// What an autonomous player does: spawn on its lowest-id body that can pay; failing that,
/// move from its lowest-id body with units to spare to the lowest-id body it does not own;
/// failing that, nothing.
pub open spec fn ai_choice(ps: Seq<Planet>, player: usize, r: Option<PlayerAction>) -> bool {
    match r {
        Some(PlayerAction::AddShip(i)) => i < ps.len() && can_spawn(ps[i as int], player) && forall|
            j: int,
        |
            0 <= j < i ==> !can_spawn(#[trigger] ps[j], player),
        Some(PlayerAction::MoveShips(f, t)) => {
            &&& forall|j: int| 0 <= j < ps.len() ==> !can_spawn(#[trigger] ps[j], player)
            &&& f < ps.len() && can_launch(ps[f as int], player)
            &&& forall|j: int| 0 <= j < f ==> !can_launch(#[trigger] ps[j], player)
            &&& t < ps.len() && is_foreign(ps[t as int], player)
            &&& forall|j: int| 0 <= j < t ==> !is_foreign(#[trigger] ps[j], player)
        },
        Some(PlayerAction::Unmatched) => false,
        None => {
            &&& forall|j: int| 0 <= j < ps.len() ==> !can_spawn(#[trigger] ps[j], player)
            &&& (forall|j: int| 0 <= j < ps.len() ==> !can_launch(#[trigger] ps[j], player)) || (
            forall|j: int| 0 <= j < ps.len() ==> !is_foreign(#[trigger] ps[j], player))
        },
    }
}

/// The action an autonomous player takes on the bodies `ps` (it is unique: see
/// `lemma_ai_choice_unique`).
pub open spec fn ai_pick(ps: Seq<Planet>, player: usize) -> Option<PlayerAction> {
    choose|r: Option<PlayerAction>| ai_choice(ps, player, r)
}

/// The bodies after one player's turn in a tick: human players are left alone, and an
/// autonomous player's action goes through the same rules as any other.
pub open spec fn ai_turn(ps: Seq<Planet>, p: Player) -> Seq<Planet> {
    if p.human {
        ps
    } else {
        match ai_pick(ps, p.id) {
            Some(a) => match action_outcome(ps, a, p.id) {
                Ok(q) => q,
                Err(_) => ps,
            },
            None => ps,
        }
    }
}

/// The bodies after the first `n` players have taken their turns, in order.
pub open spec fn ai_round(ps: Seq<Planet>, players: Seq<Player>, n: int) -> Seq<Planet>
    decreases n,
{
    if n <= 0 {
        ps
    } else {
        ai_turn(ai_round(ps, players, n - 1), players[n - 1])
    }
}

/// Every body after one tick of growth.
pub open spec fn grow_all(ps: Seq<Planet>) -> Seq<Planet> {
    Seq::new(ps.len(), |i: int| grown(ps[i]))
}

/// At most one action meets the rules an autonomous player follows.
pub proof fn lemma_ai_choice_unique(
    ps: Seq<Planet>,
    player: usize,
    r1: Option<PlayerAction>,
    r2: Option<PlayerAction>,
)
    requires
        ai_choice(ps, player, r1),
        ai_choice(ps, player, r2),
    ensures
        r1 == r2,
{
    match (r1, r2) {
        (Some(PlayerAction::AddShip(i)), Some(PlayerAction::AddShip(k))) => {
            if i < k {
                assert(!can_spawn(ps[i as int], player));
            } else if k < i {
                assert(!can_spawn(ps[k as int], player));
            }
        },
        (Some(PlayerAction::AddShip(i)), _) => {
            assert(!can_spawn(ps[i as int], player));
        },
        (_, Some(PlayerAction::AddShip(k))) => {
            assert(!can_spawn(ps[k as int], player));
        },
        (Some(PlayerAction::MoveShips(f, t)), Some(PlayerAction::MoveShips(g, u))) => {
            if f < g {
                assert(!can_launch(ps[f as int], player));
            } else if g < f {
                assert(!can_launch(ps[g as int], player));
            }
            if t < u {
                assert(!is_foreign(ps[t as int], player));
            } else if u < t {
                assert(!is_foreign(ps[u as int], player));
            }
        },
        (Some(PlayerAction::MoveShips(f, t)), None) => {
            assert(can_launch(ps[f as int], player));
            assert(is_foreign(ps[t as int], player));
        },
        (None, Some(PlayerAction::MoveShips(g, u))) => {
            assert(can_launch(ps[g as int], player));
            assert(is_foreign(ps[u as int], player));
        },
        _ => {},
    }
}

/// Spawning on a body that cannot pay for a unit is refused with
/// `InsufficientResources`, and leaves its units and resources as they were.
pub proof fn lemma_add_ship_needs_resources(ps: Seq<Planet>, target: usize, player: usize)
    requires
        target < ps.len(),
        ps[target as int].resources < ADD_SHIP_RESOURCE_COST,
    ensures
        add_ship_outcome(ps, target, player) == Err::<Seq<Planet>, MapError>(
            MapError::InsufficientResources,
        ),
{
}

/// A move between two bodies sends exactly the configured share of the source's units,
/// rounded down; the source keeps exactly the rest, and the target gains what was sent.
pub proof fn lemma_move_ships_transfers_share(
    ps: Seq<Planet>,
    from: usize,
    to: usize,
    player: usize,
)
    requires
        from < ps.len(),
        to < ps.len(),
        from != to,
        ps[from as int].owner == Some(player),
        ps[from as int].units > 0,
        ps[to as int].units as int + ps[from as int].units as int <= u64::MAX,
    ensures
        move_ships_outcome(ps, from, to, player) is Ok,
        ({
            let q = move_ships_outcome(ps, from, to, player)->Ok_0;
            let moved = ps[from as int].units as int * MOVE_SHIP_FLEET_PERCENT as int / 100;
            &&& q.len() == ps.len()
            &&& q[from as int].units == ps[from as int].units - moved
            &&& q[to as int].units == ps[to as int].units + moved
            &&& forall|j: int| 0 <= j < ps.len() && j != from && j != to ==> q[j] == ps[j]
        }),
{
    let u = ps[from as int].units as int;
    assert(0 <= u * 50 / 100 <= u) by (nonlinear_arith)
        requires
            u >= 0,
    ;
}

/// The shared root of a game: the map, the players, and whose turn it is.
pub struct GameState {
    starmap: Starmap2D,
    players: Vec<Player>,
    current: usize,
}

impl GameState {
    pub closed spec fn map(&self) -> Starmap2D {
        self.starmap
    }

    pub closed spec fn players(&self) -> Seq<Player> {
        self.players@
    }

    pub closed spec fn current(&self) -> usize {
        self.current
    }

    /// The bodies of the map.
    pub open spec fn bodies(&self) -> Seq<Planet> {
        self.map().planets()
    }

    pub open spec fn wf(&self) -> bool {
        &&& self.map().wf()
        &&& self.current() < self.players().len() || (self.players().len() == 0 && self.current()
            == 0)
        &&& forall|i: int| 0 <= i < self.players().len() ==> (#[trigger] self.players()[i]).id == i
    }

    /// A game with an empty map and no players.
    pub fn new() -> (r: GameState)
        ensures
            r.wf(),
            r.bodies() == Seq::<Planet>::empty(),
            !r.map().is_destroyed(),
            r.players() == Seq::<Player>::empty(),
            r.current() == 0,
    {
        GameState { starmap: Starmap2D::empty(), players: Vec::new(), current: 0 }
    }

    /// Hands the game its map.
    pub fn set_starmap(&mut self, starmap: Starmap2D)
        requires
            old(self).wf(),
            starmap.wf(),
        ensures
            final(self).wf(),
            final(self).map() == starmap,
            final(self).players() == old(self).players(),
            final(self).current() == old(self).current(),
    {
        self.starmap = starmap;
    }

    /// The map.
    pub fn get_starmap(&self) -> (r: &Starmap2D)
        ensures
            *r == self.map(),
    {
        &self.starmap
    }

    /// The players, by id.
    pub fn get_players(&self) -> (r: &Vec<Player>)
        ensures
            r@ == self.players(),
    {
        &self.players
    }

    /// The player whose actions are being dispatched.
    pub fn get_current_player(&self) -> (r: usize)
        ensures
            r == self.current(),
    {
        self.current
    }

    /// Makes `id` the current player.
    pub fn set_current_player(&mut self, id: usize) -> (r: Result<(), MapError>)
        requires
            old(self).wf(),
        ensures
            final(self).wf(),
            final(self).map() == old(self).map(),
            final(self).players() == old(self).players(),
            id < old(self).players().len() ==> r is Ok && final(self).current() == id,
            id >= old(self).players().len() ==> r == Err::<(), MapError>(MapError::NotFound)
                && final(self).current() == old(self).current(),
    {
        if id >= self.players.len() {
            return Err(MapError::NotFound);
        }
        self.current = id;
        Ok(())
    }

    /// Adds a player whose home is the body `home`: the body gets the starting resources
    /// and growth, the new player as owner, and one unit. Returns the new player's id.
    pub fn add_player(&mut self, home: usize, human: bool) -> (r: Result<usize, MapError>)
        requires
            old(self).wf(),
        ensures
            final(self).wf(),
            final(self).map().is_destroyed() == old(self).map().is_destroyed(),
            final(self).current() == old(self).current(),
            old(self).map().is_destroyed() ==> r == Err::<usize, MapError>(
                MapError::AlreadyDestroyed,
            ) && *final(self) == *old(self),
            !old(self).map().is_destroyed() && home >= old(self).bodies().len() ==> r == Err::<
                usize,
                MapError,
            >(MapError::NotFound) && *final(self) == *old(self),
            !old(self).map().is_destroyed() && home < old(self).bodies().len() ==> {
                let n = old(self).players().len();
                &&& r == Ok::<usize, MapError>(n as usize)
                &&& final(self).players() == old(self).players().push(
                    Player { id: n as usize, human, home },
                )
                &&& final(self).bodies() == old(self).bodies().update(
                    home as int,
                    Planet {
                        resources: ADD_PLAYER_RESOURCES_INIT,
                        growth: ADD_PLAYER_RESOURCES_INC,
                        owner: Some(n as usize),
                        units: 1,
                        ..old(self).bodies()[home as int]
                    },
                )
            },
    {
        let p = match self.starmap.get_body(home) {
            Ok(p) => *p,
            Err(e) => return Err(e),
        };
        let id = self.players.len();
        let seeded = Planet {
            resources: ADD_PLAYER_RESOURCES_INIT,
            growth: ADD_PLAYER_RESOURCES_INC,
            owner: Some(id),
            units: 1,
            ..p
        };
        self.starmap.put_body(home, seeded);
        self.players.push(Player { id, human, home });
        assert(self.players@[id as int].id == id);
        Ok(id)
    }

    /// Tears the map down, handing back every body it owned so that each can be released.
    pub fn destroy_map(&mut self) -> (r: Result<Vec<Planet>, MapError>)
        requires
            old(self).wf(),
        ensures
            final(self).players() == old(self).players(),
            final(self).current() == old(self).current(),
            final(self).map().is_destroyed(),
            old(self).map().is_destroyed() ==> r == Err::<Vec<Planet>, MapError>(
                MapError::AlreadyDestroyed,
            ) && *final(self) == *old(self),
            !old(self).map().is_destroyed() ==> r is Ok && r->Ok_0@ == old(self).bodies()
                && final(self).bodies() == Seq::<Planet>::empty() && final(self).wf(),
    {
        self.starmap.destroy()
    }

    /// Applies `action` on behalf of `player`. A refused action changes nothing.
    pub fn dispatch(&mut self, action: PlayerAction, player: usize) -> (r: Result<(), MapError>)
        requires
            old(self).wf(),
        ensures
            final(self).wf(),
            final(self).players() == old(self).players(),
            final(self).current() == old(self).current(),
            final(self).map().is_destroyed() == old(self).map().is_destroyed(),
            old(self).map().is_destroyed() ==> r == Err::<(), MapError>(MapError::AlreadyDestroyed)
                && final(self).bodies() == old(self).bodies(),
            !old(self).map().is_destroyed() && action_outcome(old(self).bodies(), action, player) is Ok
                ==> r is Ok && final(self).bodies() == action_outcome(
                old(self).bodies(),
                action,
                player,
            )->Ok_0,
            !old(self).map().is_destroyed() && action_outcome(old(self).bodies(), action, player) is Err
                ==> r == Err::<(), MapError>(
                action_outcome(old(self).bodies(), action, player)->Err_0,
            ) && final(self).bodies() == old(self).bodies(),
    {
        if self.starmap.destroyed() {
            return Err(MapError::AlreadyDestroyed);
        }
        match action {
            PlayerAction::AddShip(target) => self.add_ship(target, player),
            PlayerAction::MoveShips(from, to) => self.move_ships(from, to, player),
            PlayerAction::Unmatched => Ok(()),
        }
    }

    fn add_ship(&mut self, target: usize, player: usize) -> (r: Result<(), MapError>)
        requires
            old(self).wf(),
            !old(self).map().is_destroyed(),
        ensures
            final(self).wf(),
            final(self).players() == old(self).players(),
            final(self).current() == old(self).current(),
            !final(self).map().is_destroyed(),
            add_ship_outcome(old(self).bodies(), target, player) is Ok ==> r is Ok
                && final(self).bodies() == add_ship_outcome(old(self).bodies(), target, player)->Ok_0,
            add_ship_outcome(old(self).bodies(), target, player) is Err ==> r == Err::<(), MapError>(
                add_ship_outcome(old(self).bodies(), target, player)->Err_0,
            ) && final(self).bodies() == old(self).bodies(),
    {
        let p = match self.starmap.get_body(target) {
            Ok(p) => *p,
            Err(e) => return Err(e),
        };
        if p.resources < ADD_SHIP_RESOURCE_COST {
            return Err(MapError::InsufficientResources);
        }
        let spawned = Planet {
            resources: p.resources - ADD_SHIP_RESOURCE_COST,
            units: add_capped(p.units, 1),
            owner: Some(player),
            ..p
        };
        self.starmap.put_body(target, spawned);
        Ok(())
    }

    fn move_ships(&mut self, from: usize, to: usize, player: usize) -> (r: Result<(), MapError>)
        requires
            old(self).wf(),
            !old(self).map().is_destroyed(),
        ensures
            final(self).wf(),
            final(self).players() == old(self).players(),
            final(self).current() == old(self).current(),
            !final(self).map().is_destroyed(),
            move_ships_outcome(old(self).bodies(), from, to, player) is Ok ==> r is Ok
                && final(self).bodies() == move_ships_outcome(
                old(self).bodies(),
                from,
                to,
                player,
            )->Ok_0,
            move_ships_outcome(old(self).bodies(), from, to, player) is Err ==> r == Err::<
                (),
                MapError,
            >(move_ships_outcome(old(self).bodies(), from, to, player)->Err_0)
                && final(self).bodies() == old(self).bodies(),
    {
        let f = match self.starmap.get_body(from) {
            Ok(p) => *p,
            Err(e) => return Err(e),
        };
        let t = match self.starmap.get_body(to) {
            Ok(p) => *p,
            Err(e) => return Err(e),
        };
        let owned = match f.owner {
            Some(o) => o == player,
            None => false,
        };
        if f.units == 0 || !owned {
            return Err(MapError::NoUnitsAvailable);
        }
        if from == to {
            return Ok(());
        }
        let moved = share_of(f.units);
        self.starmap.put_body(from, Planet { units: f.units - moved, ..f });
        let owner = if moved > 0 {
            Some(player)
        } else {
            t.owner
        };
        self.starmap.put_body(to, Planet { units: add_capped(t.units, moved), owner, ..t });
        Ok(())
    }

    /// One tick of growth: every body gains its growth rate in resources.
    pub fn grow(&mut self)
        requires
            old(self).wf(),
        ensures
            final(self).wf(),
            final(self).players() == old(self).players(),
            final(self).current() == old(self).current(),
            final(self).map().is_destroyed() == old(self).map().is_destroyed(),
            final(self).bodies() == grow_all(old(self).bodies()),
    {
        let n = self.starmap.len();
        let mut i: usize = 0;
        while i < n
            invariant
                self.wf(),
                i <= n,
                n == old(self).bodies().len(),
                self.bodies().len() == n,
                self.players() == old(self).players(),
                self.current() == old(self).current(),
                self.map().is_destroyed() == old(self).map().is_destroyed(),
                forall|j: int| 0 <= j < i ==> #[trigger] self.bodies()[j] == grown(old(self).bodies()[j]),
                forall|j: int| i <= j < n ==> #[trigger] self.bodies()[j] == old(self).bodies()[j],
            decreases n - i,
        {
            let p = self.starmap.get_planets()[i];
            self.starmap.put_body(i, Planet { resources: add_capped(p.resources, p.growth), ..p });
            i = i + 1;
        }
        assert(self.bodies() == grow_all(old(self).bodies()));
    }

    /// The action an autonomous `player` takes on the current map, if any.
    pub fn ai_action(&self, player: usize) -> (r: Option<PlayerAction>)
        ensures
            ai_choice(self.bodies(), player, r),
    {
        let ps = self.starmap.get_planets();
        let n = ps.len();
        let mut i: usize = 0;
        while i < n
            invariant
                n == ps@.len(),
                ps@ == self.bodies(),
                i <= n,
                forall|j: int| 0 <= j < i ==> !can_spawn(#[trigger] ps@[j], player),
            decreases n - i,
        {
            let p = ps[i];
            if is_owned_by(&p, player) && p.resources >= ADD_SHIP_RESOURCE_COST {
                return Some(PlayerAction::AddShip(i));
            }
            i = i + 1;
        }
        let mut f: usize = 0;
        while f < n && !launches(&ps[f], player)
            invariant
                n == ps@.len(),
                ps@ == self.bodies(),
                f <= n,
                forall|j: int| 0 <= j < n ==> !can_spawn(#[trigger] ps@[j], player),
                forall|j: int| 0 <= j < f ==> !can_launch(#[trigger] ps@[j], player),
            decreases n - f,
        {
            f = f + 1;
        }
        let mut t: usize = 0;
        while t < n && is_owned_by(&ps[t], player)
            invariant
                n == ps@.len(),
                ps@ == self.bodies(),
                t <= n,
                f <= n,
                f < n ==> can_launch(ps@[f as int], player),
                f == n ==> forall|j: int| 0 <= j < n ==> !can_launch(#[trigger] ps@[j], player),
                forall|j: int| 0 <= j < n ==> !can_spawn(#[trigger] ps@[j], player),
                forall|j: int| 0 <= j < f ==> !can_launch(#[trigger] ps@[j], player),
                forall|j: int| 0 <= j < t ==> !is_foreign(#[trigger] ps@[j], player),
            decreases n - t,
        {
            t = t + 1;
        }
        if f < n && t < n {
            Some(PlayerAction::MoveShips(f, t))
        } else {
            None
        }
    }

    /// One tick: every body grows, then each autonomous player, in id order, takes the
    /// action it picks on the map as it stands, through `dispatch`. A destroyed map is
    /// refused.
    pub fn update_ai(&mut self) -> (r: Result<(), MapError>)
        requires
            old(self).wf(),
        ensures
            final(self).wf(),
            final(self).players() == old(self).players(),
            final(self).current() == old(self).current(),
            final(self).map().is_destroyed() == old(self).map().is_destroyed(),
            old(self).map().is_destroyed() ==> r == Err::<(), MapError>(MapError::AlreadyDestroyed)
                && final(self).bodies() == old(self).bodies(),
            !old(self).map().is_destroyed() ==> r is Ok && final(self).bodies() == ai_round(
                grow_all(old(self).bodies()),
                old(self).players(),
                old(self).players().len() as int,
            ),
    {
        if self.starmap.destroyed() {
            return Err(MapError::AlreadyDestroyed);
        }
        self.grow();
        let ghost start = self.bodies();
        let mut i: usize = 0;
        while i < self.players.len()
            invariant
                self.wf(),
                i <= self.players().len(),
                self.players() == old(self).players(),
                self.current() == old(self).current(),
                !self.map().is_destroyed(),
                self.bodies() == ai_round(start, self.players(), i as int),
            decreases self.players().len() - i,
        {
            let p = self.players[i];
            let ghost ps = self.bodies();
            if !p.human {
                let picked = self.ai_action(p.id);
                proof {
                    lemma_ai_choice_unique(ps, p.id, picked, ai_pick(ps, p.id));
                }
                match picked {
                    Some(a) => {
                        let _ = self.dispatch(a, p.id);
                    },
                    None => {},
                }
            }
            i = i + 1;
        }
        Ok(())
    }
}

fn add_capped(a: u64, b: u64) -> (r: u64)
    ensures
        r == capped_add(a, b),
{
    if a <= u64::MAX - b {
        a + b
    } else {
        u64::MAX
    }
}

fn share_of(units: u64) -> (r: u64)
    ensures
        r == fleet_share(units),
        r <= units,
{
    assert(units as u128 * 50 <= u128::MAX) by (nonlinear_arith)
        requires
            units <= u64::MAX,
    ;
    let wide: u128 = units as u128 * MOVE_SHIP_FLEET_PERCENT as u128 / 100;
    assert(wide <= units) by (nonlinear_arith)
        requires
            wide == units as int * 50 / 100,
    ;
    wide as u64
}

fn launches(p: &Planet, player: usize) -> (r: bool)
    ensures
        r == can_launch(*p, player),
{
    is_owned_by(p, player) && p.units >= 2
}

fn is_owned_by(p: &Planet, player: usize) -> (r: bool)
    ensures
        r == (p.owner == Some(player)),
{
    match p.owner {
        Some(o) => o == player,
        None => false,
    }
}

} // verus!

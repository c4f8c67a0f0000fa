use starmap::game::{
    GameState, Player, PlayerAction, ADD_PLAYER_RESOURCES_INC, ADD_PLAYER_RESOURCES_INIT,
    ADD_SHIP_RESOURCE_COST,
};
use starmap::manage::ManageErrs;
use starmap::planet::Planet;
use starmap::starmap::{MapError, Starmap2D};

fn body(id: usize, resources: u64, owner: Option<usize>, units: u64) -> Planet {
    Planet { id, x: (id as i32) * 200, y: 0, resources, growth: 0, owner, units }
}

fn game_with(bodies: Vec<Planet>) -> GameState {
    let mut g = GameState::new();
    g.set_starmap(Starmap2D::from_planets(bodies));
    g
}

fn at(g: &GameState, id: usize) -> Planet {
    g.get_starmap().get_planet_properties(id).unwrap()
}

#[test]
fn add_ship_without_enough_resources_changes_nothing() {
    let mut g = game_with(vec![body(0, ADD_SHIP_RESOURCE_COST - 1, None, 2)]);
    let r = g.dispatch(PlayerAction::AddShip(0), 0);
    assert_eq!(r, Err(MapError::InsufficientResources));
    assert_eq!(at(&g, 0), body(0, ADD_SHIP_RESOURCE_COST - 1, None, 2));
}

#[test]
fn add_ship_pays_and_spawns() {
    let mut g = game_with(vec![body(0, 25, None, 0)]);
    assert_eq!(g.dispatch(PlayerAction::AddShip(0), 3), Ok(()));
    let p = at(&g, 0);
    assert_eq!(p.resources, 15);
    assert_eq!(p.units, 1);
    assert_eq!(p.owner, Some(3));
}

#[test]
fn move_ships_sends_half_rounded_down() {
    let mut g = game_with(vec![body(0, 0, Some(1), 7), body(1, 0, None, 2)]);
    assert_eq!(g.dispatch(PlayerAction::MoveShips(0, 1), 1), Ok(()));
    assert_eq!(at(&g, 0).units, 4);
    assert_eq!(at(&g, 1).units, 5);
    assert_eq!(at(&g, 1).owner, Some(1));
}

#[test]
fn move_of_a_single_unit_sends_nothing() {
    let mut g = game_with(vec![body(0, 0, Some(1), 1), body(1, 0, Some(2), 3)]);
    assert_eq!(g.dispatch(PlayerAction::MoveShips(0, 1), 1), Ok(()));
    assert_eq!(at(&g, 0).units, 1);
    assert_eq!(at(&g, 1).units, 3);
    assert_eq!(at(&g, 1).owner, Some(2));
}

#[test]
fn move_ships_refusals() {
    let mut g = game_with(vec![body(0, 0, Some(1), 0), body(1, 0, Some(2), 6)]);
    assert_eq!(g.dispatch(PlayerAction::MoveShips(0, 1), 1), Err(MapError::NoUnitsAvailable));
    assert_eq!(g.dispatch(PlayerAction::MoveShips(1, 0), 1), Err(MapError::NoUnitsAvailable));
    assert_eq!(g.dispatch(PlayerAction::MoveShips(1, 5), 2), Err(MapError::NotFound));
    assert_eq!(g.dispatch(PlayerAction::AddShip(9), 2), Err(MapError::NotFound));
    assert_eq!(at(&g, 1).units, 6);
    assert_eq!(g.dispatch(PlayerAction::MoveShips(1, 1), 2), Ok(()));
    assert_eq!(at(&g, 1).units, 6);
}

#[test]
fn unmatched_action_is_absorbed() {
    let mut g = game_with(vec![body(0, 50, None, 0)]);
    assert_eq!(g.dispatch(PlayerAction::Unmatched, 0), Ok(()));
    assert_eq!(at(&g, 0), body(0, 50, None, 0));
}

#[test]
fn dispatch_on_destroyed_map_is_refused() {
    let mut map = Starmap2D::from_planets(vec![body(0, 50, None, 0)]);
    map.destroy().unwrap();
    let mut g = GameState::new();
    g.set_starmap(map);
    assert_eq!(g.dispatch(PlayerAction::Unmatched, 0), Err(MapError::AlreadyDestroyed));
    assert_eq!(g.add_player(0, true), Err(MapError::AlreadyDestroyed));
}

#[test]
fn add_player_seeds_home() {
    let mut g = game_with(vec![body(0, 0, None, 0), body(1, 0, None, 0)]);
    assert_eq!(g.add_player(1, true), Ok(0));
    assert_eq!(g.add_player(0, false), Ok(1));
    assert_eq!(g.add_player(2, false), Err(MapError::NotFound));
    let home = at(&g, 1);
    assert_eq!(home.resources, ADD_PLAYER_RESOURCES_INIT);
    assert_eq!(home.growth, ADD_PLAYER_RESOURCES_INC);
    assert_eq!(home.owner, Some(0));
    assert_eq!(home.units, 1);
    assert_eq!(g.get_players()[1], Player { id: 1, human: false, home: 0 });
}

#[test]
fn current_player_must_exist() {
    let mut g = game_with(vec![body(0, 0, None, 0)]);
    assert_eq!(g.set_current_player(0), Err(MapError::NotFound));
    g.add_player(0, true).unwrap();
    assert_eq!(g.set_current_player(0), Ok(()));
    assert_eq!(g.get_current_player(), 0);
}

#[test]
fn grow_adds_growth_and_saturates() {
    let mut a = body(0, 5, None, 0);
    a.growth = 3;
    let mut b = body(1, u64::MAX - 1, None, 0);
    b.growth = 4;
    let mut g = game_with(vec![a, b]);
    g.grow();
    assert_eq!(at(&g, 0).resources, 8);
    assert_eq!(at(&g, 1).resources, u64::MAX);
}

#[test]
fn ai_spawns_where_it_can_pay_else_moves() {
    let g = game_with(vec![body(0, 0, None, 0), body(1, 3, Some(4), 2), body(2, 30, Some(4), 0)]);
    assert_eq!(g.ai_action(4), Some(PlayerAction::AddShip(2)));
    let g = game_with(vec![body(0, 0, Some(4), 1), body(1, 3, Some(4), 2), body(2, 0, None, 0)]);
    assert_eq!(g.ai_action(4), Some(PlayerAction::MoveShips(1, 2)));
    let g = game_with(vec![body(0, 0, Some(4), 1)]);
    assert_eq!(g.ai_action(4), None);
}

#[test]
fn tick_grows_then_runs_autonomous_players_only() {
    let mut g = game_with(vec![body(0, 0, None, 0), body(1, 0, None, 0)]);
    g.add_player(0, true).unwrap();
    g.add_player(1, false).unwrap();
    assert_eq!(g.update_ai(), Ok(()));
    // the human's home only grew; the autonomous home grew, then paid for a unit
    assert_eq!(at(&g, 0).resources, ADD_PLAYER_RESOURCES_INIT + ADD_PLAYER_RESOURCES_INC);
    assert_eq!(at(&g, 0).units, 1);
    assert_eq!(
        at(&g, 1).resources,
        ADD_PLAYER_RESOURCES_INIT + ADD_PLAYER_RESOURCES_INC - ADD_SHIP_RESOURCE_COST
    );
    assert_eq!(at(&g, 1).units, 2);
}

#[test]
fn two_players_on_a_generated_map() {
    let map = Starmap2D::new(10)
        .build(
            |id: usize, attempt: u64| {
                let h = (id as u64 * 7919 + attempt * 104_729) % 1_000_003;
                Planet::new(id, (h % 1300) as i32, ((h / 1300) % 1300) as i32)
            },
            |a: &Planet, b: &Planet| a.is_spaced_within(b, 100, 1000),
            |_p: Planet| (),
        )
        .unwrap();
    let homes = map.select_spread(2).unwrap();
    assert_eq!(homes.len(), 2);
    let mut g = GameState::new();
    g.set_starmap(map);
    for (i, &home) in homes.iter().enumerate() {
        assert_eq!(g.add_player(home, i == 0), Ok(i));
    }
    for (i, &home) in homes.iter().enumerate() {
        let p = at(&g, home);
        assert_eq!(p.owner, Some(i));
        assert_eq!(p.units, 1);
        assert_eq!(p.resources, 100);
    }
    let ps = g.get_starmap().get_planets();
    for i in 0..ps.len() {
        for j in (i + 1)..ps.len() {
            assert!(ps[i].distance_squared_to(&ps[j]) > 100 * 100);
        }
    }
}

#[test]
fn manage_errs_compare_by_value() {
    assert_eq!(ManageErrs::RootClassInvalid("Node".to_string()), ManageErrs::RootClassInvalid("Node".to_string()));
    assert_ne!(ManageErrs::CouldNotMakeInstance, ManageErrs::RootClassInvalid(String::new()));
}

#[test]
fn destroying_the_game_map_releases_every_body() {
    let mut g = game_with(vec![body(0, 1, None, 0), body(1, 2, None, 0)]);
    g.add_player(0, true).unwrap();
    let bodies = g.destroy_map().unwrap();
    assert_eq!(bodies.len(), 2);
    assert_eq!(bodies[1], body(1, 2, None, 0));
    assert_eq!(g.destroy_map().err(), Some(MapError::AlreadyDestroyed));
    assert_eq!(g.get_starmap().get_body(0).err(), Some(MapError::AlreadyDestroyed));
    assert_eq!(g.dispatch(PlayerAction::AddShip(0), 0), Err(MapError::AlreadyDestroyed));
    assert_eq!(g.get_players().len(), 1);
    assert_eq!(g.update_ai(), Err(MapError::AlreadyDestroyed));
}

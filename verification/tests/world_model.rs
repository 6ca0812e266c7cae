use miner_fleet::{Cell, Entity, GameState, Item, Miner, Opponent, Order, StateError};

fn miner(uid: u32, x: i32, y: i32) -> Miner {
    Miner {
        x,
        y,
        item: None,
        uid,
        alive: true,
        order: Order::GoTo(1, 0),
    }
}

fn opponent(uid: u32, x: i32, y: i32) -> Opponent {
    Opponent {
        x,
        y,
        item: None,
        uid,
        alive: true,
    }
}

#[test]
fn new_state_knows_nothing() {
    let state = GameState::new(30, 15);
    assert_eq!(state.width, 30);
    assert_eq!(state.height, 15);
    assert_eq!(state.my_score, 0);
    assert_eq!(state.opponent_score, 0);
    assert_eq!(state.radar_cooldown, 0);
    assert_eq!(state.trap_cooldown, 0);
    assert_eq!(state.cells.len(), 450);
    assert!(state.cells.iter().all(|c| *c == Cell::default()));
    assert!(state.miners.is_empty());
    assert!(state.opponent_miners.is_empty());
    assert!(state.entities.is_empty());
    assert!(state.burried_radars.is_empty());
    assert!(state.burried_traps.is_empty());
    assert_eq!(state.miner_with_radar, None);
}

#[test]
fn default_cell_is_unknown_and_intact() {
    assert_eq!(
        Cell::default(),
        Cell {
            ore_amount: None,
            has_hole: false
        }
    );
}

#[test]
fn scores_and_cooldowns_are_overwritten() {
    let mut state = GameState::new(30, 15);
    state.set_my_score(12);
    state.set_opponent_score(7);
    state.set_radar_cooldown(4);
    state.set_trap_cooldown(3);
    assert_eq!(state.my_score, 12);
    assert_eq!(state.opponent_score, 7);
    assert_eq!(state.radar_cooldown, 4);
    assert_eq!(state.trap_cooldown, 3);
    state.set_my_score(0);
    assert_eq!(state.my_score, 0);
    assert_eq!(state.opponent_score, 7);
}

#[test]
fn set_ore_and_set_hole_touch_one_cell() {
    let mut state = GameState::new(30, 15);
    state.set_ore(5, 3, Some(2));
    state.set_hole(5, 3, true);
    assert_eq!(
        state.cell(5, 3),
        Some(&Cell {
            ore_amount: Some(2),
            has_hole: true
        })
    );
    assert_eq!(state.cells[3 * 30 + 5].ore_amount, Some(2));
    assert_eq!(state.cell(3, 5), Some(&Cell::default()));
    assert_eq!(state.cell(4, 3), Some(&Cell::default()));
    assert_eq!(state.cell(5, 4), Some(&Cell::default()));
    let touched: usize = state
        .cells
        .iter()
        .filter(|c| **c != Cell::default())
        .count();
    assert_eq!(touched, 1);
}

#[test]
fn unknown_ore_replaces_a_known_amount() {
    let mut state = GameState::new(30, 15);
    state.set_ore(5, 3, Some(3));
    state.set_hole(5, 3, true);
    assert_eq!(state.cell(5, 3).unwrap().ore_amount, Some(3));
    state.set_ore(5, 3, None);
    assert_eq!(state.cell(5, 3).unwrap().ore_amount, None);
    assert!(state.cell(5, 3).unwrap().has_hole);
}

#[test]
fn cell_is_none_off_the_grid() {
    let mut state = GameState::new(30, 15);
    state.set_ore(0, 1, Some(9));
    assert_eq!(state.cell(-1, 0), None);
    assert_eq!(state.cell(0, -1), None);
    assert_eq!(state.cell(-1, -1), None);
    assert_eq!(state.cell(30, 0), None);
    assert_eq!(state.cell(0, 15), None);
    assert_eq!(state.cell(i32::MAX, i32::MAX), None);
    assert_eq!(state.cell(i32::MIN, 3), None);
    assert_eq!(state.cell(29, 14), Some(&Cell::default()));
    assert_eq!(state.cell(0, 0), Some(&Cell::default()));
}

#[test]
fn miners_are_appended_in_order() {
    let mut state = GameState::new(30, 15);
    assert_eq!(state.add_miner(miner(10, 0, 1)), 0);
    assert_eq!(state.add_miner(miner(11, 0, 2)), 1);
    assert_eq!(state.add_opponent_miner(opponent(20, 29, 1)), 0);
    assert_eq!(state.add_opponent_miner(opponent(21, 29, 2)), 1);
    assert_eq!(state.miners().len(), 2);
    assert_eq!(state.miners()[0], miner(10, 0, 1));
    assert_eq!(state.miners()[1], miner(11, 0, 2));
    assert_eq!(state.opponent_miners[1], opponent(21, 29, 2));
}

#[test]
fn registry_answers_by_identifier() {
    let mut state = GameState::new(30, 15);
    let index: usize = state.add_miner(miner(10, 0, 1));
    assert!(!state.entity_exists(10));
    assert_eq!(state.entity(10), None);
    state.add_entity(10, Entity::Miner(index));
    state.add_entity(40, Entity::BurriedRadar);
    assert!(state.entity_exists(10));
    assert!(state.entity_exists(40));
    assert!(!state.entity_exists(11));
    assert_eq!(state.entity(10), Some(Entity::Miner(0)));
    assert_eq!(state.entity(40), Some(Entity::BurriedRadar));
    assert_eq!(state.miner_index(10), Some(0));
    assert_eq!(state.miner_index(40), None);
    assert_eq!(state.opponent_index(10), None);
}

#[test]
fn a_registry_entry_without_a_robot_is_no_robot() {
    let mut state = GameState::new(30, 15);
    state.add_entity(10, Entity::Miner(3));
    state.add_entity(11, Entity::OpponentMiner(0));
    assert_eq!(state.miner_index(10), None);
    assert_eq!(state.opponent_index(11), None);
    assert_eq!(state.update_position(10, 1, 1), Err(StateError::NotAMiner(10)));
    assert_eq!(state.kill(11), Err(StateError::NotAMiner(11)));
}

#[test]
fn position_item_and_death_reach_the_registered_robot() {
    let mut state = GameState::new(30, 15);
    let a: usize = state.add_miner(miner(10, 0, 1));
    state.add_entity(10, Entity::Miner(a));
    let b: usize = state.add_miner(miner(11, 0, 2));
    state.add_entity(11, Entity::Miner(b));
    let c: usize = state.add_opponent_miner(opponent(20, 29, 1));
    state.add_entity(20, Entity::OpponentMiner(c));

    assert_eq!(state.update_position(11, 4, 6), Ok(()));
    assert_eq!(state.update_item(11, Some(Item::Ore)), Ok(()));
    assert_eq!(state.miners[1].x, 4);
    assert_eq!(state.miners[1].y, 6);
    assert_eq!(state.miners[1].item, Some(Item::Ore));
    assert_eq!(state.miners[1].uid, 11);
    assert!(state.miners[1].alive);
    assert_eq!(state.miners[0], miner(10, 0, 1));

    assert_eq!(state.update_position(20, 25, 3), Ok(()));
    assert_eq!(state.update_item(20, Some(Item::Trap)), Ok(()));
    assert_eq!(state.opponent_miners[0].x, 25);
    assert_eq!(state.opponent_miners[0].y, 3);
    assert_eq!(state.opponent_miners[0].item, Some(Item::Trap));

    assert_eq!(state.kill(10), Ok(()));
    assert!(!state.miners[0].alive);
    assert!(state.miners[1].alive);
    assert_eq!(state.kill(20), Ok(()));
    assert!(!state.opponent_miners[0].alive);
}

#[test]
fn robot_updates_fail_for_what_is_no_robot() {
    let mut state = GameState::new(30, 15);
    state.add_entity(40, Entity::BurriedRadar);
    state.add_entity(41, Entity::BurriedTrap);
    assert_eq!(state.update_position(40, 1, 1), Err(StateError::NotAMiner(40)));
    assert_eq!(state.update_item(41, None), Err(StateError::NotAMiner(41)));
    assert_eq!(state.kill(40), Err(StateError::NotAMiner(40)));
    assert_eq!(state.update_position(99, 1, 1), Err(StateError::NotAMiner(99)));
    assert_eq!(state.update_item(99, None), Err(StateError::NotAMiner(99)));
    assert_eq!(state.kill(99), Err(StateError::NotAMiner(99)));
    assert!(state.miners.is_empty());
    assert!(state.opponent_miners.is_empty());
}

#[test]
fn killing_twice_is_killing_once() {
    let mut state = GameState::new(30, 15);
    let a: usize = state.add_miner(miner(10, 3, 4));
    state.add_entity(10, Entity::Miner(a));
    assert_eq!(state.kill(10), Ok(()));
    let once = state.miners.clone();
    assert_eq!(state.kill(10), Ok(()));
    assert_eq!(state.miners, once);
    assert_eq!(
        state.miners[0],
        Miner {
            alive: false,
            ..miner(10, 3, 4)
        }
    );
}

#[test]
fn buried_items_are_recorded_and_corrected() {
    let mut state = GameState::new(30, 15);
    state.burry_radar(40, 5, 6);
    state.burry_trap(41, 7, 8);
    assert_eq!(state.burried_radars.get(&40), Some(&(5, 6)));
    assert_eq!(state.burried_traps.get(&41), Some(&(7, 8)));
    assert_eq!(state.update_radar_position(40, 9, 9), Ok(()));
    assert_eq!(state.update_trap_position(41, 2, 2), Ok(()));
    assert_eq!(state.burried_radars.get(&40), Some(&(9, 9)));
    assert_eq!(state.burried_traps.get(&41), Some(&(2, 2)));
    assert_eq!(state.burried_radars.len(), 1);
    assert_eq!(state.burried_traps.len(), 1);
}

#[test]
fn correcting_an_unknown_buried_item_fails() {
    let mut state = GameState::new(30, 15);
    state.burry_radar(40, 5, 6);
    state.burry_trap(41, 7, 8);
    assert_eq!(
        state.update_radar_position(41, 1, 1),
        Err(StateError::NotARadar(41))
    );
    assert_eq!(
        state.update_trap_position(40, 1, 1),
        Err(StateError::NotATrap(40))
    );
    assert_eq!(state.burried_radars.get(&40), Some(&(5, 6)));
    assert_eq!(state.burried_traps.get(&41), Some(&(7, 8)));
    assert_eq!(state.burried_radars.len(), 1);
    assert_eq!(state.burried_traps.len(), 1);
}

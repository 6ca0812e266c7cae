use miner_fleet::{GameState, Item, Miner, Order, Request, RequestComment, RequestItem};

fn state_with(x: i32, y: i32, item: Option<Item>, order: Order) -> GameState {
    let mut state = GameState::new(30, 15);
    state.add_miner(Miner {
        x,
        y,
        item,
        uid: 1,
        alive: true,
        order,
    });
    state
}

fn holder_with(x: i32, y: i32, item: Option<Item>, target: (i32, i32)) -> GameState {
    let mut state = state_with(x, y, item, Order::GoTo(1, 0));
    state.assign_radar_to(target);
    assert_eq!(state.miner_with_radar, Some(0));
    state
}

fn plain(req: Request) -> RequestComment {
    RequestComment::new(req, None)
}

#[test]
fn unknown_intact_cell_is_probed_on_arrival() {
    let mut state = state_with(5, 3, None, Order::DigAt(5, 3));
    let action = state.miner_turn_with(0, (9, 9));
    assert_eq!(action, plain(Request::Dig(5, 3)));
    assert_eq!(state.miners[0].order, Order::DigAt(5, 3));
    let mut explorer = state_with(5, 3, None, Order::GoTo(5, 3));
    assert_eq!(explorer.miner_turn(0), plain(Request::Dig(5, 3)));
    assert_eq!(explorer.miners[0].order, Order::GoTo(5, 3));
}

#[test]
fn delivery_at_home_takes_a_fresh_order_towards_ore() {
    let mut state = state_with(0, 3, None, Order::Deliver(5, 3));
    state.set_ore(8, 6, Some(2));
    let action = state.miner_turn_with(0, (9, 9));
    assert_eq!(
        action,
        RequestComment::new(Request::Move(8, 6), Some("changing order!".to_string()))
    );
    assert_eq!(state.miners[0].order, Order::DigAt(8, 6));
}

#[test]
fn delivery_at_home_takes_a_fresh_order_towards_the_fallback() {
    let mut state = state_with(0, 3, None, Order::Deliver(5, 3));
    let action = state.miner_turn_with(0, (9, 9));
    assert_eq!(
        action,
        RequestComment::new(Request::Move(9, 9), Some("changing order!".to_string()))
    );
    assert_eq!(state.miners[0].order, Order::GoTo(9, 9));
}

#[test]
fn delivery_at_home_with_a_random_fallback_moves_to_the_new_destination() {
    for _ in 0..50 {
        let mut state = state_with(0, 3, None, Order::Deliver(5, 3));
        let action = state.miner_turn(0);
        let order = state.miners[0].order;
        match order {
            Order::GoTo(x, y) => {
                assert!(1 <= x && x < 30);
                assert!(0 <= y && y < 15);
                assert_eq!(action.req, Request::Move(x, y));
            }
            other => panic!("not an exploration order: {:?}", other),
        }
        assert_eq!(action.comment, Some("changing order!".to_string()));
    }
}

#[test]
fn delivery_on_the_way_moves_home_along_the_row_of_the_dig_site() {
    let mut state = state_with(4, 6, Some(Item::Ore), Order::Deliver(5, 3));
    let action = state.miner_turn_with(0, (9, 9));
    assert_eq!(
        action,
        RequestComment::new(Request::Move(0, 3), Some("going back to HQ!".to_string()))
    );
    assert_eq!(state.miners[0].order, Order::Deliver(5, 3));
}

#[test]
fn arriving_with_ore_turns_into_a_delivery() {
    let mut state = state_with(5, 3, Some(Item::Ore), Order::DigAt(5, 3));
    state.set_ore(5, 3, Some(2));
    let action = state.miner_turn_with(0, (9, 9));
    assert_eq!(action, plain(Request::Move(0, 3)));
    assert_eq!(state.miners[0].order, Order::Deliver(5, 3));
}

#[test]
fn known_ore_is_dug_and_delivered() {
    let mut state = state_with(5, 3, None, Order::DigAt(5, 3));
    state.set_ore(5, 3, Some(2));
    state.set_hole(5, 3, true);
    let action = state.miner_turn_with(0, (9, 9));
    assert_eq!(action, plain(Request::Dig(5, 3)));
    assert_eq!(state.miners[0].order, Order::Deliver(5, 3));
}

#[test]
fn exhausted_cell_sends_the_robot_to_the_nearest_ore() {
    let mut state = state_with(5, 3, None, Order::DigAt(5, 3));
    state.set_ore(5, 3, Some(0));
    state.set_ore(7, 3, Some(1));
    let action = state.miner_turn_with(0, (9, 9));
    assert_eq!(action, plain(Request::Move(7, 3)));
    assert_eq!(state.miners[0].order, Order::DigAt(7, 3));
}

#[test]
fn holed_cell_of_unknown_ore_sends_the_robot_exploring() {
    let mut state = state_with(5, 3, None, Order::GoTo(5, 3));
    state.set_hole(5, 3, true);
    let action = state.miner_turn_with(0, (9, 9));
    assert_eq!(action, plain(Request::Move(9, 9)));
    assert_eq!(state.miners[0].order, Order::GoTo(9, 9));
}

#[test]
fn travelling_robot_turns_to_newly_known_ore() {
    let mut state = state_with(2, 2, None, Order::GoTo(20, 10));
    state.set_ore(6, 2, Some(3));
    let action = state.miner_turn_with(0, (9, 9));
    assert_eq!(action, plain(Request::Move(6, 2)));
    assert_eq!(state.miners[0].order, Order::DigAt(6, 2));
}

#[test]
fn travelling_robot_keeps_going_while_no_ore_is_known() {
    let mut state = state_with(2, 2, None, Order::GoTo(20, 10));
    let action = state.miner_turn_with(0, (9, 9));
    assert_eq!(action, plain(Request::Move(20, 10)));
    assert_eq!(state.miners[0].order, Order::GoTo(20, 10));
    let mut digger = state_with(2, 2, None, Order::DigAt(20, 10));
    assert_eq!(digger.miner_turn(0), plain(Request::Move(20, 10)));
    assert_eq!(digger.miners[0].order, Order::DigAt(20, 10));
}

#[test]
fn robot_at_a_destination_off_the_grid_waits() {
    let mut state = state_with(-1, -1, None, Order::GoTo(-1, -1));
    let action = state.miner_turn_with(0, (9, 9));
    assert_eq!(action, plain(Request::Wait));
    assert_eq!(state.miners[0].order, Order::GoTo(-1, -1));
}

#[test]
fn dead_robot_waits_and_keeps_its_order() {
    let mut state = state_with(5, 3, None, Order::DigAt(5, 3));
    state.miners[0].alive = false;
    state.set_ore(5, 3, Some(2));
    let action = state.miner_turn_with(0, (9, 9));
    assert_eq!(action, plain(Request::Wait));
    assert_eq!(state.miners[0].order, Order::DigAt(5, 3));
}

#[test]
fn radar_holder_without_radar_goes_home_first() {
    let mut state = holder_with(6, 4, None, (12, 7));
    let action = state.miner_turn_with(0, (9, 9));
    assert_eq!(action, plain(Request::Move(0, 4)));
    assert_eq!(state.miners[0].order, Order::DeployRadarAt(12, 7));
    assert_eq!(state.miner_with_radar, Some(0));
}

#[test]
fn radar_holder_at_home_asks_for_a_radar() {
    let mut state = holder_with(0, 4, None, (12, 7));
    let action = state.miner_turn_with(0, (9, 9));
    assert_eq!(action, plain(Request::Item(RequestItem::Radar)));
    assert_eq!(state.miners[0].order, Order::DeployRadarAt(12, 7));
    assert_eq!(state.miner_with_radar, Some(0));
    let mut other = holder_with(0, 4, Some(Item::Ore), (12, 7));
    assert_eq!(
        other.miner_turn_with(0, (9, 9)),
        plain(Request::Item(RequestItem::Radar))
    );
}

#[test]
fn radar_holder_with_radar_travels_to_the_site() {
    let mut state = holder_with(3, 4, Some(Item::Radar), (12, 7));
    let action = state.miner_turn_with(0, (9, 9));
    assert_eq!(action, plain(Request::Move(12, 7)));
    assert_eq!(state.miners[0].order, Order::DeployRadarAt(12, 7));
    assert_eq!(state.miner_with_radar, Some(0));
}

#[test]
fn radar_holder_buries_the_radar_and_gives_up_the_mission() {
    let mut state = holder_with(12, 7, Some(Item::Radar), (12, 7));
    state.set_ore(14, 7, Some(2));
    let action = state.miner_turn_with(0, (9, 9));
    assert_eq!(action, plain(Request::Dig(12, 7)));
    assert_eq!(state.miners[0].order, Order::DigAt(14, 7));
    assert_eq!(state.miner_with_radar, None);
    let mut blind = holder_with(12, 7, Some(Item::Radar), (12, 7));
    assert_eq!(blind.miner_turn_with(0, (9, 9)), plain(Request::Dig(12, 7)));
    assert_eq!(blind.miners[0].order, Order::GoTo(9, 9));
    assert_eq!(blind.miner_with_radar, None);
}

#[test]
fn a_turn_touches_only_the_robot_that_takes_it() {
    let mut state = state_with(0, 3, None, Order::Deliver(5, 3));
    state.add_miner(Miner {
        x: 0,
        y: 8,
        item: None,
        uid: 2,
        alive: true,
        order: Order::Deliver(2, 8),
    });
    let second = state.miners[1];
    let cells = state.cells.clone();
    state.miner_turn_with(0, (9, 9));
    assert_eq!(state.miners[1], second);
    assert_eq!(state.cells, cells);
    assert_eq!(state.miners.len(), 2);
}

use miner_fleet::{
    CellReport, DecodeError, EntityReport, GameState, Item, Order, Request, RequestComment,
    RequestItem, Snapshot, SnapshotError,
};

fn report(uid: u32, entity_type: u32, x: i32, y: i32, item: i32) -> EntityReport {
    EntityReport {
        uid,
        entity_type,
        x,
        y,
        item,
    }
}

fn snapshot(cells: Vec<CellReport>, entities: Vec<EntityReport>) -> Snapshot {
    Snapshot {
        my_score: 0,
        opponent_score: 0,
        cells,
        radar_cooldown: 0,
        trap_cooldown: 0,
        entities,
    }
}

fn plain(req: Request) -> RequestComment {
    RequestComment::new(req, None)
}

fn holders(state: &GameState) -> usize {
    state
        .miners()
        .iter()
        .filter(|m| matches!(m.order, Order::DeployRadarAt(..)))
        .count()
}

#[test]
fn first_turn_with_every_choice_supplied() {
    let mut state = GameState::new(30, 15);
    let first = snapshot(
        vec![],
        vec![
            report(1, 0, 0, 2, -1),
            report(2, 0, 0, 7, -1),
            report(3, 0, 0, 12, -1),
            report(4, 1, 29, 7, -1),
        ],
    );
    let arrivals: Vec<(i32, i32)> = vec![(5, 2), (6, 7), (7, 12), (8, 8)];
    let fallbacks: Vec<(i32, i32)> = vec![(10, 1), (11, 2), (12, 3), (13, 4)];
    let turn = state.step_with(&first, &arrivals, (20, 9), &fallbacks);
    assert!(turn.errors.is_empty());
    assert_eq!(
        turn.actions,
        vec![
            plain(Request::Move(5, 2)),
            plain(Request::Item(RequestItem::Radar)),
            plain(Request::Move(7, 12)),
        ]
    );
    assert_eq!(state.miner_with_radar, Some(1));
    assert_eq!(state.miners[0].order, Order::GoTo(5, 2));
    assert_eq!(state.miners[1].order, Order::DeployRadarAt(20, 9));
    assert_eq!(state.miners[2].order, Order::GoTo(7, 12));
    assert_eq!(state.opponent_miners.len(), 1);
}

#[test]
fn second_turn_redirects_travellers_to_revealed_ore() {
    let mut state = GameState::new(30, 15);
    let entities = vec![
        report(1, 0, 0, 2, -1),
        report(2, 0, 0, 7, -1),
        report(3, 0, 0, 12, -1),
    ];
    let arrivals: Vec<(i32, i32)> = vec![(5, 2), (6, 7), (7, 12)];
    let fallbacks: Vec<(i32, i32)> = vec![(10, 1); 6];
    state.step_with(&snapshot(vec![], entities), &arrivals, (20, 9), &fallbacks);
    let next = snapshot(
        vec![CellReport {
            x: 4,
            y: 11,
            ore_amount: Some(3),
            has_hole: false,
        }],
        vec![
            report(1, 0, 1, 2, -1),
            report(2, 0, 0, 7, 2),
            report(3, 0, 1, 12, -1),
        ],
    );
    let turn = state.step_with(&next, &arrivals, (1, 1), &fallbacks);
    assert!(turn.errors.is_empty());
    assert_eq!(
        turn.actions,
        vec![
            plain(Request::Move(4, 11)),
            plain(Request::Move(20, 9)),
            plain(Request::Move(4, 11)),
        ]
    );
    assert_eq!(state.miners[0].order, Order::DigAt(4, 11));
    assert_eq!(state.miners[1].order, Order::DeployRadarAt(20, 9));
    assert_eq!(state.miners[1].item, Some(Item::Radar));
    assert_eq!(state.miners[2].order, Order::DigAt(4, 11));
    assert_eq!(state.miner_with_radar, Some(1));
    assert_eq!(holders(&state), 1);
}

#[test]
fn dead_robots_still_get_an_action() {
    let mut state = GameState::new(30, 15);
    let entities = vec![report(1, 0, 0, 2, -1), report(2, 0, 0, 7, -1)];
    let arrivals: Vec<(i32, i32)> = vec![(5, 2), (6, 7)];
    let fallbacks: Vec<(i32, i32)> = vec![(10, 1); 4];
    state.step_with(&snapshot(vec![], entities), &arrivals, (20, 9), &fallbacks);
    let next = snapshot(
        vec![],
        vec![report(1, 0, -1, -1, -1), report(2, 0, 0, 7, -1)],
    );
    let turn = state.step_with(&next, &arrivals, (20, 9), &fallbacks);
    assert_eq!(
        turn.actions,
        vec![
            plain(Request::Wait),
            plain(Request::Item(RequestItem::Radar)),
        ]
    );
    assert!(!state.miners[0].alive);
    assert_eq!(state.miners.len(), 2);
}

#[test]
fn turn_without_robots_yields_no_action() {
    let mut state = GameState::new(30, 15);
    let turn = state.step(&snapshot(vec![], vec![]));
    assert!(turn.actions.is_empty());
    assert!(turn.errors.is_empty());
    assert_eq!(state.miner_with_radar, None);
}

#[test]
fn faulty_records_do_not_stop_the_turn() {
    let mut state = GameState::new(30, 15);
    let first = snapshot(
        vec![CellReport {
            x: 99,
            y: 0,
            ore_amount: Some(1),
            has_hole: false,
        }],
        vec![report(1, 0, 0, 2, -1), report(2, 8, 0, 7, -1)],
    );
    let arrivals: Vec<(i32, i32)> = vec![(5, 2), (6, 7)];
    let fallbacks: Vec<(i32, i32)> = vec![(10, 1); 3];
    let turn = state.step_with(&first, &arrivals, (20, 9), &fallbacks);
    assert_eq!(
        turn.errors,
        vec![
            SnapshotError::OffGrid(99, 0),
            SnapshotError::Decode(DecodeError::UnknownEntityType(8)),
        ]
    );
    assert_eq!(turn.actions, vec![plain(Request::Item(RequestItem::Radar))]);
    assert_eq!(state.miners.len(), 1);
}

#[test]
fn every_turn_yields_one_action_per_owned_robot_and_one_radar_holder() {
    let mut state = GameState::new(30, 15);
    let mut cells: Vec<CellReport> = Vec::new();
    for y in 0..15 {
        for x in 1..30 {
            cells.push(CellReport {
                x,
                y,
                ore_amount: if (x + y) % 7 == 0 { Some(2) } else { None },
                has_hole: false,
            });
        }
    }
    for round in 0..30 {
        let xs: i32 = round % 5;
        let entities = vec![
            report(1, 0, xs, 2, -1),
            report(2, 0, 0, 7, if round > 3 { 2 } else { -1 }),
            report(3, 0, xs, 12, if round % 2 == 0 { 4 } else { -1 }),
            report(4, 0, if round > 20 { -1 } else { 3 }, if round > 20 { -1 } else { 5 }, -1),
            report(5, 0, 2, 9, -1),
            report(9, 1, 29, 7, -1),
        ];
        let turn = state.step(&snapshot(cells.clone(), entities));
        assert!(turn.errors.is_empty());
        assert_eq!(turn.actions.len(), 5);
        assert_eq!(state.miners.len(), 5);
        assert!(holders(&state) <= 1);
        match state.miner_with_radar {
            Some(h) => {
                assert!(matches!(state.miners[h].order, Order::DeployRadarAt(..)));
                assert_eq!(holders(&state), 1);
            }
            None => assert_eq!(holders(&state), 0),
        }
        for action in turn.actions.iter() {
            match action.req {
                Request::Move(x, y) | Request::Dig(x, y) => {
                    assert!(0 <= x && x < 30);
                    assert!(0 <= y && y < 15);
                }
                Request::Wait | Request::Item(_) => {}
            }
        }
    }
    assert!(!state.miners[3].alive);
}

#[test]
fn run_orders_with_gives_each_robot_its_own_fallback() {
    let mut state = GameState::new(30, 15);
    let entities = vec![
        report(1, 0, 5, 2, -1),
        report(2, 0, 6, 7, -1),
        report(3, 0, 0, 12, -1),
    ];
    let arrivals: Vec<(i32, i32)> = vec![(5, 2), (6, 7), (7, 12)];
    state.apply_snapshot_with(&snapshot(vec![], entities), &arrivals);
    state.set_hole(5, 2, true);
    state.set_ore(6, 7, Some(0));
    let fallbacks: Vec<(i32, i32)> = vec![(10, 1), (11, 2), (12, 3)];
    let actions = state.run_orders_with(&fallbacks);
    assert_eq!(
        actions,
        vec![
            plain(Request::Move(10, 1)),
            plain(Request::Move(11, 2)),
            plain(Request::Move(7, 12)),
        ]
    );
    assert_eq!(state.miners[0].order, Order::GoTo(10, 1));
    assert_eq!(state.miners[1].order, Order::GoTo(11, 2));
    assert_eq!(state.miners[2].order, Order::GoTo(7, 12));
}

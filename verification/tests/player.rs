use wolf3d_rs::controls::{Action, ControlHandler, ControlManagerType, Event, InputState};
use wolf3d_rs::fixed::{EPS, FP};
use wolf3d_rs::geometry::RawPrimitive;
use wolf3d_rs::level::geometry::GeometrySet;
use wolf3d_rs::level::{MapTile, TileGrid};
use wolf3d_rs::parser::geometry::Geometry;
use wolf3d_rs::player::{Key, Player, SCANCODE_W};
use wolf3d_rs::vec2::{Mat2, Vec2};

/// A 6x6 grid with a single occupied tile at column 3, row 2.
fn grid_with_block() -> (TileGrid, GeometrySet) {
    let raw = vec![Geometry {
        name: String::from("wall"),
        symbol: 'w',
        primitives: Some(vec![RawPrimitive::Plane {
            p1: Vec2 { x: 0, y: FP },
            p2: Vec2 { x: 0, y: 0 },
        }]),
    }];
    let (geo_set, _symbols) = GeometrySet::new(&raw);
    let mut tiles: Vec<Vec<MapTile>> = Vec::new();
    for y in 0..6 {
        let mut row: Vec<MapTile> = Vec::new();
        for x in 0..6 {
            let geo_idx = if x == 3 && y == 2 { 1 } else { 0 };
            row.push(MapTile { geo_idx, mtl_idx: 0 });
        }
        tiles.push(row);
    }
    (TileGrid { height: 6, width: 6, tiles }, geo_set)
}

#[test]
fn movement_into_occupied_tile_clamps_one_axis() {
    // moving east into the occupied tile (3, 2) clamps x just short of
    // the tile boundary and leaves y untouched
    let (map, geo_set) = grid_with_block();
    let mut handler = ControlHandler::new();
    let mut state = InputState::new(0);
    let mut player = Player::new(
        Vec2 { x: 2 * FP + 3 * FP / 4, y: 2 * FP + FP / 2 },
        Vec2 { x: FP, y: 0 },
        &mut handler,
        &mut state,
    )
    .unwrap();
    state.flags[player.actions.forward.active_flag] = true;
    // a quarter second: displacement 0.375 tiles, crossing into tile 3
    player.update_position(&map, &geo_set, &state, FP / 4);
    assert_eq!(player.position.x, 3 * FP - EPS);
    assert_eq!(player.position.y, 2 * FP + FP / 2);
}

#[test]
fn free_movement_applies_full_displacement() {
    let (map, geo_set) = grid_with_block();
    let mut handler = ControlHandler::new();
    let mut state = InputState::new(0);
    let mut player = Player::new(
        Vec2 { x: FP + FP / 2, y: 4 * FP + FP / 2 },
        Vec2 { x: FP, y: 0 },
        &mut handler,
        &mut state,
    )
    .unwrap();
    state.flags[player.actions.forward.active_flag] = true;
    player.update_position(&map, &geo_set, &state, FP / 4);
    // speed 1.5 tiles/s for a quarter second: 0.375 tiles east
    assert_eq!(player.position.x, FP + FP / 2 + 3 * FP / 8);
    assert_eq!(player.position.y, 4 * FP + FP / 2);
}

#[test]
fn movement_clamps_at_the_grid_border() {
    let (map, geo_set) = grid_with_block();
    let mut handler = ControlHandler::new();
    let mut state = InputState::new(0);
    let mut player = Player::new(
        Vec2 { x: FP / 4, y: 4 * FP + FP / 2 },
        Vec2 { x: -FP, y: 0 },
        &mut handler,
        &mut state,
    )
    .unwrap();
    state.flags[player.actions.forward.active_flag] = true;
    // moving west out of the grid clamps a small offset inside it
    player.update_position(&map, &geo_set, &state, FP / 4);
    assert_eq!(player.position.x, EPS);
    assert_eq!(player.position.y, 4 * FP + FP / 2);
}

#[test]
fn turning_rotates_and_drains_mouse_deltas() {
    let (map, geo_set) = grid_with_block();
    let mut handler = ControlHandler::new();
    let mut state = InputState::new(0);
    let mut player = Player::new(
        Vec2 { x: FP + FP / 2, y: 4 * FP + FP / 2 },
        Vec2 { x: FP, y: 0 },
        &mut handler,
        &mut state,
    )
    .unwrap();
    state.mouse_dx = 10;
    state.mouse_dy = -3;
    // a quarter turn: cos 0, sin 1 in fixed point
    let rot = Mat2::rotation(0, FP);
    player.update_direction(&mut state, rot);
    assert_eq!(player.direction, Vec2 { x: 0, y: FP });
    assert_eq!(state.mouse_dx, 0);
    assert_eq!(state.mouse_dy, 0);
    let _ = (map, geo_set);
}

#[test]
fn held_key_drives_movement_through_dispatch() {
    // end to end: a key-down event raises the held flag through the
    // registry, and the resolver moves the player; the key-up clears it
    let (map, geo_set) = grid_with_block();
    let mut handler = ControlHandler::new();
    let mut state = InputState::new(0);
    let mut player = Player::new(
        Vec2 { x: FP + FP / 2, y: 4 * FP + FP / 2 },
        Vec2 { x: FP, y: 0 },
        &mut handler,
        &mut state,
    )
    .unwrap();
    let down = Event::KeyDown {
        timestamp: 77,
        window_id: 1,
        scancode: Some(SCANCODE_W),
        keymod: 0,
        repeat: false,
    };
    handler.call_loop(&vec![down], &mut state);
    assert!(state.flags[player.actions.forward.active_flag]);
    player.update_position(&map, &geo_set, &state, FP / 4);
    assert_eq!(player.position.x, FP + FP / 2 + 3 * FP / 8);

    let up = Event::KeyUp {
        timestamp: 80,
        window_id: 1,
        scancode: Some(SCANCODE_W),
        keymod: 0,
        repeat: false,
    };
    handler.call_loop(&vec![up], &mut state);
    assert!(!state.flags[player.actions.forward.active_flag]);
    let x = player.position.x;
    player.update_position(&map, &geo_set, &state, FP / 4);
    assert_eq!(player.position.x, x);
}

#[test]
fn turn_angle_consumes_accumulated_mouse_movement() {
    let mut handler = ControlHandler::new();
    let mut state = InputState::new(0);
    let player = Player::new(
        Vec2 { x: FP + FP / 2, y: FP + FP / 2 },
        Vec2 { x: FP, y: 0 },
        &mut handler,
        &mut state,
    )
    .unwrap();
    state.mouse_dx = 100;
    // angle = mouse_dx * (turn_speed * dt / FP): a quarter second
    let angle = player.turn_angle(&state, FP / 4);
    assert_eq!(angle, 100 * (34341 / 4));
}

#[test]
fn duplicate_key_registration_fails() {
    let mut handler = ControlHandler::new();
    let mut state = InputState::new(0);
    let k1 = Key::new(&mut handler, &mut state, SCANCODE_W).unwrap();
    let err = Key::new(&mut handler, &mut state, SCANCODE_W).unwrap_err();
    assert_eq!(err.message(), "a control is already bound to this event");
    // destroying the first key's handles frees both patterns again
    k1.press.remove(&mut handler);
    k1.release.remove(&mut handler);
    let _k2 = Key::new(&mut handler, &mut state, SCANCODE_W).unwrap();
}

#[test]
fn failed_key_registration_leaves_no_binding_behind() {
    let mut handler = ControlHandler::new();
    let mut state = InputState::new(1);
    // occupy only the key-up pattern
    let up = Event::KeyUp {
        timestamp: 0,
        window_id: 0,
        scancode: Some(SCANCODE_W),
        keymod: 0,
        repeat: false,
    };
    let _h = handler
        .add_control(ControlManagerType::Game, up, Action::SetFlag { flag: 0, value: false })
        .unwrap();
    // the key cannot be fully registered...
    let err = Key::new(&mut handler, &mut state, SCANCODE_W).unwrap_err();
    assert_eq!(err.message(), "a control is already bound to this event");
    // ...and its key-down registration was rolled back, so the key-down
    // pattern is still free
    let down = Event::KeyDown {
        timestamp: 0,
        window_id: 0,
        scancode: Some(SCANCODE_W),
        keymod: 0,
        repeat: false,
    };
    let _h2 = handler
        .add_control(ControlManagerType::Game, down, Action::SetFlag { flag: 0, value: true })
        .unwrap();
}

#[test]
fn player_binding_conflict_registers_nothing() {
    let mut handler = ControlHandler::new();
    let mut state = InputState::new(0);
    // the forward key's down pattern is already taken
    let down = Event::KeyDown {
        timestamp: 0,
        window_id: 0,
        scancode: Some(SCANCODE_W),
        keymod: 0,
        repeat: false,
    };
    let _h = handler.add_control(ControlManagerType::Game, down, Action::SetQuit).unwrap();
    let err = Player::new(
        Vec2 { x: FP + FP / 2, y: FP + FP / 2 },
        Vec2 { x: FP, y: 0 },
        &mut handler,
        &mut state,
    )
    .unwrap_err();
    assert_eq!(err.message(), "a control is already bound to this event");
    // the patterns were checked up front: no flag slot was appended
    assert_eq!(state.flags.len(), 0);
}

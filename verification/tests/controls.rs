use wolf3d_rs::controls::{
    Action, ControlHandle, ControlHandler, ControlManagerType, Event, InputState, canonicalize,
};

struct TestEnv {
    size: usize,
    state: InputState,
    events: Vec<Event>,
    handles: Vec<Option<ControlHandle>>,
    ctrl_handler: ControlHandler,
}

impl TestEnv {
    fn new(size: usize) -> Self {
        let state = InputState::new(size);
        let mut events: Vec<Event> = Vec::with_capacity(size);
        let mut handles: Vec<Option<ControlHandle>> = Vec::with_capacity(size);
        for i in 0..size {
            let scancode = Some(4 + i as u32);
            let event = Event::KeyDown {
                timestamp: 0,
                window_id: 0,
                scancode,
                keymod: 0,
                repeat: false,
            };
            events.push(event);
            handles.push(None);
        }
        let ctrl_handler = ControlHandler::new();
        Self { size, state, events, handles, ctrl_handler }
    }

    fn add_controls(&mut self, indexes: &[usize]) -> Result<(), wolf3d_rs::controls::ControlError> {
        for i in 0..indexes.len() {
            let event = self.events[indexes[i]];
            let action = Action::SetFlag { flag: indexes[i], value: true };
            let handle = self.ctrl_handler.add_control(ControlManagerType::Game, event, action)?;
            self.handles[indexes[i]] = Some(handle);
        }
        Ok(())
    }

    fn remove_controls(&mut self, indexes: &[usize]) {
        for i in 0..indexes.len() {
            let handle = self.handles[indexes[i]].take().unwrap();
            handle.remove(&mut self.ctrl_handler);
        }
    }

    fn replace_control(&mut self, dest: usize, src: usize) {
        let action = Action::SetFlag { flag: src, value: true };
        self.handles[dest].as_ref().unwrap().replace(&mut self.ctrl_handler, action);
    }

    fn call_controls(&mut self, event_indexes: &[usize]) {
        let mut pending: Vec<Event> = Vec::new();
        for i in 0..event_indexes.len() {
            pending.push(self.events[event_indexes[i]]);
        }
        self.ctrl_handler.call_loop(&pending, &mut self.state);
    }

    fn check_evidences(&self, indexes: &[usize], cmp: bool) -> bool {
        for i in 0..indexes.len() {
            if self.state.flags[indexes[i]] != cmp {
                return false;
            }
        }
        true
    }

    fn reset_evidences(&mut self) {
        for i in 0..self.size {
            self.state.flags[i] = false;
        }
    }
}

#[test]
fn control_ok() {
    let mut env = TestEnv::new(3);

    // pushing three controls to the manager's keydown table
    env.add_controls(&[0, 1, 2]).unwrap(); // empty -> Some Some Some
    env.call_controls(&[0, 1, 2]);
    assert!(env.check_evidences(&[0, 1, 2], true));

    env.reset_evidences();
    // removing second control which was pushed to the table
    env.remove_controls(&[1]); // Some Some Some -> Some None Some
    env.call_controls(&[0, 1, 2]);
    assert!(env.check_evidences(&[0, 2], true));
    assert!(env.check_evidences(&[1], false));

    env.reset_evidences();
    env.add_controls(&[1]).unwrap(); // Some None Some -> Some Some Some
    // removing second control which was added on a free spot of the table
    env.remove_controls(&[1]); // Some Some Some -> Some None Some
    env.call_controls(&[0, 1, 2]);
    assert!(env.check_evidences(&[0, 2], true));
    assert!(env.check_evidences(&[1], false));

    env.reset_evidences();
    // replacing third control's action with the second one's
    env.replace_control(2, 1);
    env.call_controls(&[0, 1, 2]);
    assert!(env.check_evidences(&[0, 1], true));
    assert!(env.check_evidences(&[2], false));
}

#[test]
fn control_err() {
    let mut env = TestEnv::new(2);

    // adding a control on an already bound event
    env.add_controls(&[0]).unwrap();
    let err = env.add_controls(&[0]).unwrap_err();
    assert_eq!(err.message(), "a control is already bound to this event");

    // adding a control on an unknown event
    let event_unknown = Event::Unknown { timestamp: 0, kind: 0 };
    let err = env
        .ctrl_handler
        .add_control(ControlManagerType::Game, event_unknown, Action::SetQuit)
        .unwrap_err();
    assert_eq!(err.message(), "event unknown");
}

#[test]
fn canonical_ignores_nonidentifying_fields() {
    // two raw events that differ only in timestamp, window id and repeat
    // flag canonicalize to the same pattern
    let a = Event::KeyDown {
        timestamp: 123,
        window_id: 7,
        scancode: Some(26),
        keymod: 3,
        repeat: true,
    };
    let b = Event::KeyDown {
        timestamp: 456,
        window_id: 9,
        scancode: Some(26),
        keymod: 0,
        repeat: false,
    };
    assert_eq!(canonicalize(&a), canonicalize(&b));

    let c = Event::MouseButtonDown {
        timestamp: 1,
        window_id: 2,
        which: 3,
        mouse_btn: 1,
        clicks: 2,
        x: 100,
        y: 200,
    };
    let d = Event::MouseButtonDown {
        timestamp: 9,
        window_id: 8,
        which: 7,
        mouse_btn: 1,
        clicks: 2,
        x: -5,
        y: 66,
    };
    assert_eq!(canonicalize(&c), canonicalize(&d));

    // different identifying payloads stay different
    let e = Event::KeyDown {
        timestamp: 0,
        window_id: 0,
        scancode: Some(4),
        keymod: 0,
        repeat: false,
    };
    assert_ne!(canonicalize(&a), canonicalize(&e));
}

#[test]
fn slot_reuse_after_remove() {
    // register, destroy the handle, then register the same pattern again:
    // the registration succeeds and reuses the freed slot
    let mut handler = ControlHandler::new();
    let mut state = InputState::new(1);
    let event = Event::KeyDown {
        timestamp: 0,
        window_id: 0,
        scancode: Some(26),
        keymod: 0,
        repeat: false,
    };
    let h1 = handler
        .add_control(ControlManagerType::Game, event, Action::SetFlag { flag: 0, value: true })
        .unwrap();
    let idx1 = h1.idx;
    h1.remove(&mut handler);
    let h2 = handler
        .add_control(ControlManagerType::Game, event, Action::SetFlag { flag: 0, value: true })
        .unwrap();
    assert_eq!(h2.idx, idx1);

    // and the re-registered binding dispatches
    let events = vec![event];
    handler.call_loop(&events, &mut state);
    assert!(state.flags[0]);
}

#[test]
fn mouse_motion_accumulates() {
    let mut handler = ControlHandler::new();
    let mut state = InputState::new(0);
    let pattern = Event::MouseMotion {
        timestamp: 0,
        window_id: 0,
        which: 0,
        mousestate: 0,
        x: 0,
        y: 0,
        xrel: 0,
        yrel: 0,
    };
    let _h = handler
        .add_control(ControlManagerType::Game, pattern, Action::AccumulateMouse)
        .unwrap();
    let events = vec![
        Event::MouseMotion {
            timestamp: 5,
            window_id: 1,
            which: 0,
            mousestate: 0,
            x: 10,
            y: 20,
            xrel: 3,
            yrel: -2,
        },
        Event::MouseMotion {
            timestamp: 6,
            window_id: 1,
            which: 0,
            mousestate: 0,
            x: 13,
            y: 18,
            xrel: 4,
            yrel: 1,
        },
    ];
    handler.call_loop(&events, &mut state);
    assert_eq!(state.mouse_dx, 7);
    assert_eq!(state.mouse_dy, -1);
}

#[test]
fn unmatched_events_are_dropped() {
    let mut handler = ControlHandler::new();
    let mut state = InputState::new(1);
    let bound = Event::KeyDown {
        timestamp: 0,
        window_id: 0,
        scancode: Some(26),
        keymod: 0,
        repeat: false,
    };
    let _h = handler
        .add_control(ControlManagerType::Game, bound, Action::SetFlag { flag: 0, value: true })
        .unwrap();
    // a key the registry has no binding for, and an unknown event
    let events = vec![
        Event::KeyDown { timestamp: 0, window_id: 0, scancode: Some(4), keymod: 0, repeat: false },
        Event::Unknown { timestamp: 0, kind: 99 },
    ];
    handler.call_loop(&events, &mut state);
    assert!(!state.flags[0]);
}

//! The player: input sampling built on the binding registry, turning, and
//! the axis-separated collision resolver that keeps the player inside
//! navigable space.
//!
//! Movement collides against whole-tile occupancy (whether a tile's
//! geometry entry is non-empty), not the exact primitive shapes drawn by
//! the ray caster; this coarser test is a deliberately preserved property
//! of the design.

use vstd::prelude::*;
use crate::fixed::{
    FP,
    EPS,
    qdiv,
    div_q,
    mul_wide,
    lemma_qdiv_bounds,
    lemma_qdiv_scaled_bound,
};
use crate::vec2::{
    Vec2,
    Vec2i,
    Mat2,
    mat_apply,
    vadd,
    vsub,
    vorth,
    vscale,
    vnorm,
    bounded,
    lemma_vnorm_bounds,
    lemma_component_le_len,
};
use crate::level::TileGrid;
use crate::level::geometry::GeometrySet;
use crate::controls::{
    Event,
    EventClass,
    Action,
    ControlHandle,
    ControlHandler,
    ControlManagerType,
    ControlError,
    InputState,
    ControlBinding,
    has_live,
    add_effect,
    handler_preserved,
    table_preserved,
    lemma_add_effect_slot,
    lemma_add_then_remove_preserves,
    lemma_add_preserves_slot,
    lemma_add_preserves_other,
};
use vstd::arithmetic::div_mod::{
    lemma_multiply_divide_lt,
    lemma_fundamental_div_mod,
    lemma_mod_division_less_than_divisor,
};

verus! {

/// Scancodes of the movement keys (USB HID usage ids).
pub const SCANCODE_A: u32 = 4;
pub const SCANCODE_D: u32 = 7;
pub const SCANCODE_S: u32 = 22;
pub const SCANCODE_W: u32 = 26;
pub const SCANCODE_ESCAPE: u32 = 41;

/// Movement speed: one and a half tiles per second, fixed-point.
pub const MOVE_SPEED: i64 = 98304;

/// Turn speed: about half a radian per second per mouse count,
/// fixed-point.
pub const TURN_SPEED: i64 = 34341;

/// Canonicalization keeps only a key event's scancode, so a held key is
/// registered under this pattern.
pub open spec fn key_pattern(down: bool, scancode: u32) -> Event {
    if down {
        Event::KeyDown { timestamp: 0, window_id: 0, scancode: Some(scancode), keymod: 0, repeat: false }
    } else {
        Event::KeyUp { timestamp: 0, window_id: 0, scancode: Some(scancode), keymod: 0, repeat: false }
    }
}

/// The canonical mouse-motion pattern: every field of a mouse-motion
/// event is non-identifying, so all such events share this pattern.
pub open spec fn mouse_motion_pattern() -> Event {
    Event::MouseMotion {
        timestamp: 0,
        window_id: 0,
        which: 0,
        mousestate: 0,
        x: 0,
        y: 0,
        xrel: 0,
        yrel: 0,
    }
}

/// A held key: a flag slot in the shared input state, set on key-down and
/// cleared on key-up by the two registered bindings.
#[derive(Debug)]
pub struct Key {
    pub active_flag: usize,
    pub press: ControlHandle,
    pub release: ControlHandle,
}

impl Key {
    /// Register a key-down action that raises the flag and a key-up
    /// action that clears it, on a fresh flag slot of the input state.
    /// Succeeds exactly when neither of the key's two canonical patterns
    /// has a live binding in the game registry; on failure the
    /// registration already made is rolled back, so the registries keep
    /// exactly their previous live bindings (the fresh flag slot is still
    /// appended).
    pub fn new(control_handler: &mut ControlHandler, state: &mut InputState, scancode: u32) -> (r:
        Result<Key, ControlError>)
        ensures
            final(state)@.flags == old(state)@.flags.push(false),
            final(state)@.mouse_dx == old(state)@.mouse_dx,
            final(state)@.mouse_dy == old(state)@.mouse_dy,
            final(state)@.quit == old(state)@.quit,
            ({
                let m0 = old(control_handler).manager_of(ControlManagerType::Game);
                let pat_dn = key_pattern(true, scancode);
                let pat_up = key_pattern(false, scancode);
                &&& ((r is Ok) <==> !has_live(m0.table(EventClass::KeyDown), pat_dn) && !has_live(
                    m0.table(EventClass::KeyUp),
                    pat_up,
                ))
                &&& (r is Err ==> r == Err::<Key, ControlError>(ControlError::DuplicateBinding)
                    && handler_preserved(*final(control_handler), *old(control_handler)))
                &&& (r matches Ok(k) ==> {
                    &&& k.active_flag == old(state)@.flags.len()
                    &&& final(control_handler).handle_valid(k.press)
                    &&& final(control_handler).handle_valid(k.release)
                    &&& k.press.manager == ControlManagerType::Game
                    &&& k.release.manager == ControlManagerType::Game
                    &&& k.press.event == pat_dn
                    &&& k.release.event == pat_up
                    &&& (
                    final(control_handler).manager_of(ControlManagerType::Game).table(
                        EventClass::KeyDown,
                    ),
                    k.press.idx as int,
                    ) == add_effect(
                        m0.table(EventClass::KeyDown),
                        pat_dn,
                        Action::SetFlag { flag: k.active_flag, value: true },
                    )
                    &&& (
                    final(control_handler).manager_of(ControlManagerType::Game).table(
                        EventClass::KeyUp,
                    ),
                    k.release.idx as int,
                    ) == add_effect(
                        m0.table(EventClass::KeyUp),
                        pat_up,
                        Action::SetFlag { flag: k.active_flag, value: false },
                    )
                    &&& (forall|c2: EventClass|
                        c2 != EventClass::KeyDown && c2 != EventClass::KeyUp
                            ==> #[trigger] final(control_handler).manager_of(
                            ControlManagerType::Game,
                        ).table(c2) == m0.table(c2))
                    &&& (forall|t2: ControlManagerType, c2: EventClass|
                        t2 != ControlManagerType::Game ==> #[trigger] final(control_handler).manager_of(t2).table(c2) == old(control_handler).manager_of(t2).table(
                            c2,
                        ))
                    &&& final(control_handler).active_manager == old(control_handler).active_manager
                })
            }),
    {
        let flag = state.flags.len();
        state.flags.push(false);

        let event = Event::KeyDown {
            timestamp: 0,
            window_id: 0,
            scancode: Some(scancode),
            keymod: 0,
            repeat: false,
        };
        let press = match control_handler.add_control(
            ControlManagerType::Game,
            event,
            Action::SetFlag { flag, value: true },
        ) {
            Ok(h) => h,
            Err(e) => {
                proof {
                    assert forall|t2: ControlManagerType, c2: EventClass|
                        table_preserved(
                            #[trigger] control_handler.manager_of(t2).table(c2),
                            old(control_handler).manager_of(t2).table(c2),
                        ) by {
                        assert(control_handler.manager_of(t2).table(c2) == old(control_handler).manager_of(t2).table(c2));
                    }
                }
                return Err(e);
            },
        };
        let event = Event::KeyUp {
            timestamp: 0,
            window_id: 0,
            scancode: Some(scancode),
            keymod: 0,
            repeat: false,
        };
        match control_handler.add_control(
            ControlManagerType::Game,
            event,
            Action::SetFlag { flag, value: false },
        ) {
            Ok(release) => {
                proof {
                    lemma_add_effect_slot(
                        old(control_handler).manager_of(ControlManagerType::Game).table(
                            EventClass::KeyDown,
                        ),
                        key_pattern(true, scancode),
                        Action::SetFlag { flag: flag, value: true },
                    );
                    lemma_add_effect_slot(
                        old(control_handler).manager_of(ControlManagerType::Game).table(
                            EventClass::KeyUp,
                        ),
                        key_pattern(false, scancode),
                        Action::SetFlag { flag: flag, value: false },
                    );
                }
                Ok(Key { active_flag: flag, press, release })
            },
            Err(e) => {
                // roll the key-down registration back so the pattern is
                // not left blocked behind a lost handle
                proof {
                    lemma_add_effect_slot(
                        old(control_handler).manager_of(ControlManagerType::Game).table(
                            EventClass::KeyDown,
                        ),
                        key_pattern(true, scancode),
                        Action::SetFlag { flag: flag, value: true },
                    );
                }
                press.remove(control_handler);
                proof {
                    let m0 = old(control_handler).manager_of(ControlManagerType::Game);
                    lemma_add_then_remove_preserves(
                        m0.table(EventClass::KeyDown),
                        key_pattern(true, scancode),
                        Action::SetFlag { flag: flag, value: true },
                    );
                    assert forall|t2: ControlManagerType, c2: EventClass|
                        table_preserved(
                            #[trigger] control_handler.manager_of(t2).table(c2),
                            old(control_handler).manager_of(t2).table(c2),
                        ) by {
                        if t2 == ControlManagerType::Game && c2 == EventClass::KeyDown {
                        } else {
                            assert(control_handler.manager_of(t2).table(c2) == old(control_handler).manager_of(t2).table(c2));
                        }
                    }
                }
                Err(e)
            },
        }
    }

    /// Whether the key is currently held.
    pub fn active(&self, state: &InputState) -> (r: bool)
        requires
            self.active_flag < state@.flags.len(),
        ensures
            r == state@.flags[self.active_flag as int],
    {
        state.flags[self.active_flag]
    }
}

/// Mouse look: one mouse-motion binding accumulating relative deltas into
/// the shared counters, drained once per frame by the turn step.
#[derive(Debug)]
pub struct MouseMotion {
    pub handle: ControlHandle,
}

impl MouseMotion {
    /// Register the accumulating mouse-motion binding.  Succeeds exactly
    /// when the canonical mouse-motion pattern has no live binding in the
    /// game registry; on failure nothing was registered.
    pub fn new(control_handler: &mut ControlHandler) -> (r: Result<MouseMotion, ControlError>)
        ensures
            ({
                let m0 = old(control_handler).manager_of(ControlManagerType::Game);
                &&& ((r is Ok) <==> !has_live(
                    m0.table(EventClass::MouseMotion),
                    mouse_motion_pattern(),
                ))
                &&& (r is Err ==> r == Err::<MouseMotion, ControlError>(
                    ControlError::DuplicateBinding,
                ) && handler_preserved(*final(control_handler), *old(control_handler)))
                &&& (r matches Ok(m) ==> {
                    &&& final(control_handler).handle_valid(m.handle)
                    &&& m.handle.manager == ControlManagerType::Game
                    &&& m.handle.event == mouse_motion_pattern()
                    &&& (
                    final(control_handler).manager_of(ControlManagerType::Game).table(
                        EventClass::MouseMotion,
                    ),
                    m.handle.idx as int,
                    ) == add_effect(
                        m0.table(EventClass::MouseMotion),
                        mouse_motion_pattern(),
                        Action::AccumulateMouse,
                    )
                    &&& (forall|c2: EventClass|
                        c2 != EventClass::MouseMotion ==> #[trigger] final(control_handler).manager_of(ControlManagerType::Game).table(c2) == m0.table(c2))
                    &&& (forall|t2: ControlManagerType, c2: EventClass|
                        t2 != ControlManagerType::Game ==> #[trigger] final(control_handler).manager_of(t2).table(c2) == old(control_handler).manager_of(t2).table(
                            c2,
                        ))
                    &&& final(control_handler).active_manager == old(control_handler).active_manager
                })
            }),
    {
        let event = Event::MouseMotion {
            timestamp: 0,
            window_id: 0,
            which: 0,
            mousestate: 0,
            x: 0,
            y: 0,
            xrel: 0,
            yrel: 0,
        };
        match control_handler.add_control(ControlManagerType::Game, event, Action::AccumulateMouse) {
            Ok(handle) => {
                proof {
                    lemma_add_effect_slot(
                        old(control_handler).manager_of(ControlManagerType::Game).table(
                            EventClass::MouseMotion,
                        ),
                        mouse_motion_pattern(),
                        Action::AccumulateMouse,
                    );
                }
                Ok(MouseMotion { handle })
            },
            Err(e) => {
                proof {
                    assert forall|t2: ControlManagerType, c2: EventClass|
                        table_preserved(
                            #[trigger] control_handler.manager_of(t2).table(c2),
                            old(control_handler).manager_of(t2).table(c2),
                        ) by {
                        assert(control_handler.manager_of(t2).table(c2) == old(control_handler).manager_of(t2).table(c2));
                    }
                }
                Err(e)
            },
        }
    }
}

/// The bindings that drive the player: four held movement keys and mouse
/// look.
#[derive(Debug)]
pub struct PlayerActions {
    pub forward: Key,
    pub left: Key,
    pub backward: Key,
    pub right: Key,
    pub turn: MouseMotion,
}

/// The raw key-down event a scancode is registered under.
fn key_down_event(scancode: u32) -> (r: Event)
    ensures
        r == key_pattern(true, scancode),
{
    Event::KeyDown { timestamp: 0, window_id: 0, scancode: Some(scancode), keymod: 0, repeat: false }
}

/// The raw key-up event a scancode is registered under.
fn key_up_event(scancode: u32) -> (r: Event)
    ensures
        r == key_pattern(false, scancode),
{
    Event::KeyUp { timestamp: 0, window_id: 0, scancode: Some(scancode), keymod: 0, repeat: false }
}

/// A key's two bindings stand in the game registry at the handle slots,
/// with the actions that drive its flag.
pub open spec fn key_registered(ch: ControlHandler, k: Key, scancode: u32) -> bool {
    let m = ch.manager_of(ControlManagerType::Game);
    &&& k.press.manager == ControlManagerType::Game
    &&& k.release.manager == ControlManagerType::Game
    &&& k.press.event == key_pattern(true, scancode)
    &&& k.release.event == key_pattern(false, scancode)
    &&& k.press.idx < m.table(EventClass::KeyDown).len()
    &&& m.table(EventClass::KeyDown)[k.press.idx as int] == Some(
        ControlBinding {
            event: key_pattern(true, scancode),
            action: Action::SetFlag { flag: k.active_flag, value: true },
        },
    )
    &&& k.release.idx < m.table(EventClass::KeyUp).len()
    &&& m.table(EventClass::KeyUp)[k.release.idx as int] == Some(
        ControlBinding {
            event: key_pattern(false, scancode),
            action: Action::SetFlag { flag: k.active_flag, value: false },
        },
    )
    &&& ch.handle_valid(k.press)
    &&& ch.handle_valid(k.release)
}

/// None of the patterns the player binds has a live binding in the
/// registry: the four movement keys' down and up patterns and the mouse
/// motion pattern.
pub open spec fn player_patterns_free(m: crate::controls::ControlManager) -> bool {
    &&& !has_live(m.table(EventClass::KeyDown), key_pattern(true, SCANCODE_W))
    &&& !has_live(m.table(EventClass::KeyUp), key_pattern(false, SCANCODE_W))
    &&& !has_live(m.table(EventClass::KeyDown), key_pattern(true, SCANCODE_A))
    &&& !has_live(m.table(EventClass::KeyUp), key_pattern(false, SCANCODE_A))
    &&& !has_live(m.table(EventClass::KeyDown), key_pattern(true, SCANCODE_S))
    &&& !has_live(m.table(EventClass::KeyUp), key_pattern(false, SCANCODE_S))
    &&& !has_live(m.table(EventClass::KeyDown), key_pattern(true, SCANCODE_D))
    &&& !has_live(m.table(EventClass::KeyUp), key_pattern(false, SCANCODE_D))
    &&& !has_live(m.table(EventClass::MouseMotion), mouse_motion_pattern())
}

/// All five of the player's bindings stand registered in the game
/// registry: the four keys and the accumulating mouse-motion binding.
pub open spec fn actions_registered(ch: ControlHandler, a: PlayerActions) -> bool {
    let m = ch.manager_of(ControlManagerType::Game);
    &&& key_registered(ch, a.forward, SCANCODE_W)
    &&& key_registered(ch, a.left, SCANCODE_A)
    &&& key_registered(ch, a.backward, SCANCODE_S)
    &&& key_registered(ch, a.right, SCANCODE_D)
    &&& a.turn.handle.manager == ControlManagerType::Game
    &&& a.turn.handle.event == mouse_motion_pattern()
    &&& a.turn.handle.idx < m.table(EventClass::MouseMotion).len()
    &&& m.table(EventClass::MouseMotion)[a.turn.handle.idx as int] == Some(
        ControlBinding { event: mouse_motion_pattern(), action: Action::AccumulateMouse },
    )
    &&& ch.handle_valid(a.turn.handle)
}

impl PlayerActions {
    /// All four key flags index into a state with this many flags.
    pub open spec fn flags_wf(self, n_flags: int) -> bool {
        self.forward.active_flag < n_flags && self.left.active_flag < n_flags
            && self.backward.active_flag < n_flags && self.right.active_flag < n_flags
    }

    /// Register the standard movement keys and mouse look.  Succeeds
    /// exactly when none of the player's patterns has a live binding in
    /// the game registry; the patterns are checked up front, so on
    /// failure nothing at all was registered and the input state is
    /// untouched.
    #[verifier::rlimit(100)]
    #[verifier::spinoff_prover]
    pub fn new(control_handler: &mut ControlHandler, state: &mut InputState) -> (r: Result<
        PlayerActions,
        ControlError,
    >)
        ensures
            final(state)@.mouse_dx == old(state)@.mouse_dx,
            final(state)@.mouse_dy == old(state)@.mouse_dy,
            final(state)@.quit == old(state)@.quit,
            ((r is Ok) <==> player_patterns_free(
                old(control_handler).manager_of(ControlManagerType::Game),
            )),
            r is Err ==> r == Err::<PlayerActions, ControlError>(ControlError::DuplicateBinding)
                && *final(control_handler) == *old(control_handler) && final(state)@.flags == old(
                state,
            )@.flags,
            r matches Ok(a) ==> {
                &&& final(state)@.flags == old(state)@.flags.push(false).push(false).push(
                    false,
                ).push(false)
                &&& a.forward.active_flag == old(state)@.flags.len()
                &&& a.left.active_flag == old(state)@.flags.len() + 1
                &&& a.backward.active_flag == old(state)@.flags.len() + 2
                &&& a.right.active_flag == old(state)@.flags.len() + 3
                &&& a.flags_wf(final(state)@.flags.len() as int)
                &&& actions_registered(*final(control_handler), a)
                &&& final(control_handler).active_manager == old(control_handler).active_manager
            },
    {
        // check every pattern up front so that nothing is registered on a
        // duplicate
        let already_bound = {
            let m = &control_handler.game_manager;
            m.is_bound(key_down_event(SCANCODE_W)) || m.is_bound(key_up_event(SCANCODE_W))
                || m.is_bound(key_down_event(SCANCODE_A)) || m.is_bound(key_up_event(SCANCODE_A))
                || m.is_bound(key_down_event(SCANCODE_S)) || m.is_bound(key_up_event(SCANCODE_S))
                || m.is_bound(key_down_event(SCANCODE_D)) || m.is_bound(key_up_event(SCANCODE_D))
                || m.is_bound(
                Event::MouseMotion {
                    timestamp: 0,
                    window_id: 0,
                    which: 0,
                    mousestate: 0,
                    x: 0,
                    y: 0,
                    xrel: 0,
                    yrel: 0,
                },
            )
        };
        if already_bound {
            return Err(ControlError::DuplicateBinding);
        }
        proof {
            assert(player_patterns_free(
                old(control_handler).manager_of(ControlManagerType::Game),
            ));
        }
        let ghost kd0 = control_handler.game_manager.table(EventClass::KeyDown);
        let ghost ku0 = control_handler.game_manager.table(EventClass::KeyUp);
        let forward = match Key::new(control_handler, state, SCANCODE_W) {
            Ok(k) => k,
            Err(e) => {
                proof {
                    assert(false);
                }
                return Err(e);
            },
        };
        proof {
            let act_dn = Action::SetFlag { flag: forward.active_flag, value: true };
            let act_up = Action::SetFlag { flag: forward.active_flag, value: false };
            lemma_add_preserves_other(kd0, key_pattern(true, SCANCODE_W), act_dn, key_pattern(true, SCANCODE_A));
            lemma_add_preserves_other(kd0, key_pattern(true, SCANCODE_W), act_dn, key_pattern(true, SCANCODE_S));
            lemma_add_preserves_other(kd0, key_pattern(true, SCANCODE_W), act_dn, key_pattern(true, SCANCODE_D));
            lemma_add_preserves_other(ku0, key_pattern(false, SCANCODE_W), act_up, key_pattern(false, SCANCODE_A));
            lemma_add_preserves_other(ku0, key_pattern(false, SCANCODE_W), act_up, key_pattern(false, SCANCODE_S));
            lemma_add_preserves_other(ku0, key_pattern(false, SCANCODE_W), act_up, key_pattern(false, SCANCODE_D));
            lemma_add_effect_slot(kd0, key_pattern(true, SCANCODE_W), act_dn);
            lemma_add_effect_slot(ku0, key_pattern(false, SCANCODE_W), act_up);
        }
        let ghost kd1 = control_handler.game_manager.table(EventClass::KeyDown);
        let ghost ku1 = control_handler.game_manager.table(EventClass::KeyUp);
        let left = match Key::new(control_handler, state, SCANCODE_A) {
            Ok(k) => k,
            Err(e) => {
                proof {
                    assert(false);
                }
                return Err(e);
            },
        };
        proof {
            let act_dn = Action::SetFlag { flag: left.active_flag, value: true };
            let act_up = Action::SetFlag { flag: left.active_flag, value: false };
            lemma_add_preserves_other(kd1, key_pattern(true, SCANCODE_A), act_dn, key_pattern(true, SCANCODE_S));
            lemma_add_preserves_other(kd1, key_pattern(true, SCANCODE_A), act_dn, key_pattern(true, SCANCODE_D));
            lemma_add_preserves_other(ku1, key_pattern(false, SCANCODE_A), act_up, key_pattern(false, SCANCODE_S));
            lemma_add_preserves_other(ku1, key_pattern(false, SCANCODE_A), act_up, key_pattern(false, SCANCODE_D));
            lemma_add_effect_slot(kd1, key_pattern(true, SCANCODE_A), act_dn);
            lemma_add_effect_slot(ku1, key_pattern(false, SCANCODE_A), act_up);
            lemma_add_preserves_slot(kd1, key_pattern(true, SCANCODE_A), act_dn, forward.press.idx as int);
            lemma_add_preserves_slot(ku1, key_pattern(false, SCANCODE_A), act_up, forward.release.idx as int);
        }
        let ghost kd2 = control_handler.game_manager.table(EventClass::KeyDown);
        let ghost ku2 = control_handler.game_manager.table(EventClass::KeyUp);
        let backward = match Key::new(control_handler, state, SCANCODE_S) {
            Ok(k) => k,
            Err(e) => {
                proof {
                    assert(false);
                }
                return Err(e);
            },
        };
        proof {
            let act_dn = Action::SetFlag { flag: backward.active_flag, value: true };
            let act_up = Action::SetFlag { flag: backward.active_flag, value: false };
            lemma_add_preserves_other(kd2, key_pattern(true, SCANCODE_S), act_dn, key_pattern(true, SCANCODE_D));
            lemma_add_preserves_other(ku2, key_pattern(false, SCANCODE_S), act_up, key_pattern(false, SCANCODE_D));
            lemma_add_effect_slot(kd2, key_pattern(true, SCANCODE_S), act_dn);
            lemma_add_effect_slot(ku2, key_pattern(false, SCANCODE_S), act_up);
            lemma_add_preserves_slot(kd2, key_pattern(true, SCANCODE_S), act_dn, forward.press.idx as int);
            lemma_add_preserves_slot(ku2, key_pattern(false, SCANCODE_S), act_up, forward.release.idx as int);
            lemma_add_preserves_slot(kd2, key_pattern(true, SCANCODE_S), act_dn, left.press.idx as int);
            lemma_add_preserves_slot(ku2, key_pattern(false, SCANCODE_S), act_up, left.release.idx as int);
        }
        let ghost kd3 = control_handler.game_manager.table(EventClass::KeyDown);
        let ghost ku3 = control_handler.game_manager.table(EventClass::KeyUp);
        let right = match Key::new(control_handler, state, SCANCODE_D) {
            Ok(k) => k,
            Err(e) => {
                proof {
                    assert(false);
                }
                return Err(e);
            },
        };
        proof {
            let act_dn = Action::SetFlag { flag: right.active_flag, value: true };
            let act_up = Action::SetFlag { flag: right.active_flag, value: false };
            lemma_add_effect_slot(kd3, key_pattern(true, SCANCODE_D), act_dn);
            lemma_add_effect_slot(ku3, key_pattern(false, SCANCODE_D), act_up);
            lemma_add_preserves_slot(kd3, key_pattern(true, SCANCODE_D), act_dn, forward.press.idx as int);
            lemma_add_preserves_slot(ku3, key_pattern(false, SCANCODE_D), act_up, forward.release.idx as int);
            lemma_add_preserves_slot(kd3, key_pattern(true, SCANCODE_D), act_dn, left.press.idx as int);
            lemma_add_preserves_slot(ku3, key_pattern(false, SCANCODE_D), act_up, left.release.idx as int);
            lemma_add_preserves_slot(kd3, key_pattern(true, SCANCODE_D), act_dn, backward.press.idx as int);
            lemma_add_preserves_slot(ku3, key_pattern(false, SCANCODE_D), act_up, backward.release.idx as int);
        }
        let ghost mm4 = control_handler.game_manager.table(EventClass::MouseMotion);
        let turn = match MouseMotion::new(control_handler) {
            Ok(m) => m,
            Err(e) => {
                proof {
                    assert(false);
                }
                return Err(e);
            },
        };
        proof {
            lemma_add_effect_slot(mm4, mouse_motion_pattern(), Action::AccumulateMouse);
        }
        Ok(PlayerActions { forward, left, backward, right, turn })
    }
}

/// Whether a tile's geometry entry is non-empty (tile occupancy, the unit
/// of collision). (tile occupancy, the unit
/// of collision).
pub open spec fn occupied(map: TileGrid, gs: GeometrySet, tx: int, ty: int) -> bool {
    gs.geometries@[map.tiles@[ty]@[tx].geo_idx as int] is Some
}

/// The movement direction assembled from the held keys: the sum of the
/// unit vectors for forward, left, backward and right, before
/// normalization.
pub open spec fn move_dir_spec(dir: Vec2i, f: bool, l: bool, b: bool, r: bool) -> Vec2i {
    let v0 = Vec2i { x: 0, y: 0 };
    let v1 = if f {
        vadd(v0, dir)
    } else {
        v0
    };
    let v2 = if l {
        vadd(v1, vorth(dir, false))
    } else {
        v1
    };
    let v3 = if b {
        vsub(v2, dir)
    } else {
        v2
    };
    if r {
        vadd(v3, vorth(dir, true))
    } else {
        v3
    }
}

/// The corrected x position: movement along x alone is rejected (clamped
/// a small offset away from the boundary) when its destination tile,
/// holding the old y tile, is occupied or outside the grid.
pub open spec fn resolve_x_spec(
    map: TileGrid,
    gs: GeometrySet,
    mdx: int,
    old_x: int,
    old_y: int,
    new_x: int,
    px: int,
) -> int {
    let w = map.width as int;
    if mdx < 0 {
        if new_x < 0 || (new_x == old_x && old_x == 0) {
            if px < EPS {
                EPS as int
            } else {
                px
            }
        } else if (new_x != old_x && occupied(map, gs, new_x, old_y)) || (new_x == old_x
            && occupied(map, gs, old_x - 1, old_y) && px < old_x * FP + EPS) {
            old_x * FP + EPS
        } else {
            px
        }
    } else {
        if new_x >= w || (new_x == old_x && old_x == w - 1) {
            if px > w * FP - EPS {
                w * FP - EPS
            } else {
                px
            }
        } else if (new_x != old_x && occupied(map, gs, new_x, old_y)) || (new_x == old_x
            && occupied(map, gs, old_x + 1, old_y) && px > (old_x + 1) * FP - EPS) {
            (old_x + 1) * FP - EPS
        } else {
            px
        }
    }
}

/// The corrected y position, the mirror image of `resolve_x_spec`; the
/// destination row is checked against the old x tile.
pub open spec fn resolve_y_spec(
    map: TileGrid,
    gs: GeometrySet,
    mdy: int,
    old_x: int,
    old_y: int,
    new_y: int,
    py: int,
) -> int {
    let h = map.height as int;
    if mdy < 0 {
        if new_y < 0 || (new_y == old_y && old_y == 0) {
            if py < EPS {
                EPS as int
            } else {
                py
            }
        } else if (new_y != old_y && occupied(map, gs, old_x, new_y)) || (new_y == old_y
            && occupied(map, gs, old_x, old_y - 1) && py < old_y * FP + EPS) {
            old_y * FP + EPS
        } else {
            py
        }
    } else {
        if new_y >= h || (new_y == old_y && old_y == h - 1) {
            if py > h * FP - EPS {
                h * FP - EPS
            } else {
                py
            }
        } else if (new_y != old_y && occupied(map, gs, old_x, new_y)) || (new_y == old_y
            && occupied(map, gs, old_x, old_y + 1) && py > (old_y + 1) * FP - EPS) {
            (old_y + 1) * FP - EPS
        } else {
            py
        }
    }
}

/// The position the resolver produces: the candidate position after the
/// full displacement, corrected independently per axis.
pub open spec fn update_position_spec(
    map: TileGrid,
    gs: GeometrySet,
    pos: Vec2i,
    dir: Vec2i,
    f: bool,
    l: bool,
    b: bool,
    r: bool,
    speed: int,
    dt: int,
) -> Vec2i {
    let md = vnorm(move_dir_spec(dir, f, l, b, r));
    let s = qdiv(speed * dt, FP as int);
    let disp = vscale(md, s);
    let old_x = qdiv(pos.x, FP as int);
    let old_y = qdiv(pos.y, FP as int);
    let px = pos.x + disp.x;
    let py = pos.y + disp.y;
    let new_x = qdiv(px, FP as int);
    let new_y = qdiv(py, FP as int);
    Vec2i {
        x: resolve_x_spec(map, gs, md.x, old_x, old_y, new_x, px),
        y: resolve_y_spec(map, gs, md.y, old_x, old_y, new_y, py),
    }
}

/// Every tile's geometry index stays inside the geometry catalog.
pub open spec fn geo_indices_ok(map: TileGrid, gs: GeometrySet) -> bool {
    forall|i: int, j: int|
        0 <= i < map.height && 0 <= j < map.width ==> (#[trigger] map.tiles@[i]@[j]).geo_idx
            < gs.geometries@.len()
}

/// Correct this frame's x movement against tile occupancy and the grid
/// bounds, exactly as `resolve_x_spec` states it; the result stays
/// strictly inside the grid.
#[verifier::rlimit(100)]
#[verifier::spinoff_prover]
fn resolve_axis_x(
    map: &TileGrid,
    geo_set: &GeometrySet,
    mdx: i64,
    old_x: i64,
    old_y: i64,
    new_x: i64,
    px: i64,
) -> (r: i64)
    requires
        map.wf(),
        geo_indices_ok(*map, *geo_set),
        0 <= old_x < map.width,
        0 <= old_y < map.height,
        new_x == qdiv(px as int, FP as int),
        old_x * FP - 0x8000 <= px,
        px < (map.width + 1) * FP,
        mdx < 0 ==> px < (old_x + 1) * FP,
        mdx >= 0 ==> 0 < px,
    ensures
        r == resolve_x_spec(*map, *geo_set, mdx as int, old_x as int, old_y as int, new_x as int, px as int),
        0 < r < map.width * FP,
{
    proof {
        lemma_qdiv_bounds(px as int, FP as int);
        if px >= 0 {
            lemma_fundamental_div_mod(px as int, FP as int);
            lemma_mod_division_less_than_divisor(px as int, FP as int);
            if mdx < 0 {
                lemma_multiply_divide_lt(px as int, FP as int, old_x as int + 1);
                assert((FP as int) * (old_x as int + 1) == (old_x as int + 1) * (FP as int))
                    by (nonlinear_arith);
            }
            assert((FP as int) * (map.width as int + 1) == (map.width as int + 1) * (FP as int))
                by (nonlinear_arith);
            lemma_multiply_divide_lt(px as int, FP as int, map.width as int + 1);
            assert((FP as int) * (new_x as int) == (new_x as int) * (FP as int))
                by (nonlinear_arith);
        }
        assert((old_x as int) * (FP as int) <= (map.width as int - 1) * (FP as int)
            && (old_x as int + 1) * (FP as int) <= (map.width as int) * (FP as int)
            && 0x1_0000int <= (old_x as int + 1) * (FP as int)) by (nonlinear_arith)
            requires 0 <= old_x <= map.width as int - 1, FP == 0x1_0000;
        assert(map.width * FP == (map.width as int) * (FP as int)) by (nonlinear_arith);
    }
    if mdx < 0 {
        if new_x < 0 || (new_x == old_x && old_x == 0) {
            if px < EPS {
                EPS
            } else {
                px
            }
        } else if (new_x != old_x && geo_set.geometries[
            map.tiles[old_y as usize][new_x as usize].geo_idx
        ].is_some()) || (new_x == old_x && geo_set.geometries[
            map.tiles[old_y as usize][(old_x - 1) as usize].geo_idx
        ].is_some() && px < old_x * FP + EPS) {
            old_x * FP + EPS
        } else {
            px
        }
    } else {
        if new_x >= map.width as i64 || (new_x == old_x && old_x == map.width as i64 - 1) {
            if px > map.width as i64 * FP - EPS {
                map.width as i64 * FP - EPS
            } else {
                px
            }
        } else if (new_x != old_x && geo_set.geometries[
            map.tiles[old_y as usize][new_x as usize].geo_idx
        ].is_some()) || (new_x == old_x && geo_set.geometries[
            map.tiles[old_y as usize][(old_x + 1) as usize].geo_idx
        ].is_some() && px > (old_x + 1) * FP - EPS) {
            (old_x + 1) * FP - EPS
        } else {
            px
        }
    }
}

/// Correct this frame's y movement, the mirror image of
/// `resolve_axis_x`; the destination row is checked against the old x
/// tile.
#[verifier::rlimit(100)]
#[verifier::spinoff_prover]
fn resolve_axis_y(
    map: &TileGrid,
    geo_set: &GeometrySet,
    mdy: i64,
    old_x: i64,
    old_y: i64,
    new_y: i64,
    py: i64,
) -> (r: i64)
    requires
        map.wf(),
        geo_indices_ok(*map, *geo_set),
        0 <= old_x < map.width,
        0 <= old_y < map.height,
        new_y == qdiv(py as int, FP as int),
        old_y * FP - 0x8000 <= py,
        py < (map.height + 1) * FP,
        mdy < 0 ==> py < (old_y + 1) * FP,
        mdy >= 0 ==> 0 < py,
    ensures
        r == resolve_y_spec(*map, *geo_set, mdy as int, old_x as int, old_y as int, new_y as int, py as int),
        0 < r < map.height * FP,
{
    proof {
        lemma_qdiv_bounds(py as int, FP as int);
        if py >= 0 {
            lemma_fundamental_div_mod(py as int, FP as int);
            lemma_mod_division_less_than_divisor(py as int, FP as int);
            if mdy < 0 {
                lemma_multiply_divide_lt(py as int, FP as int, old_y as int + 1);
                assert((FP as int) * (old_y as int + 1) == (old_y as int + 1) * (FP as int))
                    by (nonlinear_arith);
            }
            assert((FP as int) * (map.height as int + 1) == (map.height as int + 1) * (FP as int))
                by (nonlinear_arith);
            lemma_multiply_divide_lt(py as int, FP as int, map.height as int + 1);
            assert((FP as int) * (new_y as int) == (new_y as int) * (FP as int))
                by (nonlinear_arith);
        }
        assert((old_y as int) * (FP as int) <= (map.height as int - 1) * (FP as int)
            && (old_y as int + 1) * (FP as int) <= (map.height as int) * (FP as int)
            && 0x1_0000int <= (old_y as int + 1) * (FP as int)) by (nonlinear_arith)
            requires 0 <= old_y <= map.height as int - 1, FP == 0x1_0000;
        assert(map.height * FP == (map.height as int) * (FP as int)) by (nonlinear_arith);
    }
    if mdy < 0 {
        if new_y < 0 || (new_y == old_y && old_y == 0) {
            if py < EPS {
                EPS
            } else {
                py
            }
        } else if (new_y != old_y && geo_set.geometries[
            map.tiles[new_y as usize][old_x as usize].geo_idx
        ].is_some()) || (new_y == old_y && geo_set.geometries[
            map.tiles[(old_y - 1) as usize][old_x as usize].geo_idx
        ].is_some() && py < old_y * FP + EPS) {
            old_y * FP + EPS
        } else {
            py
        }
    } else {
        if new_y >= map.height as i64 || (new_y == old_y && old_y == map.height as i64 - 1) {
            if py > map.height as i64 * FP - EPS {
                map.height as i64 * FP - EPS
            } else {
                py
            }
        } else if (new_y != old_y && geo_set.geometries[
            map.tiles[new_y as usize][old_x as usize].geo_idx
        ].is_some()) || (new_y == old_y && geo_set.geometries[
            map.tiles[(old_y + 1) as usize][old_x as usize].geo_idx
        ].is_some() && py > (old_y + 1) * FP - EPS) {
            (old_y + 1) * FP - EPS
        } else {
            py
        }
    }
}

/// The player: pose, speeds and the bindings that drive them.
#[derive(Debug)]
pub struct Player {
    pub position: Vec2,
    pub direction: Vec2,
    pub move_speed: i64,
    pub turn_speed: i64,
    pub actions: PlayerActions,
}

impl Player {
    /// A player at a spawn pose, with the standard bindings registered.
    /// Succeeds exactly when none of the player's patterns has a live
    /// binding in the game registry; on failure nothing was registered
    /// and the input state is untouched.
    pub fn new(
        spawn_pos: Vec2,
        direction: Vec2,
        control_handler: &mut ControlHandler,
        state: &mut InputState,
    ) -> (r: Result<Player, ControlError>)
        ensures
            final(state)@.mouse_dx == old(state)@.mouse_dx,
            final(state)@.mouse_dy == old(state)@.mouse_dy,
            final(state)@.quit == old(state)@.quit,
            ((r is Ok) <==> player_patterns_free(
                old(control_handler).manager_of(ControlManagerType::Game),
            )),
            r is Err ==> r == Err::<Player, ControlError>(ControlError::DuplicateBinding)
                && *final(control_handler) == *old(control_handler) && final(state)@.flags == old(
                state,
            )@.flags,
            r matches Ok(p) ==> {
                &&& p.position == spawn_pos
                &&& p.direction == direction
                &&& p.move_speed == MOVE_SPEED
                &&& p.turn_speed == TURN_SPEED
                &&& final(state)@.flags == old(state)@.flags.push(false).push(false).push(
                    false,
                ).push(false)
                &&& p.actions.flags_wf(final(state)@.flags.len() as int)
                &&& actions_registered(*final(control_handler), p.actions)
                &&& final(control_handler).active_manager == old(control_handler).active_manager
            },
    {
        let actions = match PlayerActions::new(control_handler, state) {
            Ok(a) => a,
            Err(e) => {
                return Err(e);
            },
        };
        Ok(
            Player {
                position: spawn_pos,
                direction,
                move_speed: MOVE_SPEED,
                turn_speed: TURN_SPEED,
                actions,
            },
        )
    }

    /// The angle (fixed-point radians) the accumulated mouse movement
    /// turns the player by this frame.
    pub fn turn_angle(&self, state: &InputState, dt: i64) -> (r: i64)
        requires
            -0x10_0000 <= state.mouse_dx <= 0x10_0000,
            0 <= dt <= FP,
            0 <= self.turn_speed <= FP,
        ensures
            r == state@.mouse_dx * qdiv(self.turn_speed * dt, FP as int),
    {
        proof {
            lemma_qdiv_bounds((self.turn_speed as int) * (dt as int), FP as int);
            assert(0 <= (self.turn_speed as int) * (dt as int) <= 0x1_0000int * (FP as int))
                by (nonlinear_arith)
                requires 0 <= self.turn_speed <= 0x1_0000, 0 <= dt <= 0x1_0000, FP == 0x1_0000;
            lemma_qdiv_scaled_bound((self.turn_speed as int) * (dt as int), FP as int, 0x1_0000int);
        }
        let per_count = div_q(mul_wide(self.turn_speed, dt), FP as i128);
        proof {
            assert(-0x100_0000_0000int <= (state.mouse_dx as int) * (per_count as int)
                <= 0x100_0000_0000int) by (nonlinear_arith)
                requires
                    -0x10_0000 <= state.mouse_dx <= 0x10_0000,
                    0 <= per_count <= 0x1_0000;
        }
        let r = mul_wide(state.mouse_dx, per_count as i64);
        r as i64
    }

    /// Turn the player: rotate the facing direction by the given rotation
    /// matrix (computed from this frame's turn angle), normalize it, and
    /// drain the accumulated mouse deltas.
    pub fn update_direction(&mut self, state: &mut InputState, rot: Mat2)
        requires
            bounded(old(self).direction@, 2 * FP),
            -FP <= rot.m00 <= FP,
            -FP <= rot.m01 <= FP,
            -FP <= rot.m10 <= FP,
            -FP <= rot.m11 <= FP,
        ensures
            final(self).direction@ == vnorm(mat_apply(rot, old(self).direction@)),
            bounded(final(self).direction@, 2 * FP),
            final(self).position == old(self).position,
            final(self).move_speed == old(self).move_speed,
            final(self).turn_speed == old(self).turn_speed,
            final(self).actions == old(self).actions,
            final(state)@.mouse_dx == 0,
            final(state)@.mouse_dy == 0,
            final(state)@.flags == old(state)@.flags,
            final(state)@.quit == old(state)@.quit,
    {
        proof {
            crate::vec2::lemma_product_bounds(
                self.direction@,
                Vec2i { x: rot.m00 as int, y: rot.m01 as int },
                2 * FP as int,
                FP as int,
            );
            crate::vec2::lemma_product_bounds(
                self.direction@,
                Vec2i { x: rot.m10 as int, y: rot.m11 as int },
                2 * FP as int,
                FP as int,
            );
            assert(2 * ((2 * FP as int) * (FP as int)) == 0x4_0000_0000int) by (nonlinear_arith)
                requires FP == 0x1_0000;
        }
        let mut d = rot.apply(self.direction);
        proof {
            lemma_qdiv_scaled_bound(
                (old(self).direction@.x) * (rot.m00 as int) + (old(self).direction@.y) * (rot.m01 as int),
                FP as int,
                0x4_0000int,
            );
            lemma_qdiv_scaled_bound(
                (old(self).direction@.x) * (rot.m10 as int) + (old(self).direction@.y) * (rot.m11 as int),
                FP as int,
                0x4_0000int,
            );
            assert(0x4_0000int * (FP as int) == 0x4_0000_0000int) by (nonlinear_arith)
                requires FP == 0x1_0000;
            lemma_vnorm_bounds(d@);
            crate::vec2::lemma_vlen_zero(d@);
        }
        d.normalize();
        self.direction = d;
        state.mouse_dx = 0;
        state.mouse_dy = 0;
    }

    /// Resolve this frame's movement: assemble the direction from the
    /// held keys, apply the displacement, and correct each axis
    /// independently against whole-tile occupancy and the grid bounds.
    /// The result is exactly `update_position_spec`, and the player always
    /// ends strictly inside the grid.
    #[verifier::rlimit(100)]
    #[verifier::spinoff_prover]
    pub fn update_position(
        &mut self,
        map: &TileGrid,
        geo_set: &GeometrySet,
        state: &InputState,
        dt: i64,
    )
        requires
            map.wf(),
            geo_indices_ok(*map, *geo_set),
            old(self).actions.flags_wf(state@.flags.len() as int),
            bounded(old(self).direction@, 2 * FP),
            0 < old(self).position.x < map.width * FP,
            0 < old(self).position.y < map.height * FP,
            0 <= old(self).move_speed * dt <= 0x8000 * 0x1_0000,
        ensures
            final(self).position@ == update_position_spec(
                *map,
                *geo_set,
                old(self).position@,
                old(self).direction@,
                state@.flags[old(self).actions.forward.active_flag as int],
                state@.flags[old(self).actions.left.active_flag as int],
                state@.flags[old(self).actions.backward.active_flag as int],
                state@.flags[old(self).actions.right.active_flag as int],
                old(self).move_speed as int,
                dt as int,
            ),
            0 < final(self).position.x < map.width * FP,
            0 < final(self).position.y < map.height * FP,
            final(self).direction == old(self).direction,
            final(self).move_speed == old(self).move_speed,
            final(self).turn_speed == old(self).turn_speed,
            final(self).actions == old(self).actions,
    {
        let f = self.actions.forward.active(state);
        let l = self.actions.left.active(state);
        let b = self.actions.backward.active(state);
        let r = self.actions.right.active(state);

        let mut move_direction = Vec2 { x: 0, y: 0 };
        if f {
            move_direction = move_direction.add(self.direction);
        }
        if l {
            move_direction = move_direction.add(self.direction.orthogonal(false));
        }
        if b {
            move_direction = move_direction.sub(self.direction);
        }
        if r {
            move_direction = move_direction.add(self.direction.orthogonal(true));
        }
        proof {
            lemma_component_le_len(move_direction@);
            lemma_vnorm_bounds(move_direction@);
            crate::vec2::lemma_vlen_zero(move_direction@);
        }
        move_direction.normalize();
        let ghost md = move_direction@;

        let speed = div_q(mul_wide(self.move_speed, dt), FP as i128) as i64;
        proof {
            lemma_qdiv_bounds((old(self).move_speed as int) * (dt as int), FP as int);
            assert(0x8000int * 0x1_0000int == 0x8000int * (FP as int)) by (nonlinear_arith)
                requires FP == 0x1_0000;
            lemma_qdiv_scaled_bound(
                (old(self).move_speed as int) * (dt as int),
                FP as int,
                0x8000int,
            );
            assert(-(0x8000int * (FP as int)) <= (md.x) * (speed as int) <= 0x8000int * (
            FP as int) && -(0x8000int * (FP as int)) <= (md.y) * (speed as int) <= 0x8000int * (
            FP as int)) by (nonlinear_arith)
                requires
                    -0x1_0000 <= md.x <= 0x1_0000,
                    -0x1_0000 <= md.y <= 0x1_0000,
                    0 <= speed <= 0x8000,
                    FP == 0x1_0000;
            lemma_qdiv_scaled_bound((md.x) * (speed as int), FP as int, 0x8000int);
            lemma_qdiv_scaled_bound((md.y) * (speed as int), FP as int, 0x8000int);
            // the displacement keeps the sign of the movement direction
            assert(md.x < 0 ==> (md.x) * (speed as int) <= 0) by (nonlinear_arith)
                requires 0 <= speed;
            assert(md.x >= 0 ==> (md.x) * (speed as int) >= 0) by (nonlinear_arith)
                requires 0 <= speed;
            assert(md.y < 0 ==> (md.y) * (speed as int) <= 0) by (nonlinear_arith)
                requires 0 <= speed;
            assert(md.y >= 0 ==> (md.y) * (speed as int) >= 0) by (nonlinear_arith)
                requires 0 <= speed;
            lemma_qdiv_bounds((md.x) * (speed as int), FP as int);
            lemma_qdiv_bounds((md.y) * (speed as int), FP as int);
        }
        let disp = move_direction.scaled(speed);

        let old_x = div_q(self.position.x as i128, FP as i128) as i64;
        let old_y = div_q(self.position.y as i128, FP as i128) as i64;
        proof {
            lemma_multiply_divide_lt(old(self).position.x as int, FP as int, map.width as int);
            lemma_multiply_divide_lt(old(self).position.y as int, FP as int, map.height as int);
            assert(map.width * FP == (FP as int) * (map.width as int)) by (nonlinear_arith);
            assert(map.height * FP == (FP as int) * (map.height as int)) by (nonlinear_arith);
            lemma_qdiv_bounds(old(self).position.x as int, FP as int);
            lemma_qdiv_bounds(old(self).position.y as int, FP as int);
            lemma_fundamental_div_mod(old(self).position.x as int, FP as int);
            lemma_fundamental_div_mod(old(self).position.y as int, FP as int);
            lemma_mod_division_less_than_divisor(old(self).position.x as int, FP as int);
            lemma_mod_division_less_than_divisor(old(self).position.y as int, FP as int);
            assert((FP as int) * (old_x as int) == (old_x as int) * (FP as int))
                by (nonlinear_arith);
            assert((FP as int) * (old_y as int) == (old_y as int) * (FP as int))
                by (nonlinear_arith);
        }

        let px = self.position.x + disp.x;
        let py = self.position.y + disp.y;
        let new_x = div_q(px as i128, FP as i128) as i64;
        let new_y = div_q(py as i128, FP as i128) as i64;

        let rx = resolve_axis_x(map, geo_set, move_direction.x, old_x, old_y, new_x, px);
        let ry = resolve_axis_y(map, geo_set, move_direction.y, old_x, old_y, new_y, py);
        self.position = Vec2 { x: rx, y: ry };
    }

    /// Advance the player one frame: resolve movement from the held keys,
    /// then turn by the rotation matrix computed from this frame's mouse
    /// movement, draining the accumulated deltas.
    pub fn update(
        &mut self,
        map: &TileGrid,
        geo_set: &GeometrySet,
        state: &mut InputState,
        dt: i64,
        rot: Mat2,
    )
        requires
            map.wf(),
            geo_indices_ok(*map, *geo_set),
            old(self).actions.flags_wf(old(state)@.flags.len() as int),
            bounded(old(self).direction@, 2 * FP),
            0 < old(self).position.x < map.width * FP,
            0 < old(self).position.y < map.height * FP,
            0 <= old(self).move_speed * dt <= 0x8000 * 0x1_0000,
            -FP <= rot.m00 <= FP,
            -FP <= rot.m01 <= FP,
            -FP <= rot.m10 <= FP,
            -FP <= rot.m11 <= FP,
        ensures
            final(self).position@ == update_position_spec(
                *map,
                *geo_set,
                old(self).position@,
                old(self).direction@,
                old(state)@.flags[old(self).actions.forward.active_flag as int],
                old(state)@.flags[old(self).actions.left.active_flag as int],
                old(state)@.flags[old(self).actions.backward.active_flag as int],
                old(state)@.flags[old(self).actions.right.active_flag as int],
                old(self).move_speed as int,
                dt as int,
            ),
            final(self).direction@ == vnorm(mat_apply(rot, old(self).direction@)),
            0 < final(self).position.x < map.width * FP,
            0 < final(self).position.y < map.height * FP,
            final(state)@.mouse_dx == 0,
            final(state)@.mouse_dy == 0,
            final(state)@.flags == old(state)@.flags,
    {
        self.update_position(map, geo_set, state, dt);
        self.update_direction(state, rot);
    }
}

} // verus!

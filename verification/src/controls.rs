//! Event-to-behaviour binding: canonical event patterns, per-class slot
//! tables mapping patterns to actions, scoped handles, and dispatch.
//!
//! Events are plain values mirroring the host window system's input
//! events.  A raw event is canonicalized by stripping its non-identifying
//! fields (timestamps, window ids, repeat flags, absolute coordinates);
//! the canonical pattern is the binding key, and at most one live binding
//! per pattern exists in a table.

use vstd::prelude::*;

verus! {

/// An input event as polled from the host window system, as plain values:
/// key identifiers are scancodes, mouse state is a button bitmask.
#[derive(Clone, Copy, Debug, PartialEq, Eq, Structural)]
pub enum Event {
    Quit { timestamp: u32 },
    Window { timestamp: u32, window_id: u32, win_event: u8 },
    KeyDown { timestamp: u32, window_id: u32, scancode: Option<u32>, keymod: u16, repeat: bool },
    KeyUp { timestamp: u32, window_id: u32, scancode: Option<u32>, keymod: u16, repeat: bool },
    MouseMotion {
        timestamp: u32,
        window_id: u32,
        which: u32,
        mousestate: u32,
        x: i32,
        y: i32,
        xrel: i32,
        yrel: i32,
    },
    MouseButtonDown {
        timestamp: u32,
        window_id: u32,
        which: u32,
        mouse_btn: u8,
        clicks: u8,
        x: i32,
        y: i32,
    },
    MouseButtonUp {
        timestamp: u32,
        window_id: u32,
        which: u32,
        mouse_btn: u8,
        clicks: u8,
        x: i32,
        y: i32,
    },
    MouseWheel { timestamp: u32, window_id: u32, which: u32, x: i32, y: i32, direction: u32 },
    Unknown { timestamp: u32, kind: u32 },
}

/// The event classes that have a binding table.
#[derive(Clone, Copy, Debug, PartialEq, Eq, Structural)]
pub enum EventClass {
    Quit,
    Window,
    KeyDown,
    KeyUp,
    MouseMotion,
    MouseButtonDown,
    MouseButtonUp,
    MouseWheel,
}

/// The table class an event belongs to; `None` for an event no table
/// exists for.
pub open spec fn class_of_spec(e: Event) -> Option<EventClass> {
    match e {
        Event::Quit { .. } => Some(EventClass::Quit),
        Event::Window { .. } => Some(EventClass::Window),
        Event::KeyDown { .. } => Some(EventClass::KeyDown),
        Event::KeyUp { .. } => Some(EventClass::KeyUp),
        Event::MouseMotion { .. } => Some(EventClass::MouseMotion),
        Event::MouseButtonDown { .. } => Some(EventClass::MouseButtonDown),
        Event::MouseButtonUp { .. } => Some(EventClass::MouseButtonUp),
        Event::MouseWheel { .. } => Some(EventClass::MouseWheel),
        Event::Unknown { .. } => None,
    }
}

/// The canonical pattern of an event: only its class and identifying
/// payload survive; timestamps, window ids, key modifiers, repeat flags
/// and absolute coordinates are zeroed.
pub open spec fn canonical_spec(e: Event) -> Event {
    match e {
        Event::Quit { .. } => Event::Quit { timestamp: 0 },
        Event::Window { win_event, .. } => Event::Window {
            timestamp: 0,
            window_id: 0,
            win_event,
        },
        Event::KeyDown { scancode, .. } => Event::KeyDown {
            timestamp: 0,
            window_id: 0,
            scancode,
            keymod: 0,
            repeat: false,
        },
        Event::KeyUp { scancode, .. } => Event::KeyUp {
            timestamp: 0,
            window_id: 0,
            scancode,
            keymod: 0,
            repeat: false,
        },
        Event::MouseMotion { .. } => Event::MouseMotion {
            timestamp: 0,
            window_id: 0,
            which: 0,
            mousestate: 0,
            x: 0,
            y: 0,
            xrel: 0,
            yrel: 0,
        },
        Event::MouseButtonDown { mouse_btn, clicks, .. } => Event::MouseButtonDown {
            timestamp: 0,
            window_id: 0,
            which: 0,
            mouse_btn,
            clicks,
            x: 0,
            y: 0,
        },
        Event::MouseButtonUp { mouse_btn, clicks, .. } => Event::MouseButtonUp {
            timestamp: 0,
            window_id: 0,
            which: 0,
            mouse_btn,
            clicks,
            x: 0,
            y: 0,
        },
        Event::MouseWheel { direction, .. } => Event::MouseWheel {
            timestamp: 0,
            window_id: 0,
            which: 0,
            x: 0,
            y: 0,
            direction,
        },
        Event::Unknown { .. } => e,
    }
}

/// The table class an event belongs to.
pub fn class_of(event: &Event) -> (r: Option<EventClass>)
    ensures
        r == class_of_spec(*event),
{
    match *event {
        Event::Quit { .. } => Some(EventClass::Quit),
        Event::Window { .. } => Some(EventClass::Window),
        Event::KeyDown { .. } => Some(EventClass::KeyDown),
        Event::KeyUp { .. } => Some(EventClass::KeyUp),
        Event::MouseMotion { .. } => Some(EventClass::MouseMotion),
        Event::MouseButtonDown { .. } => Some(EventClass::MouseButtonDown),
        Event::MouseButtonUp { .. } => Some(EventClass::MouseButtonUp),
        Event::MouseWheel { .. } => Some(EventClass::MouseWheel),
        Event::Unknown { .. } => None,
    }
}

/// The canonical pattern of an event, or `None` for an event whose class
/// has no table.
pub fn canonicalize(event: &Event) -> (r: Option<Event>)
    ensures
        r matches Some(c) ==> c == canonical_spec(*event) && class_of_spec(*event) is Some,
        r is None <==> class_of_spec(*event) is None,
{
    match *event {
        Event::Quit { .. } => Some(Event::Quit { timestamp: 0 }),
        Event::Window { win_event, .. } => Some(
            Event::Window { timestamp: 0, window_id: 0, win_event },
        ),
        Event::KeyDown { scancode, .. } => Some(
            Event::KeyDown { timestamp: 0, window_id: 0, scancode, keymod: 0, repeat: false },
        ),
        Event::KeyUp { scancode, .. } => Some(
            Event::KeyUp { timestamp: 0, window_id: 0, scancode, keymod: 0, repeat: false },
        ),
        Event::MouseMotion { .. } => Some(
            Event::MouseMotion {
                timestamp: 0,
                window_id: 0,
                which: 0,
                mousestate: 0,
                x: 0,
                y: 0,
                xrel: 0,
                yrel: 0,
            },
        ),
        Event::MouseButtonDown { mouse_btn, clicks, .. } => Some(
            Event::MouseButtonDown {
                timestamp: 0,
                window_id: 0,
                which: 0,
                mouse_btn,
                clicks,
                x: 0,
                y: 0,
            },
        ),
        Event::MouseButtonUp { mouse_btn, clicks, .. } => Some(
            Event::MouseButtonUp {
                timestamp: 0,
                window_id: 0,
                which: 0,
                mouse_btn,
                clicks,
                x: 0,
                y: 0,
            },
        ),
        Event::MouseWheel { direction, .. } => Some(
            Event::MouseWheel { timestamp: 0, window_id: 0, which: 0, x: 0, y: 0, direction },
        ),
        Event::Unknown { .. } => None,
    }
}

/// Two events of the same logical kind: same class, same identifying
/// payload, in any combination of timestamps, window ids, key modifiers,
/// repeat flags and coordinates.
pub open spec fn same_identity(a: Event, b: Event) -> bool {
    match (a, b) {
        (Event::Quit { .. }, Event::Quit { .. }) => true,
        (Event::Window { win_event: w1, .. }, Event::Window { win_event: w2, .. }) => w1 == w2,
        (Event::KeyDown { scancode: s1, .. }, Event::KeyDown { scancode: s2, .. }) => s1 == s2,
        (Event::KeyUp { scancode: s1, .. }, Event::KeyUp { scancode: s2, .. }) => s1 == s2,
        (Event::MouseMotion { .. }, Event::MouseMotion { .. }) => true,
        (
            Event::MouseButtonDown { mouse_btn: b1, clicks: c1, .. },
            Event::MouseButtonDown { mouse_btn: b2, clicks: c2, .. },
        ) => b1 == b2 && c1 == c2,
        (
            Event::MouseButtonUp { mouse_btn: b1, clicks: c1, .. },
            Event::MouseButtonUp { mouse_btn: b2, clicks: c2, .. },
        ) => b1 == b2 && c1 == c2,
        (
            Event::MouseWheel { direction: d1, .. },
            Event::MouseWheel { direction: d2, .. },
        ) => d1 == d2,
        _ => false,
    }
}

/// Canonicalization ignores everything but the class and the identifying
/// payload: two raw events of the same logical kind always canonicalize
/// to the same pattern.
pub proof fn lemma_canonicalize_identity(a: Event, b: Event)
    requires
        same_identity(a, b),
    ensures
        canonical_spec(a) == canonical_spec(b),
        class_of_spec(a) == class_of_spec(b),
{
}

/// Canonicalization is idempotent: a canonical pattern is its own
/// canonical form, so patterns can be compared directly as binding keys.
pub proof fn lemma_canonical_idempotent(e: Event)
    ensures
        canonical_spec(canonical_spec(e)) == canonical_spec(e),
{
}

/// An action a binding can invoke, applied to the shared input state.
#[derive(Clone, Copy, Debug, PartialEq, Eq, Structural)]
pub enum Action {
    /// Set the flag with the given index (a key held/released marker).
    SetFlag { flag: usize, value: bool },
    /// Add a mouse-motion event's relative deltas to the accumulated
    /// counters.
    AccumulateMouse,
    /// Raise the quit flag.
    SetQuit,
}

/// The mathematical value of an `InputState`.
pub ghost struct InputStateV {
    pub flags: Seq<bool>,
    pub mouse_dx: int,
    pub mouse_dy: int,
    pub quit: bool,
}

/// Shared input state written by dispatched actions and read once per
/// frame: held-key flags, accumulated mouse deltas and the quit flag.
#[derive(Debug)]
pub struct InputState {
    pub flags: Vec<bool>,
    pub mouse_dx: i64,
    pub mouse_dy: i64,
    pub quit: bool,
}

impl View for InputState {
    type V = InputStateV;

    open spec fn view(&self) -> InputStateV {
        InputStateV {
            flags: self.flags@,
            mouse_dx: self.mouse_dx as int,
            mouse_dy: self.mouse_dy as int,
            quit: self.quit,
        }
    }
}

impl InputState {
    /// An input state with `n` cleared flags, zero mouse deltas and the
    /// quit flag down.
    pub fn new(n: usize) -> (r: InputState)
        ensures
            r@.flags.len() == n,
            forall|i: int| 0 <= i < n ==> !r@.flags[i],
            r@.mouse_dx == 0,
            r@.mouse_dy == 0,
            !r@.quit,
    {
        let mut flags: Vec<bool> = Vec::new();
        let mut i: usize = 0;
        while i < n
            invariant
                0 <= i <= n,
                flags@.len() == i,
                forall|k: int| 0 <= k < i ==> !flags@[k],
            decreases n - i,
        {
            flags.push(false);
            i += 1;
        }
        InputState { flags, mouse_dx: 0, mouse_dy: 0, quit: false }
    }
}

/// Addition clamped into the machine-word range.
pub open spec fn sat_add(a: int, b: int) -> int {
    if a + b > i64::MAX {
        i64::MAX as int
    } else if a + b < i64::MIN {
        i64::MIN as int
    } else {
        a + b
    }
}

/// What applying an action to the input state yields: flag writes land on
/// their slot (out-of-range slots are ignored), mouse deltas accumulate
/// saturatingly from a mouse-motion event's payload, and the quit action
/// raises the quit flag.
pub open spec fn apply_action_spec(a: Action, e: Event, st: InputStateV) -> InputStateV {
    match a {
        Action::SetFlag { flag, value } => if flag < st.flags.len() {
            InputStateV { flags: st.flags.update(flag as int, value), ..st }
        } else {
            st
        },
        Action::AccumulateMouse => match e {
            Event::MouseMotion { xrel, yrel, .. } => InputStateV {
                mouse_dx: sat_add(st.mouse_dx, xrel as int),
                mouse_dy: sat_add(st.mouse_dy, yrel as int),
                ..st
            },
            _ => st,
        },
        Action::SetQuit => InputStateV { quit: true, ..st },
    }
}

/// Saturating machine-word addition.
fn sat_add_exec(a: i64, b: i64) -> (r: i64)
    ensures
        r == sat_add(a as int, b as int),
{
    if b >= 0 {
        if a <= i64::MAX - b {
            a + b
        } else {
            i64::MAX
        }
    } else {
        if a >= i64::MIN - b {
            a + b
        } else {
            i64::MIN
        }
    }
}

/// Apply an action to the input state; the invoked action receives the
/// original (non-canonicalized) event.
pub fn apply_action(a: Action, event: &Event, state: &mut InputState)
    ensures
        final(state)@ == apply_action_spec(a, *event, old(state)@),
{
    match a {
        Action::SetFlag { flag, value } => {
            if flag < state.flags.len() {
                state.flags.set(flag, value);
            }
        },
        Action::AccumulateMouse => {
            match *event {
                Event::MouseMotion { xrel, yrel, .. } => {
                    state.mouse_dx = sat_add_exec(state.mouse_dx, xrel as i64);
                    state.mouse_dy = sat_add_exec(state.mouse_dy, yrel as i64);
                },
                _ => {},
            }
        },
        Action::SetQuit => {
            state.quit = true;
        },
    }
}

/// One live binding: a canonical event pattern and its action.
#[derive(Clone, Copy, Debug, PartialEq, Eq, Structural)]
pub struct ControlBinding {
    pub event: Event,
    pub action: Action,
}

/// A recoverable registration error, returned to the caller.
#[derive(Clone, Copy, Debug, PartialEq, Eq, Structural)]
pub enum ControlError {
    /// The event's class has no binding table.
    UnknownEventClass,
    /// A live binding already exists for the event's canonical pattern.
    DuplicateBinding,
}

impl ControlError {
    /// A short human-readable description of the error.
    pub fn message(&self) -> (r: String)
        ensures
            self is UnknownEventClass ==> r@ == "event unknown"@,
            self is DuplicateBinding ==> r@ == "a control is already bound to this event"@,
    {
        match self {
            ControlError::UnknownEventClass => String::from_str("event unknown"),
            ControlError::DuplicateBinding => String::from_str(
                "a control is already bound to this event",
            ),
        }
    }
}

/// Whether a table holds a live binding for a canonical pattern.
pub open spec fn has_live(tbl: Seq<Option<ControlBinding>>, pat: Event) -> bool {
    exists|i: int|
        0 <= i < tbl.len() && ((#[trigger] tbl[i]) matches Some(b) && b.event == pat)
}

/// The first tombstoned slot of a table, if any.
pub open spec fn first_free(tbl: Seq<Option<ControlBinding>>, i: int) -> Option<int>
    decreases tbl.len() - i,
    when 0 <= i
{
    if i >= tbl.len() {
        None
    } else if tbl[i] is None {
        Some(i)
    } else {
        first_free(tbl, i + 1)
    }
}

/// The first slot holding a live binding for a canonical pattern.
pub open spec fn find_binding(tbl: Seq<Option<ControlBinding>>, pat: Event, i: int) -> Option<int>
    decreases tbl.len() - i,
    when 0 <= i
{
    if i >= tbl.len() {
        None
    } else if tbl[i] matches Some(b) && b.event == pat {
        Some(i)
    } else {
        find_binding(tbl, pat, i + 1)
    }
}

/// What a successful registration does to a table: fill the first
/// tombstoned slot, or append a new one; the result pairs the new table
/// with the slot index.
pub open spec fn add_effect(tbl: Seq<Option<ControlBinding>>, pat: Event, action: Action) -> (
    Seq<Option<ControlBinding>>,
    int,
) {
    let b = ControlBinding { event: pat, action };
    match first_free(tbl, 0) {
        Option::Some(i) => (tbl.update(i, Some(b)), i),
        Option::None => (tbl.push(Some(b)), tbl.len() as int),
    }
}

/// Registering a pattern leaves the table with a live binding for it: a
/// second registration of the same pattern without destroying the first
/// fails the duplicate check.
pub proof fn lemma_duplicate_register(tbl: Seq<Option<ControlBinding>>, pat: Event, action: Action)
    ensures
        has_live(add_effect(tbl, pat, action).0, pat),
{
    let b = ControlBinding { event: pat, action };
    match first_free(tbl, 0) {
        Option::Some(i) => {
            lemma_first_free_props(tbl, 0);
            assert(tbl.update(i, Some(b))[i] == Some(b));
        },
        Option::None => {
            assert(tbl.push(Some(b))[tbl.len() as int] == Some(b));
        },
    }
}

/// A successful registration leaves its binding in the slot it returns.
pub proof fn lemma_add_effect_slot(tbl: Seq<Option<ControlBinding>>, pat: Event, action: Action)
    ensures
        0 <= add_effect(tbl, pat, action).1 < add_effect(tbl, pat, action).0.len(),
        add_effect(tbl, pat, action).0[add_effect(tbl, pat, action).1] == Some(
            ControlBinding { event: pat, action },
        ),
        add_effect(tbl, pat, action).0.len() >= tbl.len(),
{
    lemma_first_free_props(tbl, 0);
}

/// The first tombstone, fully characterized: it is in range, empty, and
/// everything before it is live; with no tombstone every slot is live.
proof fn lemma_first_free_props(tbl: Seq<Option<ControlBinding>>, i: int)
    requires
        0 <= i,
    ensures
        first_free(tbl, i) matches Some(k) ==> i <= k < tbl.len() && tbl[k] is None && (forall|
            j: int,
        |
            i <= j < k ==> !((#[trigger] tbl[j]) is None)),
        first_free(tbl, i) is None ==> forall|j: int|
            i <= j < tbl.len() ==> !((#[trigger] tbl[j]) is None),
    decreases tbl.len() - i,
{
    if i < tbl.len() && !(tbl[i] is None) {
        lemma_first_free_props(tbl, i + 1);
    }
}

/// Destroying a registration's slot makes its pattern registrable again:
/// after adding a pattern to a table without one and emptying the slot the
/// add chose, no live binding for the pattern remains, so a subsequent
/// registration of the same pattern succeeds (and can reuse the slot).
pub proof fn lemma_register_after_remove(
    tbl0: Seq<Option<ControlBinding>>,
    pat: Event,
    action: Action,
)
    requires
        !has_live(tbl0, pat),
    ensures
        !has_live(add_effect(tbl0, pat, action).0.update(add_effect(tbl0, pat, action).1, None), pat),
{
    let tbl1 = add_effect(tbl0, pat, action).0;
    let i = add_effect(tbl0, pat, action).1;
    let tbl2 = tbl1.update(i, None);
    lemma_first_free_props(tbl0, 0);
    assert forall|j: int|
        0 <= j < tbl2.len() implies !((#[trigger] tbl2[j]) matches Some(bb) && bb.event == pat) by {
        if j != i {
            assert(tbl2[j] == tbl0[j]);
            assert(!(tbl0[j] matches Some(bb) && bb.event == pat));
        }
    }
}

/// At most one live binding per canonical pattern: any two distinct live
/// slots hold different patterns.
pub open spec fn unique_patterns(tbl: Seq<Option<ControlBinding>>) -> bool {
    forall|i: int, j: int|
        0 <= i < j < tbl.len() && ((#[trigger] tbl[i]) matches Some(b1) && (#[trigger] tbl[j])
            matches Some(b2)) ==> tbl[i]->0.event != tbl[j]->0.event
}

/// A successful registration preserves the at-most-one-binding-per-pattern
/// invariant: the new binding's pattern had no live binding, and every
/// other slot is left alone.
pub proof fn lemma_add_preserves_unique(
    tbl: Seq<Option<ControlBinding>>,
    pat: Event,
    action: Action,
)
    requires
        unique_patterns(tbl),
        !has_live(tbl, pat),
    ensures
        unique_patterns(add_effect(tbl, pat, action).0),
{
    let tbl1 = add_effect(tbl, pat, action).0;
    let k = add_effect(tbl, pat, action).1;
    lemma_first_free_props(tbl, 0);
    assert forall|i: int, j: int|
        0 <= i < j < tbl1.len() && ((#[trigger] tbl1[i]) matches Some(b1) && (#[trigger] tbl1[j])
            matches Some(b2)) implies tbl1[i]->0.event != tbl1[j]->0.event by {
        if i != k && j != k {
            assert(tbl1[i] == tbl[i] && tbl1[j] == tbl[j]);
        } else if i == k {
            assert(tbl1[j] == tbl[j]);
            assert(!(tbl[j] matches Some(b) && b.event == pat));
        } else {
            assert(tbl1[i] == tbl[i]);
            assert(!(tbl[i] matches Some(b) && b.event == pat));
        }
    }
}

/// Tombstoning a slot preserves the at-most-one-binding-per-pattern
/// invariant.
pub proof fn lemma_remove_preserves_unique(tbl: Seq<Option<ControlBinding>>, k: int)
    requires
        unique_patterns(tbl),
        0 <= k < tbl.len(),
    ensures
        unique_patterns(tbl.update(k, None)),
{
    let tbl1 = tbl.update(k, None);
    assert forall|i: int, j: int|
        0 <= i < j < tbl1.len() && ((#[trigger] tbl1[i]) matches Some(b1) && (#[trigger] tbl1[j])
            matches Some(b2)) implies tbl1[i]->0.event != tbl1[j]->0.event by {
        assert(i != k && j != k);
        assert(tbl1[i] == tbl[i] && tbl1[j] == tbl[j]);
    }
}

/// Swapping a live binding's action in place (keeping its pattern)
/// preserves the at-most-one-binding-per-pattern invariant.
pub proof fn lemma_replace_preserves_unique(
    tbl: Seq<Option<ControlBinding>>,
    k: int,
    action: Action,
)
    requires
        unique_patterns(tbl),
        0 <= k < tbl.len(),
        tbl[k] is Some,
    ensures
        unique_patterns(tbl.update(k, Some(ControlBinding { event: tbl[k]->0.event, action }))),
{
    let tbl1 = tbl.update(k, Some(ControlBinding { event: tbl[k]->0.event, action }));
    assert forall|i: int, j: int|
        0 <= i < j < tbl1.len() && ((#[trigger] tbl1[i]) matches Some(b1) && (#[trigger] tbl1[j])
            matches Some(b2)) implies tbl1[i]->0.event != tbl1[j]->0.event by {
        if i != k && j != k {
            assert(tbl1[i] == tbl[i] && tbl1[j] == tbl[j]);
        } else if i == k {
            assert(tbl1[j] == tbl[j]);
            assert(tbl1[i]->0.event == tbl[i]->0.event);
        } else {
            assert(tbl1[i] == tbl[i]);
            assert(tbl1[j]->0.event == tbl[j]->0.event);
        }
    }
}

/// The first matching slot, fully characterized: a table has a live
/// binding for a pattern exactly when the scan finds one.
proof fn lemma_find_binding_props(tbl: Seq<Option<ControlBinding>>, pat: Event, i: int)
    requires
        0 <= i,
    ensures
        find_binding(tbl, pat, i) is None ==> forall|j: int|
            i <= j < tbl.len() ==> !((#[trigger] tbl[j]) matches Some(b) && b.event == pat),
    decreases tbl.len() - i,
{
    if i < tbl.len() && !(tbl[i] matches Some(b) && b.event == pat) {
        lemma_find_binding_props(tbl, pat, i + 1);
    }
}

/// Whether a table holds a live binding for a canonical pattern.
pub fn has_binding(tbl: &Vec<Option<ControlBinding>>, pat: Event) -> (r: bool)
    ensures
        r == has_live(tbl@, pat),
{
    match find_in_table(tbl, pat) {
        Some(k) => {
            proof {
                assert(tbl@[k as int] matches Some(b) && b.event == pat);
            }
            true
        },
        None => {
            proof {
                lemma_find_binding_props(tbl@, pat, 0);
            }
            false
        },
    }
}

/// A successful registration leaves every already-live slot untouched.
pub proof fn lemma_add_preserves_slot(
    tbl: Seq<Option<ControlBinding>>,
    pat: Event,
    action: Action,
    j: int,
)
    requires
        0 <= j < tbl.len(),
        tbl[j] is Some,
    ensures
        j < add_effect(tbl, pat, action).0.len(),
        add_effect(tbl, pat, action).0[j] == tbl[j],
{
    lemma_first_free_props(tbl, 0);
}

/// A successful registration changes no other pattern's liveness.
pub proof fn lemma_add_preserves_other(
    tbl: Seq<Option<ControlBinding>>,
    pat: Event,
    action: Action,
    pat2: Event,
)
    requires
        pat2 != pat,
    ensures
        has_live(add_effect(tbl, pat, action).0, pat2) == has_live(tbl, pat2),
{
    let tbl1 = add_effect(tbl, pat, action).0;
    let k = add_effect(tbl, pat, action).1;
    lemma_first_free_props(tbl, 0);
    if has_live(tbl, pat2) {
        let i = choose|i: int|
            0 <= i < tbl.len() && ((#[trigger] tbl[i]) matches Some(b) && b.event == pat2);
        assert(i != k);
        assert(tbl1[i] == tbl[i]);
        assert(tbl1[i] matches Some(b) && b.event == pat2);
    }
    if has_live(tbl1, pat2) {
        let i = choose|i: int|
            0 <= i < tbl1.len() && ((#[trigger] tbl1[i]) matches Some(b) && b.event == pat2);
        assert(i != k);
        assert(0 <= i < tbl.len());
        assert(tbl[i] == tbl1[i]);
        assert(tbl[i] matches Some(b) && b.event == pat2);
    }
}

/// Scan a table for a tombstone and a duplicate in one pass, then insert.
/// Fails exactly when a live binding for the pattern already exists.
fn add_in_table(
    tbl: &mut Vec<Option<ControlBinding>>,
    pat: Event,
    action: Action,
) -> (r: Result<usize, ControlError>)
    ensures
        has_live(old(tbl)@, pat) ==> r == Err::<usize, ControlError>(ControlError::DuplicateBinding)
            && final(tbl)@ == old(tbl)@,
        !has_live(old(tbl)@, pat) ==> (r matches Ok(idx) && (final(tbl)@, idx as int)
            == add_effect(old(tbl)@, pat, action)),
{
    let n = tbl.len();
    let mut free_spot: Option<usize> = None;
    let mut i: usize = 0;
    proof {
        lemma_first_free_props(tbl@, 0);
    }
    while i < n
        invariant
            0 <= i <= n,
            n == tbl@.len(),
            forall|j: int| 0 <= j < i ==> !((#[trigger] tbl@[j]) matches Some(b) && b.event == pat),
            match free_spot {
                Option::Some(k) => first_free(tbl@, 0) == Some(k as int) && k < i,
                Option::None => first_free(tbl@, 0) is None || (first_free(tbl@, 0) matches Some(k)
                    && k >= i),
            },
        decreases n - i,
    {
        match &tbl[i] {
            Some(b) => {
                if b.event == pat {
                    proof {
                        assert(tbl@[i as int] matches Some(bb) && bb.event == pat);
                    }
                    return Err(ControlError::DuplicateBinding);
                }
            },
            None => {
                if free_spot.is_none() {
                    proof {
                        lemma_first_free_props(tbl@, 0);
                        assert(first_free(tbl@, 0) == Some(i as int));
                    }
                    free_spot = Some(i);
                }
            },
        }
        proof {
            lemma_first_free_props(tbl@, 0);
        }
        i += 1;
    }
    proof {
        assert(!has_live(tbl@, pat));
        lemma_first_free_props(tbl@, 0);
    }
    let b = ControlBinding { event: pat, action };
    match free_spot {
        Some(idx) => {
            tbl.set(idx, Some(b));
            Ok(idx)
        },
        None => {
            proof {
                assert(first_free(tbl@, 0) is None);
            }
            tbl.push(Some(b));
            Ok(n)
        },
    }
}

/// The per-event-class binding tables.  Each table is a growable slot
/// array; a destroyed binding tombstones its slot so the index stays
/// reusable without shifting other handles.
#[derive(Debug)]
pub struct ControlManager {
    pub quit_controls: Vec<Option<ControlBinding>>,
    pub window_controls: Vec<Option<ControlBinding>>,
    pub keydown_controls: Vec<Option<ControlBinding>>,
    pub keyup_controls: Vec<Option<ControlBinding>>,
    pub mousemotion_controls: Vec<Option<ControlBinding>>,
    pub mousedown_controls: Vec<Option<ControlBinding>>,
    pub mouseup_controls: Vec<Option<ControlBinding>>,
    pub mousewheel_controls: Vec<Option<ControlBinding>>,
}

/// The first slot of a table whose live binding matches a pattern.
pub fn find_in_table(tbl: &Vec<Option<ControlBinding>>, pat: Event) -> (r: Option<usize>)
    ensures
        r matches Some(k) ==> find_binding(tbl@, pat, 0) == Some(k as int) && k < tbl@.len()
            && (tbl@[k as int] matches Some(b) && b.event == pat),
        r is None ==> find_binding(tbl@, pat, 0) is None,
{
    let n = tbl.len();
    let mut i: usize = 0;
    while i < n
        invariant
            0 <= i <= n,
            n == tbl@.len(),
            find_binding(tbl@, pat, 0) == find_binding(tbl@, pat, i as int),
        decreases n - i,
    {
        match &tbl[i] {
            Some(b) => {
                if b.event == pat {
                    return Some(i);
                }
            },
            None => {},
        }
        i += 1;
    }
    None
}

impl ControlManager {
    /// The binding table of an event class.
    pub open spec fn table(self, c: EventClass) -> Seq<Option<ControlBinding>> {
        match c {
            EventClass::Quit => self.quit_controls@,
            EventClass::Window => self.window_controls@,
            EventClass::KeyDown => self.keydown_controls@,
            EventClass::KeyUp => self.keyup_controls@,
            EventClass::MouseMotion => self.mousemotion_controls@,
            EventClass::MouseButtonDown => self.mousedown_controls@,
            EventClass::MouseButtonUp => self.mouseup_controls@,
            EventClass::MouseWheel => self.mousewheel_controls@,
        }
    }

    /// A manager with every table empty.
    pub fn new() -> (r: ControlManager)
        ensures
            forall|c: EventClass| (#[trigger] r.table(c)).len() == 0,
    {
        ControlManager {
            quit_controls: Vec::new(),
            window_controls: Vec::new(),
            keydown_controls: Vec::new(),
            keyup_controls: Vec::new(),
            mousemotion_controls: Vec::new(),
            mousedown_controls: Vec::new(),
            mouseup_controls: Vec::new(),
            mousewheel_controls: Vec::new(),
        }
    }

    /// Whether a live binding exists for an event's canonical pattern
    /// (always false for an event whose class has no table).  A caller
    /// may test this before registering instead of handling
    /// `DuplicateBinding`.
    pub fn is_bound(&self, event: Event) -> (r: bool)
        ensures
            class_of_spec(event) matches Some(c) ==> r == has_live(
                self.table(c),
                canonical_spec(event),
            ),
            class_of_spec(event) is None ==> r == false,
    {
        let pat = match canonicalize(&event) {
            Some(p) => p,
            None => {
                return false;
            },
        };
        match event {
            Event::Quit { .. } => has_binding(&self.quit_controls, pat),
            Event::Window { .. } => has_binding(&self.window_controls, pat),
            Event::KeyDown { .. } => has_binding(&self.keydown_controls, pat),
            Event::KeyUp { .. } => has_binding(&self.keyup_controls, pat),
            Event::MouseMotion { .. } => has_binding(&self.mousemotion_controls, pat),
            Event::MouseButtonDown { .. } => has_binding(&self.mousedown_controls, pat),
            Event::MouseButtonUp { .. } => has_binding(&self.mouseup_controls, pat),
            Event::MouseWheel { .. } => has_binding(&self.mousewheel_controls, pat),
            Event::Unknown { .. } => false,
        }
    }

    /// Register an action under an event's canonical pattern.  Fails with
    /// `UnknownEventClass` when the event's class has no table and with
    /// `DuplicateBinding` when a live binding for the pattern exists;
    /// otherwise the binding fills the first tombstoned slot, or a new
    /// one, whose index is returned.
    pub fn add_control(&mut self, event: Event, action: Action) -> (r: Result<
        usize,
        ControlError,
    >)
        ensures
            class_of_spec(event) is None ==> r == Err::<usize, ControlError>(
                ControlError::UnknownEventClass,
            ) && (forall|c2: EventClass|
                #[trigger] final(self).table(c2) == old(self).table(c2)),
            class_of_spec(event) matches Some(c) ==> {
                let pat = canonical_spec(event);
                &&& (has_live(old(self).table(c), pat) ==> r == Err::<usize, ControlError>(
                    ControlError::DuplicateBinding,
                ) && final(self).table(c) == old(self).table(c))
                &&& (!has_live(old(self).table(c), pat) ==> (r matches Ok(idx) && (
                final(self).table(c),
                idx as int,
                ) == add_effect(old(self).table(c), pat, action)))
                &&& (forall|c2: EventClass|
                    c2 != c ==> #[trigger] final(self).table(c2) == old(self).table(c2))
            },
    {
        let pat = match canonicalize(&event) {
            Some(p) => p,
            None => {
                return Err(ControlError::UnknownEventClass);
            },
        };
        match event {
            Event::Quit { .. } => add_in_table(&mut self.quit_controls, pat, action),
            Event::Window { .. } => add_in_table(&mut self.window_controls, pat, action),
            Event::KeyDown { .. } => add_in_table(&mut self.keydown_controls, pat, action),
            Event::KeyUp { .. } => add_in_table(&mut self.keyup_controls, pat, action),
            Event::MouseMotion { .. } => add_in_table(&mut self.mousemotion_controls, pat, action),
            Event::MouseButtonDown { .. } => add_in_table(&mut self.mousedown_controls, pat, action),
            Event::MouseButtonUp { .. } => add_in_table(&mut self.mouseup_controls, pat, action),
            Event::MouseWheel { .. } => add_in_table(&mut self.mousewheel_controls, pat, action),
            Event::Unknown { .. } => Err(ControlError::UnknownEventClass),
        }
    }

    /// Swap the action of a live binding in place; the slot keeps its
    /// pattern and is never observable as actionless.
    pub fn replace_control(&mut self, event: Event, idx: usize, action: Action)
        requires
            class_of_spec(event) matches Some(c) && idx < old(self).table(c).len() && (old(
                self,
            ).table(c)[idx as int] matches Some(b) && b.event == canonical_spec(event)),
        ensures
            class_of_spec(event) matches Some(c) ==> final(self).table(c) == old(self).table(
                c,
            ).update(
                idx as int,
                Some(ControlBinding { event: canonical_spec(event), action }),
            ) && (forall|c2: EventClass|
                c2 != c ==> #[trigger] final(self).table(c2) == old(self).table(c2)),
    {
        let pat = match canonicalize(&event) {
            Some(p) => p,
            None => {
                proof {
                    assert(false);
                }
                return ;
            },
        };
        let b = Some(ControlBinding { event: pat, action });
        match event {
            Event::Quit { .. } => self.quit_controls.set(idx, b),
            Event::Window { .. } => self.window_controls.set(idx, b),
            Event::KeyDown { .. } => self.keydown_controls.set(idx, b),
            Event::KeyUp { .. } => self.keyup_controls.set(idx, b),
            Event::MouseMotion { .. } => self.mousemotion_controls.set(idx, b),
            Event::MouseButtonDown { .. } => self.mousedown_controls.set(idx, b),
            Event::MouseButtonUp { .. } => self.mouseup_controls.set(idx, b),
            Event::MouseWheel { .. } => self.mousewheel_controls.set(idx, b),
            Event::Unknown { .. } => {},
        }
    }

    /// Unregister the binding in a slot, tombstoning it so the index is
    /// reusable.  The slot must hold a live binding.
    pub fn remove_control(&mut self, event: Event, idx: usize)
        requires
            class_of_spec(event) matches Some(c) && idx < old(self).table(c).len() && old(
                self,
            ).table(c)[idx as int] is Some,
        ensures
            class_of_spec(event) matches Some(c) ==> final(self).table(c) == old(self).table(
                c,
            ).update(idx as int, None) && (forall|c2: EventClass|
                c2 != c ==> #[trigger] final(self).table(c2) == old(self).table(c2)),
    {
        match event {
            Event::Quit { .. } => self.quit_controls.set(idx, None),
            Event::Window { .. } => self.window_controls.set(idx, None),
            Event::KeyDown { .. } => self.keydown_controls.set(idx, None),
            Event::KeyUp { .. } => self.keyup_controls.set(idx, None),
            Event::MouseMotion { .. } => self.mousemotion_controls.set(idx, None),
            Event::MouseButtonDown { .. } => self.mousedown_controls.set(idx, None),
            Event::MouseButtonUp { .. } => self.mouseup_controls.set(idx, None),
            Event::MouseWheel { .. } => self.mousewheel_controls.set(idx, None),
            Event::Unknown { .. } => {},
        }
    }

    /// What dispatching one raw event does to the input state: events
    /// without a table, and events whose canonical pattern has no live
    /// binding, are silently dropped; otherwise the bound action runs on
    /// the original event.
    pub open spec fn dispatch_one(self, e: Event, st: InputStateV) -> InputStateV {
        match class_of_spec(e) {
            Option::Some(c) => match find_binding(self.table(c), canonical_spec(e), 0) {
                Option::Some(i) => apply_action_spec(self.table(c)[i]->0.action, e, st),
                Option::None => st,
            },
            Option::None => st,
        }
    }

    /// The input state after dispatching the first `n` events in arrival
    /// order.
    pub open spec fn dispatch_upto(self, events: Seq<Event>, st: InputStateV, n: int) -> InputStateV
        decreases n,
    {
        if n <= 0 {
            st
        } else {
            self.dispatch_one(events[n - 1], self.dispatch_upto(events, st, n - 1))
        }
    }

    /// Dispatch a frame's raw events in arrival order: canonicalize each,
    /// find the at-most-one live binding matching it in its class table,
    /// and run that binding's action on the original event.
    pub fn call_loop(&self, events: &Vec<Event>, state: &mut InputState)
        ensures
            final(state)@ == self.dispatch_upto(events@, old(state)@, events@.len() as int),
    {
        let n = events.len();
        let mut k: usize = 0;
        while k < n
            invariant
                0 <= k <= n,
                n == events@.len(),
                state@ == self.dispatch_upto(events@, old(state)@, k as int),
            decreases n - k,
        {
            let event = events[k];
            match canonicalize(&event) {
                Some(pat) => {
                    let tbl: &Vec<Option<ControlBinding>> = match event {
                        Event::Quit { .. } => &self.quit_controls,
                        Event::Window { .. } => &self.window_controls,
                        Event::KeyDown { .. } => &self.keydown_controls,
                        Event::KeyUp { .. } => &self.keyup_controls,
                        Event::MouseMotion { .. } => &self.mousemotion_controls,
                        Event::MouseButtonDown { .. } => &self.mousedown_controls,
                        Event::MouseButtonUp { .. } => &self.mouseup_controls,
                        Event::MouseWheel { .. } => &self.mousewheel_controls,
                        Event::Unknown { .. } => &self.quit_controls,
                    };
                    match find_in_table(tbl, pat) {
                        Some(i) => {
                            let action = tbl[i].unwrap().action;
                            apply_action(action, &event, state);
                        },
                        None => {},
                    }
                },
                None => {},
            }
            k += 1;
        }
    }
}

/// Which of a handler's two registries a handle points into.
#[derive(Clone, Copy, Debug, PartialEq, Eq, Structural)]
pub enum ControlManagerType {
    Game,
    Menu,
}

/// A scoped capability for one registration: the registry it lives in,
/// its canonical event pattern and its slot index.  Passing it to
/// `remove` unregisters the binding exactly once.
#[derive(Clone, Copy, Debug)]
pub struct ControlHandle {
    pub manager: ControlManagerType,
    pub event: Event,
    pub idx: usize,
}

/// Two registries (game and menu contexts); dispatch goes only through
/// the active one.
#[derive(Debug)]
pub struct ControlHandler {
    pub game_manager: ControlManager,
    pub menu_manager: ControlManager,
    pub active_manager: ControlManagerType,
}

impl ControlHandler {
    /// The registry a handle or context name points into.
    pub open spec fn manager_of(self, t: ControlManagerType) -> ControlManager {
        match t {
            ControlManagerType::Game => self.game_manager,
            ControlManagerType::Menu => self.menu_manager,
        }
    }

    /// A handler with two empty registries, dispatching to the game one.
    pub fn new() -> (r: ControlHandler)
        ensures
            forall|t: ControlManagerType, c: EventClass|
                (#[trigger] r.manager_of(t).table(c)).len() == 0,
            r.active_manager == ControlManagerType::Game,
    {
        ControlHandler {
            game_manager: ControlManager::new(),
            menu_manager: ControlManager::new(),
            active_manager: ControlManagerType::Game,
        }
    }

    /// Dispatch a frame's raw events through the active registry.
    pub fn call_loop(&self, events: &Vec<Event>, state: &mut InputState)
        ensures
            final(state)@ == self.manager_of(self.active_manager).dispatch_upto(
                events@,
                old(state)@,
                events@.len() as int,
            ),
    {
        match self.active_manager {
            ControlManagerType::Game => self.game_manager.call_loop(events, state),
            ControlManagerType::Menu => self.menu_manager.call_loop(events, state),
        }
    }

    /// Register an action in one of the two registries, returning a
    /// handle pinned to the registry, the canonical pattern and the slot.
    pub fn add_control(
        &mut self,
        ctrl_manager_type: ControlManagerType,
        event: Event,
        action: Action,
    ) -> (r: Result<ControlHandle, ControlError>)
        ensures
            class_of_spec(event) is None ==> r == Err::<ControlHandle, ControlError>(
                ControlError::UnknownEventClass,
            ) && (forall|t2: ControlManagerType, c2: EventClass|
                #[trigger] final(self).manager_of(t2).table(c2) == old(self).manager_of(t2).table(
                    c2,
                )) && final(self).active_manager == old(self).active_manager,
            class_of_spec(event) matches Some(c) ==> {
                let pat = canonical_spec(event);
                let m0 = old(self).manager_of(ctrl_manager_type);
                &&& (has_live(m0.table(c), pat) ==> r == Err::<ControlHandle, ControlError>(
                    ControlError::DuplicateBinding,
                ) && final(self).manager_of(ctrl_manager_type).table(c) == m0.table(c))
                &&& (!has_live(m0.table(c), pat) ==> (r matches Ok(h) && h.manager
                    == ctrl_manager_type && h.event == pat && (
                final(self).manager_of(ctrl_manager_type).table(c),
                h.idx as int,
                ) == add_effect(m0.table(c), pat, action)))
                &&& (forall|c2: EventClass|
                    c2 != c ==> #[trigger] final(self).manager_of(ctrl_manager_type).table(c2)
                        == m0.table(c2))
                &&& (forall|t2: ControlManagerType, c2: EventClass|
                    t2 != ctrl_manager_type ==> #[trigger] final(self).manager_of(t2).table(c2)
                        == old(self).manager_of(t2).table(c2))
                &&& final(self).active_manager == old(self).active_manager
            },
    {
        let idx = match ctrl_manager_type {
            ControlManagerType::Game => self.game_manager.add_control(event, action),
            ControlManagerType::Menu => self.menu_manager.add_control(event, action),
        };
        match idx {
            Ok(idx) => {
                let pat = canonicalize(&event).unwrap();
                Ok(ControlHandle { manager: ctrl_manager_type, event: pat, idx })
            },
            Err(e) => Err(e),
        }
    }

    /// A handle points at a live binding for its own pattern.
    pub open spec fn handle_valid(self, h: ControlHandle) -> bool {
        let m = self.manager_of(h.manager);
        &&& class_of_spec(h.event) matches Some(c) && h.idx < m.table(c).len() && (m.table(
            c,
        )[h.idx as int] matches Some(b) && b.event == h.event)
        &&& canonical_spec(h.event) == h.event
    }
}

impl ControlHandle {
    /// Swap the action of this handle's binding in place.
    pub fn replace(&self, handler: &mut ControlHandler, action: Action)
        requires
            old(handler).handle_valid(*self),
        ensures
            final(handler).handle_valid(*self),
            class_of_spec(self.event) matches Some(c) ==> final(handler).manager_of(
                self.manager,
            ).table(c) == old(handler).manager_of(self.manager).table(c).update(
                self.idx as int,
                Some(ControlBinding { event: self.event, action }),
            ) && (forall|c2: EventClass|
                c2 != c ==> #[trigger] final(handler).manager_of(self.manager).table(c2) == old(
                    handler,
                ).manager_of(self.manager).table(c2)),
            forall|t2: ControlManagerType, c2: EventClass|
                t2 != self.manager ==> #[trigger] final(handler).manager_of(t2).table(c2) == old(
                    handler,
                ).manager_of(t2).table(c2),
            final(handler).active_manager == old(handler).active_manager,
    {
        match self.manager {
            ControlManagerType::Game => handler.game_manager.replace_control(
                self.event,
                self.idx,
                action,
            ),
            ControlManagerType::Menu => handler.menu_manager.replace_control(
                self.event,
                self.idx,
                action,
            ),
        }
    }

    /// Destroy this handle, unregistering its binding: the slot is
    /// tombstoned and its index becomes reusable.
    pub fn remove(self, handler: &mut ControlHandler)
        requires
            old(handler).handle_valid(self),
        ensures
            class_of_spec(self.event) matches Some(c) ==> final(handler).manager_of(
                self.manager,
            ).table(c) == old(handler).manager_of(self.manager).table(c).update(
                self.idx as int,
                None,
            ) && (forall|c2: EventClass|
                c2 != c ==> #[trigger] final(handler).manager_of(self.manager).table(c2) == old(
                    handler,
                ).manager_of(self.manager).table(c2)),
            forall|t2: ControlManagerType, c2: EventClass|
                t2 != self.manager ==> #[trigger] final(handler).manager_of(t2).table(c2) == old(
                    handler,
                ).manager_of(t2).table(c2),
            final(handler).active_manager == old(handler).active_manager,
    {
        match self.manager {
            ControlManagerType::Game => handler.game_manager.remove_control(self.event, self.idx),
            ControlManagerType::Menu => handler.menu_manager.remove_control(self.event, self.idx),
        }
    }
}

/// Every slot that existed before is untouched, and any slot the call
/// appended is a tombstone: the table holds exactly the live bindings it
/// held before.
pub open spec fn table_preserved(
    t1: Seq<Option<ControlBinding>>,
    t0: Seq<Option<ControlBinding>>,
) -> bool {
    t0.len() <= t1.len() && (forall|i: int| 0 <= i < t0.len() ==> t1[i] == t0[i]) && (forall|
        i: int,
    |
        t0.len() <= i < t1.len() ==> (#[trigger] t1[i]) is None)
}

/// Every table of every registry holds exactly the live bindings it held
/// before, and the active registry is unchanged.
pub open spec fn handler_preserved(h1: ControlHandler, h0: ControlHandler) -> bool {
    (forall|t: ControlManagerType, c: EventClass|
        table_preserved(#[trigger] h1.manager_of(t).table(c), h0.manager_of(t).table(c)))
        && h1.active_manager == h0.active_manager
}

/// Registering a binding and then tombstoning the slot it received leaves
/// the table with exactly its previous live bindings.
pub proof fn lemma_add_then_remove_preserves(
    tbl: Seq<Option<ControlBinding>>,
    pat: Event,
    action: Action,
)
    ensures
        table_preserved(
            add_effect(tbl, pat, action).0.update(add_effect(tbl, pat, action).1, None),
            tbl,
        ),
{
    let tbl1 = add_effect(tbl, pat, action).0;
    let k = add_effect(tbl, pat, action).1;
    let tbl2 = tbl1.update(k, None);
    lemma_first_free_props(tbl, 0);
    assert forall|i: int| 0 <= i < tbl.len() implies tbl2[i] == tbl[i] by {
        if i == k {
            assert(tbl[k] is None);
        }
    }
}

/// A preserved table keeps every unbound pattern unbound.
pub proof fn lemma_preserved_keeps_free(
    t1: Seq<Option<ControlBinding>>,
    t0: Seq<Option<ControlBinding>>,
    pat: Event,
)
    requires
        table_preserved(t1, t0),
        !has_live(t0, pat),
    ensures
        !has_live(t1, pat),
{
    assert forall|i: int|
        0 <= i < t1.len() implies !((#[trigger] t1[i]) matches Some(b) && b.event == pat) by {
        if i < t0.len() {
            assert(t1[i] == t0[i]);
            assert(!(t0[i] matches Some(b) && b.event == pat));
        }
    }
}

} // verus!

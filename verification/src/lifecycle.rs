//! The session lifecycle as a transition system, and the release law.
//!
//! The executable session (`Nui<T>`) encodes its lifecycle in move-only
//! typed states and an armed flag: `run` carries the release obligation
//! forward, a failed `run` hands it back, a contained callback panic
//! discharges it early (`note_released`), and `teardown` reports whether
//! the native release is still due.  This module states that lifecycle
//! abstractly, as a transition system over states and events, and proves
//! the law the armed flag exists for: across any complete lifecycle the
//! native resources are released exactly once.

use vstd::prelude::*;

verus! {

/// The abstract session state.
pub enum LifeState {
    /// No native resources held.
    Off,
    /// The native context is allocated and the session owes one release
    /// (`Nui<Initialized>`, armed).
    Inited,
    /// The session is running; `armed` is false once a contained
    /// callback panic has already forced the release.
    Running { armed: bool },
    /// The session value is gone.
    Done,
}

/// The events a session lifecycle is driven by.
pub enum LifeEvent {
    /// Initialization with a native success.
    InitOk,
    /// Initialization with a native failure.
    InitFail,
    /// A callback registration or camera configuration while
    /// initialized.
    Configure,
    /// Entering the running state with a native success.
    RunOk,
    /// A failed run: the armed initialized value is handed back.
    RunFail,
    /// One frame pull while running.
    Update,
    /// A user callback panicked during a live update; the panic is
    /// contained and the session forced to release at once.
    CallbackPanic,
    /// The session value is dropped; release is performed exactly if it
    /// is still owed.
    Teardown,
}

/// Which events are legal in which state.
pub open spec fn life_legal(s: LifeState, e: LifeEvent) -> bool {
    match (s, e) {
        (LifeState::Off, LifeEvent::InitOk) => true,
        (LifeState::Off, LifeEvent::InitFail) => true,
        (LifeState::Inited, LifeEvent::Configure) => true,
        (LifeState::Inited, LifeEvent::RunOk) => true,
        (LifeState::Inited, LifeEvent::RunFail) => true,
        (LifeState::Inited, LifeEvent::Teardown) => true,
        (LifeState::Running { .. }, LifeEvent::Update) => true,
        (LifeState::Running { .. }, LifeEvent::CallbackPanic) => true,
        (LifeState::Running { .. }, LifeEvent::Teardown) => true,
        _ => false,
    }
}

/// The state after an event.
pub open spec fn life_step(s: LifeState, e: LifeEvent) -> LifeState {
    match (s, e) {
        (LifeState::Off, LifeEvent::InitOk) => LifeState::Inited,
        (LifeState::Off, LifeEvent::InitFail) => LifeState::Off,
        (LifeState::Inited, LifeEvent::Configure) => LifeState::Inited,
        (LifeState::Inited, LifeEvent::RunOk) => LifeState::Running { armed: true },
        (LifeState::Inited, LifeEvent::RunFail) => LifeState::Inited,
        (LifeState::Inited, LifeEvent::Teardown) => LifeState::Done,
        (LifeState::Running { armed }, LifeEvent::Update) => LifeState::Running { armed },
        (LifeState::Running { .. }, LifeEvent::CallbackPanic) => LifeState::Running {
            armed: false,
        },
        (LifeState::Running { .. }, LifeEvent::Teardown) => LifeState::Done,
        _ => s,
    }
}

/// How many native releases the event performs in the given state.
pub open spec fn life_releases(s: LifeState, e: LifeEvent) -> nat {
    match (s, e) {
        (LifeState::Inited, LifeEvent::Teardown) => 1,
        (LifeState::Running { armed }, LifeEvent::CallbackPanic) => if armed {
            1
        } else {
            0
        },
        (LifeState::Running { armed }, LifeEvent::Teardown) => if armed {
            1
        } else {
            0
        },
        _ => 0,
    }
}

/// How many releases the state still owes.
pub open spec fn owed(s: LifeState) -> nat {
    match s {
        LifeState::Off => 0,
        LifeState::Inited => 1,
        LifeState::Running { armed } => if armed {
            1
        } else {
            0
        },
        LifeState::Done => 0,
    }
}

/// Whether a trace is legal from the given state.
pub open spec fn trace_legal(s: LifeState, t: Seq<LifeEvent>) -> bool
    decreases t.len(),
{
    t.len() == 0 || (life_legal(s, t[0]) && trace_legal(life_step(s, t[0]), t.skip(1)))
}

/// The state a trace ends in.
pub open spec fn trace_final(s: LifeState, t: Seq<LifeEvent>) -> LifeState
    decreases t.len(),
{
    if t.len() == 0 {
        s
    } else {
        trace_final(life_step(s, t[0]), t.skip(1))
    }
}

/// How many releases a trace performs in total.
pub open spec fn trace_releases(s: LifeState, t: Seq<LifeEvent>) -> nat
    decreases t.len(),
{
    if t.len() == 0 {
        0
    } else {
        life_releases(s, t[0]) + trace_releases(life_step(s, t[0]), t.skip(1))
    }
}

/// How many successful initializations a trace contains.
pub open spec fn count_init_ok(t: Seq<LifeEvent>) -> nat
    decreases t.len(),
{
    if t.len() == 0 {
        0nat
    } else {
        (if t[0] is InitOk {
            1nat
        } else {
            0nat
        }) + count_init_ok(t.skip(1))
    }
}

/// One legal step conserves release obligations: what it releases plus
/// what remains owed equals what was owed plus what it arms (a
/// successful initialization arms one obligation; nothing else does).
pub proof fn lemma_step_conserves(s: LifeState, e: LifeEvent)
    requires
        life_legal(s, e),
    ensures
        life_releases(s, e) + owed(life_step(s, e)) == owed(s) + (if e is InitOk {
            1nat
        } else {
            0nat
        }),
{
}

/// Obligation conservation along a whole legal trace: the releases
/// performed plus the releases still owed at the end equal the
/// obligations owed at the start plus those armed along the way.
pub proof fn lemma_trace_conserves(s: LifeState, t: Seq<LifeEvent>)
    requires
        trace_legal(s, t),
    ensures
        trace_releases(s, t) + owed(trace_final(s, t)) == owed(s) + count_init_ok(t),
    decreases t.len(),
{
    if t.len() != 0 {
        lemma_step_conserves(s, t[0]);
        lemma_trace_conserves(life_step(s, t[0]), t.skip(1));
    }
}

/// Away from `Off` no initialization can happen, and the lifecycle never
/// returns to `Off`.
pub proof fn lemma_no_reinit(s: LifeState, t: Seq<LifeEvent>)
    requires
        trace_legal(s, t),
        s !is Off,
    ensures
        count_init_ok(t) == 0,
    decreases t.len(),
{
    if t.len() != 0 {
        lemma_no_reinit(life_step(s, t[0]), t.skip(1));
    }
}

/// A complete lifecycle holds exactly one successful initialization:
/// repeated failed attempts may precede it, and after it the session
/// never returns to `Off`.
pub proof fn lemma_single_init(t: Seq<LifeEvent>)
    requires
        trace_legal(LifeState::Off, t),
        trace_final(LifeState::Off, t) is Done,
    ensures
        count_init_ok(t) == 1,
    decreases t.len(),
{
    assert(t.len() != 0);
    match t[0] {
        LifeEvent::InitOk => {
            lemma_no_reinit(LifeState::Inited, t.skip(1));
        },
        LifeEvent::InitFail => {
            lemma_single_init(t.skip(1));
        },
        _ => {},
    }
}

/// The release law: across any legal lifecycle that begins offline and
/// ends with the session gone — whatever configuration, failed runs,
/// updates and contained callback panics happen in between — the native
/// resources are released exactly once.
pub proof fn lemma_release_exactly_once(t: Seq<LifeEvent>)
    requires
        trace_legal(LifeState::Off, t),
        trace_final(LifeState::Off, t) is Done,
    ensures
        trace_releases(LifeState::Off, t) == 1,
{
    lemma_trace_conserves(LifeState::Off, t);
    lemma_single_init(t);
}

} // verus!

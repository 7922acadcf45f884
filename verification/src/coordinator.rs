//! The poll coordinator: which symbol is dispatched when, and when to sleep.
//!
//! The coordinator decides; the caller acts. Each call of
//! [`Coordinator::advance`] hands out the next action of an endless schedule:
//! within a tick one action per configured code, in the order given, then a
//! sleep of the configured interval, then the next tick. The schedule does
//! not depend on how an action went, so a failure for one symbol delays
//! neither the other symbols of the tick nor the next tick.

use vstd::prelude::*;
use crate::text::{split, split_on, views};

verus! {

/// How the cycles of one tick are run.
#[derive(Clone, Copy, Debug, PartialEq, Eq, Structural)]
pub enum Mode {
    /// One cycle at a time, each finished before the next begins.
    Sequential,
    /// One task per code, started and not waited for.
    Concurrent,
}

/// Where the coordinator stands.
#[derive(Clone, Copy, Debug, PartialEq, Eq, Structural)]
pub enum Phase {
    /// Nothing was dispatched yet.
    Idle,
    /// Tick `tick` is under way; `next` is the index of the code that is
    /// dispatched next.
    Dispatching { tick: u64, next: usize },
    /// Every code of tick `tick` was dispatched and the sleep was handed out.
    Sleeping { tick: u64 },
}

/// What the caller is to do next.
#[derive(Debug)]
pub enum Action {
    /// Run the cycle of this code, wait until it is done, and conclude it
    /// with `determine_stock_status`.
    Run { code: String },
    /// Start a task that runs the cycle of this code and do not wait for it;
    /// the cycles of the tasks that have finished are concluded with
    /// `async_determine_stock_status`.
    Launch { code: String },
    /// Sleep for this many seconds.
    Sleep { seconds: u64 },
}

/// An action as plain values.
pub enum ActionView {
    Run { code: Seq<char> },
    Launch { code: Seq<char> },
    Sleep { seconds: u64 },
}

impl View for Action {
    type V = ActionView;

    open spec fn view(&self) -> ActionView {
        match self {
            Action::Run { code } => ActionView::Run { code: code@ },
            Action::Launch { code } => ActionView::Launch { code: code@ },
            Action::Sleep { seconds } => ActionView::Sleep { seconds: *seconds },
        }
    }
}

/// The settings of a poller, as they are given on the command line.
#[derive(Debug)]
pub struct CLI {
    /// The codes to poll, separated by commas, each a symbol and, after a
    /// colon, an exchange.
    pub codes: String,
    /// The seconds between two ticks.
    pub interval: u64,
    /// Set: the cycles of a tick run one after the other. Not set: they run
    /// as tasks of their own.
    pub use_async: bool,
}

/// The coordinator of a poller.
#[derive(Debug)]
pub struct Coordinator {
    pub mode: Mode,
    pub codes: Vec<String>,
    pub interval: u64,
    pub phase: Phase,
}

/// A coordinator as plain values.
pub struct CoordinatorView {
    pub mode: Mode,
    pub codes: Seq<Seq<char>>,
    pub interval: u64,
    pub phase: Phase,
}

impl View for Coordinator {
    type V = CoordinatorView;

    open spec fn view(&self) -> CoordinatorView {
        CoordinatorView {
            mode: self.mode,
            codes: views(self.codes@),
            interval: self.interval,
            phase: self.phase,
        }
    }
}

/// The mode that the command-line switch selects.
pub open spec fn mode_of(use_async: bool) -> Mode {
    if use_async {
        Mode::Sequential
    } else {
        Mode::Concurrent
    }
}

/// The coordinator that a poller starts with.
pub open spec fn started(mode: Mode, codes: Seq<char>, interval: u64) -> CoordinatorView {
    CoordinatorView { mode, codes: split(codes, ','), interval, phase: Phase::Idle }
}

/// The action that dispatches a code in a mode.
pub open spec fn dispatch_of(mode: Mode, code: Seq<char>) -> ActionView {
    match mode {
        Mode::Sequential => ActionView::Run { code },
        Mode::Concurrent => ActionView::Launch { code },
    }
}

/// The tick after `tick`. The count stops at the largest number it can hold.
pub open spec fn tick_after(tick: u64) -> u64 {
    if tick < u64::MAX {
        (tick + 1) as u64
    } else {
        tick
    }
}

/// The tick and the index from which the coordinator goes on.
pub open spec fn position(phase: Phase) -> (u64, int) {
    match phase {
        Phase::Idle => (0, 0),
        Phase::Dispatching { tick, next } => (tick, next as int),
        Phase::Sleeping { tick } => (tick_after(tick), 0),
    }
}

/// The action that the coordinator hands out next.
pub open spec fn next_action(c: CoordinatorView) -> ActionView {
    let (tick, next) = position(c.phase);
    if next < c.codes.len() {
        dispatch_of(c.mode, c.codes[next])
    } else {
        ActionView::Sleep { seconds: c.interval }
    }
}

/// The phase in which the coordinator is once it has handed out its next
/// action.
pub open spec fn next_phase(c: CoordinatorView) -> Phase {
    let (tick, next) = position(c.phase);
    if next < c.codes.len() {
        Phase::Dispatching { tick, next: (next + 1) as usize }
    } else {
        Phase::Sleeping { tick }
    }
}

/// The coordinator once it has handed out its next action.
pub open spec fn advanced(c: CoordinatorView) -> CoordinatorView {
    CoordinatorView { phase: next_phase(c), ..c }
}

/// The coordinator once it has handed out `steps` actions.
pub open spec fn advanced_by(c: CoordinatorView, steps: nat) -> CoordinatorView
    decreases steps,
{
    if steps == 0 {
        c
    } else {
        advanced(advanced_by(c, (steps - 1) as nat))
    }
}

impl Coordinator {
    /// A coordinator that has dispatched nothing yet.
    pub fn new(mode: Mode, codes: &str, interval: u64) -> (coordinator: Coordinator)
        ensures
            coordinator@ == started(mode, codes@, interval),
    {
        Coordinator { mode, codes: split_on(codes, ','), interval, phase: Phase::Idle }
    }

    /// Hands out the next action and moves on.
    pub fn advance(&mut self) -> (action: Action)
        ensures
            action@ == next_action(old(self)@),
            final(self)@ == advanced(old(self)@),
    {
        let (tick, next): (u64, usize) = match self.phase {
            Phase::Idle => (0, 0),
            Phase::Dispatching { tick, next } => (tick, next),
            Phase::Sleeping { tick } => (if tick < u64::MAX { tick + 1 } else { tick }, 0),
        };
        if next < self.codes.len() {
            let code = self.codes[next].clone();
            self.phase = Phase::Dispatching { tick, next: next + 1 };
            match self.mode {
                Mode::Sequential => Action::Run { code },
                Mode::Concurrent => Action::Launch { code },
            }
        } else {
            self.phase = Phase::Sleeping { tick };
            Action::Sleep { seconds: self.interval }
        }
    }
}

/// The coordinator of the poller that the settings describe.
pub fn fetch_stock_price(args: CLI) -> (coordinator: Coordinator)
    ensures
        coordinator@ == started(mode_of(args.use_async), args.codes@, args.interval),
{
    match args.use_async {
        true => Coordinator::new(Mode::Sequential, args.codes.as_str(), args.interval),
        false => Coordinator::new(Mode::Concurrent, args.codes.as_str(), args.interval),
    }
}

/// A tick hands out every code once, in the order given, and then the sleep:
/// from the start and from every sleep, the next actions are the dispatches
/// of the codes, one by one, followed by a sleep of the interval, after which
/// the coordinator sleeps in the tick that follows.
pub proof fn lemma_tick_schedule(c: CoordinatorView, at: int)
    requires
        c.phase is Idle || c.phase is Sleeping,
        c.codes.len() <= usize::MAX,
        0 <= at <= c.codes.len(),
    ensures
        advanced_by(c, at as nat) == (CoordinatorView {
            phase: if at == 0 {
                c.phase
            } else {
                Phase::Dispatching { tick: position(c.phase).0, next: at as usize }
            },
            ..c
        }),
        at < c.codes.len() ==> next_action(advanced_by(c, at as nat)) == dispatch_of(
            c.mode,
            c.codes[at],
        ),
        at == c.codes.len() ==> next_action(advanced_by(c, at as nat)) == (ActionView::Sleep {
            seconds: c.interval,
        }),
        at == c.codes.len() ==> advanced_by(c, (at + 1) as nat) == (CoordinatorView {
            phase: Phase::Sleeping { tick: position(c.phase).0 },
            ..c
        }),
    decreases at,
{
    if at > 0 {
        lemma_tick_schedule(c, at - 1);
    }
    if at == c.codes.len() {
        assert(advanced_by(c, (at + 1) as nat) == advanced(advanced_by(c, at as nat)));
    }
}

} // verus!

//! The pace of a session: when the screen is drawn again, and what becomes of
//! the scans that feed it.
use crate::cli::Mode;
use vstd::prelude::*;

verus! {

/// How long the matcher may work on the candidates at a time, in milliseconds,
/// while more of them come in.
pub const TICK: u64 = 10;

/// What the matcher and the scan behind it report of one round.
#[derive(Clone, Copy, Debug, PartialEq, Eq, Structural)]
pub struct Tick {
    /// The scan has just ended.
    pub finished: bool,
    /// The matches changed.
    pub changed: bool,
    /// The matcher has more to do.
    pub running: bool,
    /// The scan is still feeding the list.
    pub busy: bool,
}

impl Tick {
    /// Whether the list may look different now.
    pub open spec fn moves(self) -> bool {
        self.finished || self.changed || self.running || self.busy
    }
}

/// How long the matcher may work in a round, in milliseconds.
pub open spec fn work_time(busy: bool) -> u64 {
    if busy {
        TICK
    } else {
        0
    }
}

/// How long the matcher may work in a round. A finished list needs no time,
/// and would only hold up the next key.
pub fn budget(busy: bool) -> (milliseconds: u64)
    ensures
        milliseconds == work_time(busy),
{
    if busy {
        TICK
    } else {
        0
    }
}

/// Whether the screen has to be drawn again.
#[derive(Clone, Copy, Debug, PartialEq, Eq, Structural)]
pub struct Pace {
    pub dirty: bool,
}

impl Pace {
    /// A session starts with something to draw.
    pub fn new() -> (pace: Pace)
        ensures
            pace.dirty,
    {
        Pace { dirty: true }
    }

    /// Takes in a round of the matcher.
    pub fn ticked(&mut self, tick: Tick)
        ensures
            *final(self) == old(self).after_tick(tick),
    {
        self.dirty = self.dirty || tick.finished || tick.changed || tick.running || tick.busy;
    }

    /// Takes in something that changes the screen: a notice that went, or
    /// anything the user did.
    pub fn touched(&mut self)
        ensures
            *final(self) == old(self).after_touch(),
    {
        self.dirty = true;
    }

    /// Whether to draw now. Nothing is drawn while events are waiting, so that
    /// a burst of them costs one redraw at its end.
    pub fn draws(&mut self, waiting: bool) -> (now: bool)
        ensures
            now == (old(self).dirty && !waiting),
            *final(self) == old(self).after_turn(waiting),
    {
        let now = self.dirty && !waiting;
        if now {
            self.dirty = false;
        }
        now
    }

    /// The pace after a round of the matcher.
    pub open spec fn after_tick(self, tick: Tick) -> Pace {
        Pace { dirty: self.dirty || tick.moves() }
    }

    /// The pace after something that changes the screen.
    pub open spec fn after_touch(self) -> Pace {
        Pace { dirty: true }
    }

    /// The pace after a turn to draw.
    pub open spec fn after_turn(self, waiting: bool) -> Pace {
        Pace { dirty: self.dirty && waiting }
    }

    /// The pace after a number of events that came while others were waiting,
    /// each with its turn to draw.
    pub open spec fn after_burst(self, events: nat) -> Pace
        decreases events,
    {
        if events == 0 {
            self
        } else {
            self.after_burst((events - 1) as nat).after_touch().after_turn(true)
        }
    }
}

/// Once drawn, a screen is not drawn again until something changes: rounds in
/// which nothing moves leave nothing to draw.
pub proof fn an_idle_session_draws_nothing(pace: Pace, tick: Tick, waiting: bool)
    requires
        !tick.moves(),
    ensures
        !pace.after_turn(false).dirty,
        pace.after_turn(false).after_tick(tick) == pace.after_turn(false),
        pace.after_turn(false).after_tick(tick).after_turn(waiting) == pace.after_turn(false),
{
}

/// A burst of events is drawn once, at its end, however long it is.
pub proof fn a_burst_is_drawn_once(pace: Pace, events: nat)
    requires
        events > 0,
    ensures
        pace.after_burst(events).dirty,
        !pace.after_burst(events).after_turn(false).dirty,
    decreases events,
{
}

/// Whether the browse order of a list is due.
pub open spec fn order_is_due(mode: Mode, ordered: bool, done: bool, listed: u32, found: u32) -> bool {
    !(mode is Recent) && !(mode is Favorites) && !ordered && done && listed == found
}

/// Whether the browse order of a list is due: once the scan has ended and
/// everything it found is in the list. Saved lists keep their own order.
pub fn order_due(mode: Mode, ordered: bool, done: bool, listed: u32, found: u32) -> (due: bool)
    ensures
        due == order_is_due(mode, ordered, done, listed, found),
{
    let saved = matches!(mode, Mode::Recent) || matches!(mode, Mode::Favorites);
    !saved && !ordered && done && listed == found
}

/// The error of a scan that ended.
pub open spec fn scan_fault(ended: Option<Result<(), String>>) -> Option<Seq<char>> {
    match ended {
        None => Some("scan thread panicked"@),
        Some(Ok(_)) => None,
        Some(Err(reason)) => Some(reason@),
    }
}

/// The error of a scan that ended: its own, or that it broke off without a
/// result.
pub fn scan_error(ended: Option<Result<(), String>>) -> (error: Option<String>)
    ensures
        crate::text::inside(error) == scan_fault(ended),
{
    match ended {
        None => Some("scan thread panicked".to_owned()),
        Some(Ok(_)) => None,
        Some(Err(reason)) => Some(reason),
    }
}

/// A list is put in browse order once, when its scan has ended and all that
/// was found is in it; the saved lists never are.
pub proof fn when_a_list_is_put_in_order(mode: Mode, listed: u32, found: u32)
    ensures
        !order_is_due(mode, true, true, listed, found),
        !order_is_due(mode, false, false, listed, found),
        listed != found ==> !order_is_due(mode, false, true, listed, found),
        !order_is_due(Mode::Recent, false, true, found, found),
        !order_is_due(Mode::Favorites, false, true, found, found),
        order_is_due(Mode::Dirs, false, true, found, found),
        order_is_due(Mode::Files, false, true, found, found),
{
}

/// A scan that ended well has no error, one that failed has its own, and one
/// that ended without a result is not taken for a good one.
pub proof fn a_scan_without_a_result_has_failed(reason: String)
    ensures
        scan_fault(Some(Ok(()))) is None,
        scan_fault(Some(Err(reason))) == Some(reason@),
        scan_fault(None) is Some,
        work_time(false) == 0,
        work_time(true) > 0,
{
}

} // verus!

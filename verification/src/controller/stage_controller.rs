//! The stage controller: holds the stage, the four actors and the
//! listeners, and settles which of several calls goes first.

use crate::actor::types::ActorBox;
use crate::controller::reducer::{
    blank_stage, event_applied, event_ok, handle_event, stage_blank, stays_in_round,
};
use crate::model::action::{Action, ActionType};
use crate::model::define::{Seat, SEAT};
use crate::model::event::Event;
use crate::model::stage::Stage;
use vstd::prelude::*;

verus! {

/// One who is told of every event once the stage has taken it in.
pub trait Listener {
    /// Takes note of the event; `stg` is the stage after the event.
    fn notify_event(&mut self, stg: &Stage, event: &Event);
}

/// A listener in a box, whatever its type.
pub struct ListenerBox(pub Box<dyn Listener>);

/// The stage with those who act on it and those who watch it.
pub struct StageController {
    pub stage: Stage,
    pub actors: [ActorBox; SEAT],
    pub listeners: Vec<ListenerBox>,
}

impl StageController {
    /// A controller of the given actors and listeners, with the stage
    /// before any round.
    pub fn new(actors: [ActorBox; SEAT], listeners: Vec<ListenerBox>) -> (c: StageController)
        ensures
            stage_blank(c.stage),
            c.actors == actors,
            c.listeners == listeners,
    {
        StageController { stage: blank_stage(), actors, listeners }
    }

    /// The stage.
    pub fn get_stage(&self) -> (r: &Stage)
        ensures
            *r == self.stage,
    {
        &self.stage
    }

    /// Applies the event to the stage, then tells every listener of it,
    /// in the order in which they were registered. The actors stay as
    /// they are; a listener may change in taking note.
    pub fn handle_event(&mut self, event: &Event)
        requires
            event_ok(old(self).stage, *event),
        ensures
            event_applied(old(self).stage, *event, final(self).stage),
            stays_in_round(old(self).stage, *event) ==> final(self).stage.wf(),
            final(self).actors == old(self).actors,
            final(self).listeners.len() == old(self).listeners.len(),
    {
        handle_event(&mut self.stage, event);
        let n = self.listeners.len();
        let mut i: usize = 0;
        while i < n
            invariant
                i <= n,
                n == self.listeners.len(),
                self.actors == old(self).actors,
                event_applied(old(self).stage, *event, self.stage),
                stays_in_round(old(self).stage, *event) ==> self.stage.wf(),
            decreases n - i,
        {
            let mut l = self.listeners.remove(i);
            l.0.notify_event(&self.stage, event);
            self.listeners.insert(i, l);
            i += 1;
        }
    }

    /// Asks the actor at `seat` to choose among the actions, on the stage
    /// as it is. The answer is one that this actor may give; whether it is
    /// among the actions offered, whoever asks has to check. The stage, the
    /// other actors and the listeners stay as they are.
    pub fn select_action(&mut self, seat: Seat, acts: &Vec<Action>) -> (r: Action)
        requires
            seat < SEAT,
        ensures
            old(self).actors[seat as int].0.may_select(old(self).stage, seat, acts@, r),
            final(self).stage == old(self).stage,
            final(self).listeners == old(self).listeners,
            forall|s: int|
                0 <= s < SEAT && s != seat ==> final(self).actors[s] == old(self).actors[s],
    {
        self.actors[seat].0.select_action(&self.stage, seat, acts)
    }
}

/// How much a chosen action counts against the choices of other seats:
/// a ron before a pon or a quad, those before a chi, and anything else
/// not at all.
pub open spec fn call_rank(tp: ActionType) -> int {
    match tp {
        ActionType::Ron => 3,
        ActionType::Pon | ActionType::Minkan => 2,
        ActionType::Chi => 1,
        _ => 0,
    }
}

/// The seat that sits `k` places after the discarder in the order of play.
pub open spec fn seat_after(d: Seat, k: int) -> int {
    (d + k) % (SEAT as int)
}

/// What comes of the choices of the seats on a discard.
#[derive(Debug, PartialEq, Eq)]
pub enum Resolution {
    /// Nobody calls.
    Pass,
    /// One seat calls.
    Call(Seat),
    /// The seats win by ron, in the order of play from the discarder.
    Ron(Vec<Seat>),
}

/// The seats among the first `k` after the discarder that chose a ron.
pub open spec fn ron_seats(d: Seat, kinds: Seq<ActionType>, k: int) -> Seq<Seat>
    decreases k,
{
    if k <= 0 {
        Seq::empty()
    } else {
        let before = ron_seats(d, kinds, k - 1);
        if kinds[seat_after(d, k)] == ActionType::Ron {
            before.push(seat_after(d, k) as usize)
        } else {
            before
        }
    }
}

/// The seat whose call goes first: of the three seats after the
/// discarder, the one whose choice counts most; of those that count
/// alike, the one that comes first in the order of play. `None` where
/// nobody chose a call.
pub open spec fn first_caller(d: Seat, kinds: Seq<ActionType>) -> Option<Seat> {
    let a = seat_after(d, 1);
    let b = seat_after(d, 2);
    let c = seat_after(d, 3);
    let ra = call_rank(kinds[a]);
    let rb = call_rank(kinds[b]);
    let rc = call_rank(kinds[c]);
    if ra >= rb && ra >= rc {
        if ra > 0 {
            Some(a as usize)
        } else {
            None
        }
    } else if rb >= rc {
        Some(b as usize)
    } else {
        Some(c as usize)
    }
}

/// Whether the resolution is what comes of the choices: all seats that
/// chose a ron win where several may, else the first of them; without a
/// ron the seat whose call goes first calls.
pub open spec fn resolved(d: Seat, kinds: Seq<ActionType>, several: bool, r: Resolution) -> bool {
    let rons = ron_seats(d, kinds, 3);
    if rons.len() > 0 {
        r matches Resolution::Ron(seats) && seats@ == (if several {
            rons
        } else {
            seq![rons[0]]
        })
    } else {
        match first_caller(d, kinds) {
            Some(s) => r == Resolution::Call(s),
            None => r == Resolution::Pass,
        }
    }
}

fn rank_of(tp: ActionType) -> (r: usize)
    ensures
        r == call_rank(tp),
{
    match tp {
        ActionType::Ron => 3,
        ActionType::Pon | ActionType::Minkan => 2,
        ActionType::Chi => 1,
        _ => 0,
    }
}

/// Settles the choices of the seats on the discard of `d`: `kinds` holds
/// the kind of action that each seat chose, and `several` tells whether
/// several seats may win by ron on one tile.
pub fn resolve_calls(d: Seat, kinds: &[ActionType; SEAT], several: bool) -> (r: Resolution)
    requires
        d < SEAT,
    ensures
        resolved(d, kinds@, several, r),
{
    let mut rons: Vec<Seat> = Vec::new();
    let mut k: usize = 1;
    while k <= 3
        invariant
            1 <= k <= 4,
            d < SEAT,
            rons@ == ron_seats(d, kinds@, k - 1),
        decreases 4 - k,
    {
        let s = (d + k) % SEAT;
        match kinds[s] {
            ActionType::Ron => {
                rons.push(s);
            },
            _ => {},
        }
        k += 1;
    }
    if rons.len() > 0 {
        if several {
            return Resolution::Ron(rons);
        }
        let first: Vec<Seat> = vec![rons[0]];
        assert(first@ =~= seq![rons@[0]]);
        return Resolution::Ron(first);
    }
    let a = (d + 1) % SEAT;
    let b = (d + 2) % SEAT;
    let c = (d + 3) % SEAT;
    let ra = rank_of(kinds[a]);
    let rb = rank_of(kinds[b]);
    let rc = rank_of(kinds[c]);
    if ra >= rb && ra >= rc {
        if ra > 0 {
            Resolution::Call(a)
        } else {
            Resolution::Pass
        }
    } else if rb >= rc {
        Resolution::Call(b)
    } else {
        Resolution::Call(c)
    }
}

} // verus!

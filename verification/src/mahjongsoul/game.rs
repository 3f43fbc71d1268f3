//! The course of a game on a live table: which messages concern the
//! table, which seat the observer has, and which message is to be read next.

use crate::mahjongsoul::action::{int_usize, value_usize};
use crate::model::define::{Seat, NO_SEAT};
use crate::util::json::{
    json_clone, json_get, json_is_null, json_is_object, json_member, json_str, json_view,
    json_views, JsonView,
};
use crate::util::text::str_eq;
use serde_json::Value;
use vstd::prelude::*;

verus! {

/// How a message concerns the table.
#[derive(Clone, Copy, Debug, PartialEq, Eq, Structural)]
pub enum MessageKind {
    /// Not about the play.
    Other,
    /// Play as it happens.
    Live,
    /// Play that happened before the observer joined.
    Cached,
}

/// How a message concerns the table: by its `id` and `type`. `None` where
/// the `id` is no string.
pub open spec fn message_kind(j: JsonView) -> Option<MessageKind> {
    match json_member(j, "id"@) {
        JsonView::Str(id) => Some(
            if id == "id_mjaction"@ {
                if json_member(j, "type"@) == JsonView::Str("message"@) {
                    MessageKind::Live
                } else if json_member(j, "type"@) == JsonView::Str("message_cache"@) {
                    MessageKind::Cached
                } else {
                    MessageKind::Other
                }
            } else {
                MessageKind::Other
            },
        ),
        _ => None,
    }
}

/// How a message concerns the table.
pub fn classify(msg: &Value) -> (r: Option<MessageKind>)
    ensures
        r == message_kind(json_view(*msg)),
{
    match json_str(json_get(msg, "id")) {
        Some(id) => {
            if str_eq(id, "id_mjaction") {
                match json_str(json_get(msg, "type")) {
                    Some(tp) => {
                        if str_eq(tp, "message") {
                            Some(MessageKind::Live)
                        } else if str_eq(tp, "message_cache") {
                            Some(MessageKind::Cached)
                        } else {
                            Some(MessageKind::Other)
                        }
                    },
                    None => Some(MessageKind::Other),
                }
            } else {
                Some(MessageKind::Other)
            }
        },
        None => None,
    }
}

/// The seat of the observer as a message of the play reveals it: the seat
/// that is asked to act, or the seat that draws a tile shown openly; the
/// latter counts where both are there. The outer `None` stands for a seat
/// that is no number.
pub open spec fn revealed_seat(j: JsonView) -> Option<Option<usize>> {
    let data = json_member(j, "data"@);
    let op = json_member(data, "operation"@);
    let asked: Option<Option<usize>> = if op is Object {
        match int_usize(json_member(op, "seat"@)) {
            Some(s) => Some(Some(s)),
            None => None,
        }
    } else {
        Some(None)
    };
    if asked is None {
        None
    } else if json_member(j, "name"@) == JsonView::Str("ActionDealTile"@) && json_member(
        data,
        "tile"@,
    ) is Str {
        match int_usize(json_member(data, "seat"@)) {
            Some(s) => Some(Some(s)),
            None => None,
        }
    } else {
        asked
    }
}

/// The course of a game.
#[derive(Debug)]
pub struct Mahjongsoul {
    /// How many messages of the round have been read.
    pub step: usize,
    /// The observer's seat, `NO_SEAT` while it is not known.
    pub seat: usize,
    /// The messages of the round.
    pub events: Vec<Value>,
}

/// What taking in a message has changed.
#[derive(Clone, Copy, Debug)]
pub struct Accepted {
    /// The seat that the observer has left, where a new round began.
    pub released: Option<Seat>,
    /// The seat that the observer has taken, where this message revealed it.
    pub seated: Option<Seat>,
    /// Whether the observer's seat is known, so that messages can be read.
    pub ready: bool,
}

/// Whether a message of the play carries its step and its name, and
/// reveals a seat that is a number where the seat is looked for.
pub open spec fn acceptable(seat: usize, j: JsonView) -> bool {
    &&& int_usize(json_member(j, "step"@)) is Some
    &&& json_member(j, "name"@) is Str
    &&& (int_usize(json_member(j, "step"@)) == Some(0usize) || seat == NO_SEAT) ==> revealed_seat(
        j,
    ) is Some
}

impl Mahjongsoul {
    /// A game of which no message has arrived.
    pub fn new() -> (g: Mahjongsoul)
        ensures
            g.step == 0,
            g.seat == NO_SEAT,
            g.events@.len() == 0,
    {
        Mahjongsoul { step: 0, seat: NO_SEAT, events: Vec::new() }
    }

    /// Takes in a message of the play. A message of step 0 starts a round
    /// anew: the messages kept are dropped and the seat is looked for
    /// again. `None`, with nothing changed, where the message is not
    /// [`acceptable`].
    pub fn accept(&mut self, event: &Value) -> (r: Option<Accepted>)
        ensures
            r is Some == acceptable(old(self).seat, json_view(*event)),
            r is None ==> *final(self) == *old(self),
            r matches Some(acc) ==> {
                let j = json_view(*event);
                let restart = int_usize(json_member(j, "step"@)) == Some(0usize);
                let seat0 = if restart {
                    NO_SEAT
                } else {
                    old(self).seat
                };
                &&& final(self).step == (if restart {
                    0
                } else {
                    old(self).step
                })
                &&& json_views(final(self).events@) == (if restart {
                    Seq::<JsonView>::empty()
                } else {
                    json_views(old(self).events@)
                }).push(j)
                &&& acc.released == (if restart && old(self).seat != NO_SEAT {
                    Some(old(self).seat)
                } else {
                    None
                })
                &&& final(self).seat == (if seat0 != NO_SEAT {
                    seat0
                } else {
                    match revealed_seat(j)->0 {
                        Some(s) => s,
                        None => NO_SEAT,
                    }
                })
                &&& acc.seated == (if seat0 == NO_SEAT && final(self).seat != NO_SEAT {
                    Some(final(self).seat)
                } else {
                    None
                })
                &&& acc.ready == (final(self).seat != NO_SEAT)
            },
    {
        let step = match value_usize(json_get(event, "step")) {
            Some(s) => s,
            None => {
                return None;
            },
        };
        let name = match json_str(json_get(event, "name")) {
            Some(n) => n,
            None => {
                return None;
            },
        };
        let data = json_get(event, "data");
        let mut seat = if step == 0 {
            NO_SEAT
        } else {
            self.seat
        };
        let mut seated: Option<Seat> = None;
        if seat == NO_SEAT {
            let op = json_get(data, "operation");
            if json_is_object(op) {
                match value_usize(json_get(op, "seat")) {
                    Some(s) => {
                        seat = s;
                    },
                    None => {
                        return None;
                    },
                }
            }
            if str_eq(name, "ActionDealTile") && json_str(json_get(data, "tile")).is_some() {
                match value_usize(json_get(data, "seat")) {
                    Some(s) => {
                        seat = s;
                    },
                    None => {
                        return None;
                    },
                }
            }
            if seat != NO_SEAT {
                seated = Some(seat);
            }
        }
        let released = if step == 0 && self.seat != NO_SEAT {
            Some(self.seat)
        } else {
            None
        };
        if step == 0 {
            self.step = 0;
            self.events.clear();
        }
        let ghost kept = self.events@;
        self.events.push(json_clone(event));
        self.seat = seat;
        proof {
            assert(json_views(self.events@) =~= json_views(kept).push(json_view(*event)));
            if step == 0 {
                assert(json_views(kept) =~= Seq::<JsonView>::empty());
            }
        }
        Some(Accepted { released, seated, ready: seat != NO_SEAT })
    }

    /// The message to read next, if one is left.
    pub fn pending(&self) -> (r: Option<&Value>)
        ensures
            r is Some == (self.step < self.events.len()),
            r matches Some(v) ==> *v == self.events[self.step as int],
    {
        if self.step < self.events.len() {
            Some(&self.events[self.step])
        } else {
            None
        }
    }

    /// Whether the message to read next is the last one that has arrived.
    pub fn is_last(&self) -> (r: bool)
        ensures
            r == (self.step + 1 == self.events.len()),
    {
        self.events.len() > 0 && self.step == self.events.len() - 1
    }

    /// Marks the message to read next as read.
    pub fn advance(&mut self)
        requires
            old(self).step < old(self).events.len(),
        ensures
            final(self).step == old(self).step + 1,
            final(self).seat == old(self).seat,
            final(self).events == old(self).events,
    {
        self.step += 1;
    }
}

/// Whether a message carries the given step.
pub fn in_step(event: &Value, step: usize) -> (r: bool)
    ensures
        r == (int_usize(json_member(json_view(*event), "step"@)) == Some(step)),
{
    match value_usize(json_get(event, "step")) {
        Some(s) => s == step,
        None => false,
    }
}

/// The request to act that a message of the play carries: its member
/// `operation`, where that is there and lists operations.
pub fn offered_operation(data: &Value) -> (r: Option<&Value>)
    ensures
        r is Some == (!(json_member(json_view(*data), "operation"@) is Null) && !(json_member(
            json_member(json_view(*data), "operation"@),
            "operation_list"@,
        ) is Null)),
        r matches Some(op) ==> json_view(*op) == json_member(json_view(*data), "operation"@),
{
    let op = json_get(data, "operation");
    if json_is_null(op) || json_is_null(json_get(op, "operation_list")) {
        None
    } else {
        Some(op)
    }
}

} // verus!

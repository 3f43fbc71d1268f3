//! What every actor has: a configuration and the way it is asked.

use crate::model::action::Action;
use crate::model::define::Seat;
use crate::model::stage::Stage;
use vstd::prelude::*;

verus! {

/// The configuration of an actor: its name and its arguments.
#[derive(Clone, Debug, PartialEq, Eq)]
pub struct Config {
    pub name: String,
    pub args: Vec<String>,
}

/// One who chooses an action for a seat. An actor may say what it
/// answers; nothing else is required of the choice, so whoever asks has to
/// check it.
pub trait Actor {
    /// Whether `r` is an answer that the actor may give when it is asked
    /// for `seat` on `stage` with the actions `acts` offered. An actor
    /// that says nothing of its answers may give any.
    open spec fn may_select(&self, stage: Stage, seat: Seat, acts: Seq<Action>, r: Action) -> bool {
        true
    }

    /// Tells the actor which seat it has.
    fn init(&mut self, seat: Seat);

    /// Chooses among the actions offered to `seat`.
    fn select_action(&mut self, stage: &Stage, seat: Seat, acts: &Vec<Action>) -> (r: Action)
        ensures
            old(self).may_select(*stage, seat, acts@, r),
    ;

    /// The configuration of the actor.
    fn get_config(&self) -> (r: &Config);
}

/// An actor in a box, whatever its type.
pub struct ActorBox(pub Box<dyn Actor>);

/// One who makes actors of one kind.
pub trait ActorBuilder {
    /// The configuration that an actor of this kind has unless told otherwise.
    fn get_default_config(&self) -> (r: Config);

    /// An actor with the given configuration.
    fn create(&self, config: Config) -> (r: ActorBox);
}

} // verus!

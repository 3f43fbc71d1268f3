//! The actor that discards a tile of its hand at random.

use crate::actor::types::{Actor, ActorBox, ActorBuilder, Config};
use crate::model::action::{Action, ActionType};
use crate::model::define::{Seat, SEAT, TNUM, TYPE};
use crate::model::stage::Stage;
use crate::model::tile::{Tile, TileTable};
use rand::rngs::StdRng;
use vstd::prelude::*;
use vstd::string::StringExecFns;

verus! {

/// `rand::rngs::StdRng`, opaque to the verifier.
#[verifier::external_type_specification]
#[verifier::external_body]
pub struct ExStdRng(rand::rngs::StdRng);

/// `SeedableRng::seed_from_u64` of `StdRng`: a generator made from a seed.
#[verifier::external_body]
fn rng_from_seed(seed: u64) -> (r: StdRng) {
    rand::SeedableRng::seed_from_u64(seed)
}

/// `Clone` of `StdRng`: a generator that goes on as this one does. Nothing
/// is claimed of it.
pub assume_specification[ <StdRng as Clone>::clone ](rng: &StdRng) -> (r: StdRng)
;

/// `Rng::gen_range` of `StdRng` on `0..n`: a number below `n`. It panics
/// on an empty range, so `n` is positive.
#[verifier::external_body]
fn rng_below(rng: &mut StdRng, n: u32) -> (r: u32)
    requires
        n > 0,
    ensures
        r < n,
{
    rand::Rng::gen_range(rng, 0..n)
}

/// The kinds of tiles that the first `k` slots of a hand hold, in the
/// order of suit and rank. Slot `k` is suit `k / 10`, rank `k % 10`; the
/// slots of rank 0 count nothing, a red five being a five.
pub open spec fn kinds_before(h: TileTable, k: int) -> Seq<Tile>
    decreases k,
{
    if k <= 0 {
        Seq::empty()
    } else {
        let before = kinds_before(h, k - 1);
        let t = (k - 1) / 10;
        let n = (k - 1) % 10;
        if n != 0 && h[t][n] > 0 {
            before.push(Tile(t as usize, n as usize))
        } else {
            before
        }
    }
}

/// The kinds of tiles that a hand holds.
pub open spec fn kinds_of(h: TileTable) -> Seq<Tile> {
    kinds_before(h, (TYPE * TNUM) as int)
}

/// The kinds of tiles that a hand holds.
pub fn hand_kinds(h: &TileTable) -> (r: Vec<Tile>)
    ensures
        r@ == kinds_of(*h),
{
    let mut r: Vec<Tile> = Vec::new();
    let mut ti: usize = 0;
    while ti < TYPE
        invariant
            ti <= TYPE,
            r@ == kinds_before(*h, ti * 10),
        decreases TYPE - ti,
    {
        let mut ni: usize = 1;
        assert((ti * 10) / 10 == ti && (ti * 10) % 10 == 0);
        while ni < TNUM
            invariant
                ti < TYPE,
                1 <= ni <= TNUM,
                r@ == kinds_before(*h, ti * 10 + ni),
            decreases TNUM - ni,
        {
            assert((ti * 10 + ni) / 10 == ti && (ti * 10 + ni) % 10 == ni);
            if h[ti][ni] > 0 {
                r.push(Tile(ti, ni));
            }
            ni += 1;
        }
        ti += 1;
    }
    r
}

/// The kind of tile that the number `n` picks from a hand: the kinds are
/// counted round and round, so every number picks one. `None` where the
/// hand holds no tile.
pub fn pick_kind(h: &TileTable, n: u32) -> (r: Option<Tile>)
    ensures
        r is Some == (kinds_of(*h).len() > 0),
        r matches Some(t) ==> t == kinds_of(*h)[(n as int) % (kinds_of(*h).len() as int)],
{
    let kinds = hand_kinds(h);
    if kinds.len() == 0 {
        None
    } else {
        Some(kinds[(n as usize) % kinds.len()])
    }
}

/// Makes actors that discard at random.
#[derive(Clone, Copy, Debug)]
pub struct RandomDiscardBuilder;

/// An actor that, on its turn, discards a tile of a kind picked at random
/// from its hand, and otherwise does nothing.
#[derive(Clone)]
pub struct RandomDiscard {
    pub config: Config,
    pub rng: StdRng,
}

impl RandomDiscard {
    /// An actor with the given configuration. Its choices start from a
    /// fixed seed.
    pub fn from_config(config: Config) -> (r: RandomDiscard)
        ensures
            r.config == config,
    {
        RandomDiscard { config: config, rng: rng_from_seed(0) }
    }
}

/// What the actor may answer: nothing where it is not its turn or its hand
/// is empty, else the discard of one tile of a kind that the hand holds.
pub open spec fn random_discard_answer(stage: Stage, seat: Seat, a: Action) -> bool {
    let kinds = kinds_of(stage.players[seat as int].hand);
    if stage.turn != seat || kinds.len() == 0 {
        a.0 == ActionType::Nop && a.1@.len() == 0
    } else {
        a.0 == ActionType::Discard && a.1@.len() == 1 && kinds.contains(a.1@[0])
    }
}

impl RandomDiscard {
    /// Chooses for `seat`.
    pub fn decide(&mut self, stage: &Stage, seat: Seat) -> (r: Action)
        requires
            seat < SEAT,
        ensures
            random_discard_answer(*stage, seat, r),
            final(self).config == old(self).config,
    {
        if stage.turn != seat {
            return Action::nop();
        }
        let n = rng_below(&mut self.rng, 13);
        match pick_kind(&stage.players[seat].hand, n) {
            Some(t) => Action::discard(t),
            None => Action::nop(),
        }
    }
}

impl Actor for RandomDiscard {
    open spec fn may_select(&self, stage: Stage, seat: Seat, acts: Seq<Action>, r: Action) -> bool {
        if seat < SEAT {
            random_discard_answer(stage, seat, r)
        } else {
            r.0 == ActionType::Nop && r.1@.len() == 0
        }
    }

    fn init(&mut self, seat: Seat) {
    }

    fn select_action(&mut self, stage: &Stage, seat: Seat, acts: &Vec<Action>) -> (r: Action)
        ensures
            final(self).config == old(self).config,
    {
        if seat < SEAT {
            self.decide(stage, seat)
        } else {
            Action::nop()
        }
    }

    fn get_config(&self) -> (r: &Config)
        ensures
            *r == self.config,
    {
        &self.config
    }
}

impl ActorBuilder for RandomDiscardBuilder {
    fn get_default_config(&self) -> (r: Config)
        ensures
            r.name@ == "RandomDiscard"@,
            r.args@ == Seq::<String>::empty(),
    {
        Config { name: String::from_str("RandomDiscard"), args: Vec::new() }
    }

    fn create(&self, config: Config) -> (r: ActorBox)
        ensures
            exists|a: RandomDiscard| a.config == config && r == ActorBox(Box::new(a)),
    {
        ActorBox(Box::new(RandomDiscard::from_config(config)))
    }
}

} // verus!

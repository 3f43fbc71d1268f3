//! Operations offered to a player, and helpers to pick among them and to
//! look at a hand.

use crate::model::define::{Seat, DR, TILE, TNUM, TZ, UK};
use crate::model::stage::{Stage, TileStateType};
use crate::model::tile::{table_bounded, Tile, TileTable, SLOT_MAX};
use vstd::prelude::*;

verus! {

/// What a player may do, with the choices that each operation leaves.
#[derive(Debug, PartialEq, Eq)]
pub enum PlayerOperation {
    /// On one's turn: discard the drawn tile. On a call: pass.
    Nop,
    /// Discard; the tiles are those that may not be discarded after a chi.
    Discard(Vec<Tile>),
    Ankan(Vec<Tile>),
    Kakan(Vec<Tile>),
    Riichi(Vec<Tile>),
    Tsumo,
    Kyushukyuhai,
    Kita,
    /// Chi; the pairs are the tiles from the hand that can make the run.
    Chii(Vec<(Tile, Tile)>),
    Pon(Vec<(Tile, Tile)>),
    Minkan(Vec<Tile>),
    Ron,
}

/// The number of the kind of an operation, in the order of declaration.
pub open spec fn op_kind(op: PlayerOperation) -> int {
    match op {
        PlayerOperation::Nop => 0,
        PlayerOperation::Discard(_) => 1,
        PlayerOperation::Ankan(_) => 2,
        PlayerOperation::Kakan(_) => 3,
        PlayerOperation::Riichi(_) => 4,
        PlayerOperation::Tsumo => 5,
        PlayerOperation::Kyushukyuhai => 6,
        PlayerOperation::Kita => 7,
        PlayerOperation::Chii(_) => 8,
        PlayerOperation::Pon(_) => 9,
        PlayerOperation::Minkan(_) => 10,
        PlayerOperation::Ron => 11,
    }
}

/// The choices of an operation as pairs of tiles; a single tile stands
/// as a pair of itself.
pub open spec fn op_items(op: PlayerOperation) -> Seq<(Tile, Tile)> {
    match op {
        PlayerOperation::Discard(v)
        | PlayerOperation::Ankan(v)
        | PlayerOperation::Kakan(v)
        | PlayerOperation::Riichi(v)
        | PlayerOperation::Minkan(v) => Seq::new(v.len() as nat, |i: int| (v[i], v[i])),
        PlayerOperation::Chii(v) | PlayerOperation::Pon(v) => v@,
        _ => Seq::empty(),
    }
}

/// Whether an operation of this kind leaves a choice.
pub open spec fn kind_has_items(kind: int) -> bool {
    kind == 2 || kind == 3 || kind == 4 || kind == 8 || kind == 9 || kind == 10
}

/// Whether the operation `op` is found in `ops` at `(i, j)`: the operation
/// at `i` is of its kind and, where the kind leaves a choice, its choice
/// at `j` is the first choice of `op`.
pub open spec fn found_at(ops: Seq<PlayerOperation>, op: PlayerOperation, i: int, j: int) -> bool {
    &&& 0 <= i < ops.len()
    &&& op_kind(ops[i]) == op_kind(op)
    &&& if kind_has_items(op_kind(op)) {
        &&& 0 <= j < op_items(ops[i]).len()
        &&& op_items(op).len() > 0
        &&& op_items(ops[i])[j] == op_items(op)[0]
    } else {
        j == 0
    }
}

/// Whether the operation `op` is found in `ops`. A discard always is.
pub open spec fn has_operation(ops: Seq<PlayerOperation>, op: PlayerOperation) -> bool {
    op is Discard || exists|i: int, j: int| found_at(ops, op, i, j)
}

/// Whether `(i, j)` is the first place where `op` is found in `ops`.
pub open spec fn first_found_at(ops: Seq<PlayerOperation>, op: PlayerOperation, i: int, j: int) -> bool {
    &&& found_at(ops, op, i, j)
    &&& forall|a: int, b: int| found_at(ops, op, a, b) ==> i < a || (i == a && j <= b)
}

/// Whether the kind of one operation is that of another.
fn same_kind(a: &PlayerOperation, b: &PlayerOperation) -> (r: bool)
    ensures
        r == (op_kind(*a) == op_kind(*b)),
{
    match (a, b) {
        (PlayerOperation::Nop, PlayerOperation::Nop) => true,
        (PlayerOperation::Discard(_), PlayerOperation::Discard(_)) => true,
        (PlayerOperation::Ankan(_), PlayerOperation::Ankan(_)) => true,
        (PlayerOperation::Kakan(_), PlayerOperation::Kakan(_)) => true,
        (PlayerOperation::Riichi(_), PlayerOperation::Riichi(_)) => true,
        (PlayerOperation::Tsumo, PlayerOperation::Tsumo) => true,
        (PlayerOperation::Kyushukyuhai, PlayerOperation::Kyushukyuhai) => true,
        (PlayerOperation::Kita, PlayerOperation::Kita) => true,
        (PlayerOperation::Chii(_), PlayerOperation::Chii(_)) => true,
        (PlayerOperation::Pon(_), PlayerOperation::Pon(_)) => true,
        (PlayerOperation::Minkan(_), PlayerOperation::Minkan(_)) => true,
        (PlayerOperation::Ron, PlayerOperation::Ron) => true,
        _ => false,
    }
}

/// The number of choices of an operation.
fn item_count(op: &PlayerOperation) -> (r: usize)
    ensures
        r == op_items(*op).len(),
{
    match op {
        PlayerOperation::Discard(v) => v.len(),
        PlayerOperation::Ankan(v) => v.len(),
        PlayerOperation::Kakan(v) => v.len(),
        PlayerOperation::Riichi(v) => v.len(),
        PlayerOperation::Minkan(v) => v.len(),
        PlayerOperation::Chii(v) => v.len(),
        PlayerOperation::Pon(v) => v.len(),
        _ => 0,
    }
}

/// The choice of an operation at `j`.
fn item_at(op: &PlayerOperation, j: usize) -> (r: (Tile, Tile))
    requires
        j < op_items(*op).len(),
    ensures
        r == op_items(*op)[j as int],
{
    match op {
        PlayerOperation::Discard(v) => (v[j], v[j]),
        PlayerOperation::Ankan(v) => (v[j], v[j]),
        PlayerOperation::Kakan(v) => (v[j], v[j]),
        PlayerOperation::Riichi(v) => (v[j], v[j]),
        PlayerOperation::Minkan(v) => (v[j], v[j]),
        PlayerOperation::Chii(v) => v[j],
        PlayerOperation::Pon(v) => v[j],
        _ => (Tile(0, 0), Tile(0, 0)),
    }
}

fn has_items(op: &PlayerOperation) -> (r: bool)
    ensures
        r == kind_has_items(op_kind(*op)),
{
    match op {
        PlayerOperation::Ankan(_) => true,
        PlayerOperation::Kakan(_) => true,
        PlayerOperation::Riichi(_) => true,
        PlayerOperation::Chii(_) => true,
        PlayerOperation::Pon(_) => true,
        PlayerOperation::Minkan(_) => true,
        _ => false,
    }
}

/// Where the operation `op` stands among the operations offered, if it is
/// among them: the place of the operation and the place of the choice
/// within it. A discard is taken to stand first.
pub fn find_operation(ops: &Vec<PlayerOperation>, op: &PlayerOperation) -> (r: Option<
    (usize, usize),
>)
    ensures
        r is Some == has_operation(ops@, *op),
        op is Discard ==> r == Some((0usize, 0usize)),
        !(op is Discard) ==> (r matches Some(at) ==> first_found_at(
            ops@,
            *op,
            at.0 as int,
            at.1 as int,
        )),
{
    if let PlayerOperation::Discard(_) = op {
        return Some((0, 0));
    }
    let with_items = has_items(op);
    let mut i: usize = 0;
    while i < ops.len()
        invariant
            i <= ops.len(),
            !(op is Discard),
            with_items == kind_has_items(op_kind(*op)),
            forall|a: int, b: int| found_at(ops@, *op, a, b) ==> i <= a,
        decreases ops.len() - i,
    {
        if same_kind(&ops[i], op) {
            if !with_items {
                assert(found_at(ops@, *op, i as int, 0));
                return Some((i, 0));
            }
            let n = item_count(&ops[i]);
            let mut j: usize = 0;
            while j < n
                invariant
                    j <= n,
                    i < ops.len(),
                    n == op_items(ops@[i as int]).len(),
                    op_kind(ops@[i as int]) == op_kind(*op),
                    kind_has_items(op_kind(*op)),
                    !(op is Discard),
                    forall|a: int, b: int| found_at(ops@, *op, a, b) ==> i < a || (i == a && j <= b),
                decreases n - j,
            {
                if item_count(op) > 0 {
                    let e = item_at(&ops[i], j);
                    let w = item_at(op, 0);
                    if e.0 == w.0 && e.1 == w.1 {
                        assert(found_at(ops@, *op, i as int, j as int));
                        return Some((i, j));
                    }
                }
                j += 1;
            }
        }
        i += 1;
    }
    None
}

/// Where the operation `op` stands among the operations offered: the place
/// of the operation and the place of the choice within it. A discard is
/// taken to stand first.
pub fn get_operation_index(ops: &Vec<PlayerOperation>, op: &PlayerOperation) -> (r: (usize, usize))
    requires
        has_operation(ops@, *op),
    ensures
        op is Discard ==> r == (0usize, 0usize),
        !(op is Discard) ==> first_found_at(ops@, *op, r.0 as int, r.1 as int),
{
    match find_operation(ops, op) {
        Some(at) => at,
        None => (0, 0),
    }
}

/// Whether a copy of a tile may still come to `seat`: it is not seen yet,
/// or it lies in the hand of another seat.
pub open spec fn is_left(st: TileStateType, seat: Seat) -> bool {
    match st {
        TileStateType::U => true,
        TileStateType::H(s) => s != seat,
        _ => false,
    }
}

/// How many of the first `n` copies may still come to `seat`.
pub open spec fn left_among(states: Seq<TileStateType>, seat: Seat, n: int) -> int
    decreases n,
{
    if n <= 0 {
        0
    } else {
        left_among(states, seat, n - 1) + if is_left(states[n - 1], seat) {
            1int
        } else {
            0int
        }
    }
}

/// How many copies of `tile` may still come to `seat`.
pub fn count_left_tile(stage: &Stage, seat: Seat, tile: Tile) -> (n: usize)
    requires
        tile.in_table(),
    ensures
        n == left_among(stage.tile_states[tile.0 as int][tile.1 as int]@, seat, TILE as int),
        n <= TILE,
{
    let states = &stage.tile_states[tile.0][tile.1];
    let mut n: usize = 0;
    let mut i: usize = 0;
    while i < TILE
        invariant
            i <= TILE,
            n <= i,
            n == left_among(states@, seat, i as int),
        decreases TILE - i,
    {
        match states[i] {
            TileStateType::U => {
                n += 1;
            },
            TileStateType::H(s) => {
                if s != seat {
                    n += 1;
                }
            },
            _ => {},
        }
        i += 1;
    }
    n
}

/// A block of a hand: tiles of one suit that stand close enough to work
/// together.
#[derive(Clone, Copy, Debug, PartialEq, Eq, Structural)]
pub struct BlockInfo {
    /// The first tile of the block.
    pub tile: Tile,
    /// The number of ranks that the block spans.
    pub len: usize,
    /// The number of tiles in the block.
    pub num: usize,
}

impl BlockInfo {
    /// No block: the hidden tile, spanning nothing.
    pub open spec fn spec_new() -> BlockInfo {
        BlockInfo { tile: Tile(TZ, UK), len: 0, num: 0 }
    }

    /// No block.
    #[verifier::when_used_as_spec(spec_new)]
    pub fn new() -> (b: BlockInfo)
        ensures
            b == BlockInfo::spec_new(),
    {
        BlockInfo { tile: Tile(TZ, UK), len: 0, num: 0 }
    }
}

/// The blocks of a suit while its ranks are read from 1 upwards: the
/// blocks that are complete, and the block that is still open, which
/// spans nothing where none is.
pub struct BlockScan {
    pub done: Seq<BlockInfo>,
    pub open: BlockInfo,
}

/// Reads the rank `ni` of suit `ti`, of which the hand holds `c` tiles. A
/// tile opens a block or extends the open one over a gap of at most one
/// rank; the second empty rank after a block completes it.
pub open spec fn scan_rank(st: BlockScan, ti: usize, ni: usize, c: usize) -> BlockScan {
    if st.open.len == 0 {
        if c != 0 {
            BlockScan { open: BlockInfo { tile: Tile(ti, ni), len: 1, num: c }, ..st }
        } else {
            st
        }
    } else if c == 0 {
        if st.open.tile.1 + st.open.len < ni {
            BlockScan { done: st.done.push(st.open), open: BlockInfo::spec_new() }
        } else {
            st
        }
    } else {
        BlockScan {
            open: BlockInfo {
                len: (ni - st.open.tile.1 + 1) as usize,
                num: (st.open.num + c) as usize,
                ..st.open
            },
            ..st
        }
    }
}

/// The scan of suit `ti` after the ranks below `n`, started with the
/// complete blocks `done` and none open.
pub open spec fn scan_suit(h: TileTable, done: Seq<BlockInfo>, ti: usize, n: int) -> BlockScan
    decreases n,
{
    if n <= 1 {
        BlockScan { done, open: BlockInfo::spec_new() }
    } else {
        scan_rank(scan_suit(h, done, ti, n - 1), ti, (n - 1) as usize, h[ti as int][n - 1])
    }
}

/// The blocks of the suits below `t`; a block that is open at the end of
/// its suit is complete.
pub open spec fn suit_blocks(h: TileTable, t: int) -> Seq<BlockInfo>
    decreases t,
{
    if t <= 0 {
        Seq::empty()
    } else {
        let st = scan_suit(h, suit_blocks(h, t - 1), (t - 1) as usize, TNUM as int);
        if st.open.len != 0 {
            st.done.push(st.open)
        } else {
            st.done
        }
    }
}

/// The blocks of the honors of the ranks below `n`: each kind that the
/// hand holds is a block of its own.
pub open spec fn honor_blocks(h: TileTable, n: int) -> Seq<BlockInfo>
    decreases n,
{
    if n <= 1 {
        Seq::empty()
    } else {
        let before = honor_blocks(h, n - 1);
        let c = h[TZ as int][n - 1];
        if c != 0 {
            before.push(BlockInfo { tile: Tile(TZ, (n - 1) as usize), len: 1, num: c })
        } else {
            before
        }
    }
}

/// The blocks of a hand: those of the three suits in turn, then those of
/// the honors.
pub open spec fn block_info(h: TileTable) -> Seq<BlockInfo> {
    suit_blocks(h, TZ as int) + honor_blocks(h, DR + 1)
}

/// The blocks of a hand.
pub fn get_block_info(hand: &TileTable) -> (r: Vec<BlockInfo>)
    requires
        table_bounded(*hand),
    ensures
        r@ == block_info(*hand),
{
    let mut vbi: Vec<BlockInfo> = Vec::new();
    let mut bi = BlockInfo::new();
    let mut ti: usize = 0;
    while ti < TZ
        invariant
            ti <= TZ,
            table_bounded(*hand),
            vbi@ == suit_blocks(*hand, ti as int),
            bi == BlockInfo::spec_new(),
        decreases TZ - ti,
    {
        let ghost done = vbi@;
        let mut ni: usize = 1;
        while ni < TNUM
            invariant
                ti < TZ,
                1 <= ni <= TNUM,
                table_bounded(*hand),
                (BlockScan { done: vbi@, open: bi }) == scan_suit(*hand, done, ti, ni as int),
                bi.len == 0 ==> bi == BlockInfo::spec_new(),
                bi.len != 0 ==> bi.tile.0 == ti && 1 <= bi.tile.1 && bi.tile.1 + bi.len <= ni
                    && bi.num <= SLOT_MAX * bi.len,
            decreases TNUM - ni,
        {
            let c = hand[ti][ni];
            assert(hand[ti as int][ni as int] <= SLOT_MAX);
            if bi.len == 0 {
                if c != 0 {
                    bi.tile = Tile(ti, ni);
                    bi.len = 1;
                    bi.num = c;
                }
            } else {
                if c == 0 {
                    if bi.tile.1 + bi.len < ni {
                        vbi.push(bi);
                        bi = BlockInfo::new();
                    }
                } else {
                    bi.len = ni - bi.tile.1 + 1;
                    bi.num += c;
                }
            }
            ni += 1;
        }
        if bi.len != 0 {
            vbi.push(bi);
            bi = BlockInfo::new();
        }
        ti += 1;
    }
    let ghost suits = vbi@;
    let mut ni: usize = 1;
    proof {
        assert(vbi@ =~= suits + honor_blocks(*hand, 1));
    }
    while ni <= DR
        invariant
            1 <= ni <= DR + 1,
            suits == suit_blocks(*hand, TZ as int),
            vbi@ == suits + honor_blocks(*hand, ni as int),
        decreases DR + 1 - ni,
    {
        let c = hand[TZ][ni];
        if c != 0 {
            vbi.push(BlockInfo { tile: Tile(TZ, ni), len: 1, num: c });
        }
        proof {
            assert(vbi@ =~= suits + honor_blocks(*hand, ni + 1));
        }
        ni += 1;
    }
    vbi
}

/// One who decides for a player.
pub trait Operator: Send {
    /// Whether the operator can be asked at all.
    spec fn responds(&self) -> bool;

    /// Chooses among the operations offered to `seat`. Nothing is known
    /// of the choice: whoever asks looks it up among the operations.
    fn handle_operation(
        &mut self,
        stage: &Stage,
        seat: Seat,
        operatons: &Vec<PlayerOperation>,
    ) -> (r: PlayerOperation)
        requires
            old(self).responds(),
    ;

    /// A name for the operator.
    fn debug_string(&self) -> (r: String);
}

/// An operator in a box, whatever its type.
pub struct OperatorBox(pub Box<dyn Operator>);

/// An operator that can be copied into a box of its own.
pub trait OperatorClone {
    /// A copy of the operator in a box of its own.
    fn clone_box(&self) -> (r: OperatorBox);
}

impl<T: 'static + Operator + Clone> OperatorClone for T {
    fn clone_box(&self) -> (r: OperatorBox)
        ensures
            exists|c: T| cloned(*self, c) && r == OperatorBox(Box::new(c)),
    {
        let c = self.clone();
        let ghost copy = c;
        let r = OperatorBox(Box::new(c));
        assert(cloned(*self, copy) && r == OperatorBox(Box::new(copy)));
        r
    }
}

/// The operator of an empty seat. It is never to be asked.
#[derive(Clone, Copy, Debug)]
pub struct NullOperator {}

impl NullOperator {
    pub fn new() -> (r: NullOperator) {
        NullOperator {  }
    }
}

impl Operator for NullOperator {
    open spec fn responds(&self) -> bool {
        false
    }

    fn handle_operation(
        &mut self,
        stage: &Stage,
        seat: Seat,
        operatons: &Vec<PlayerOperation>,
    ) -> (r: PlayerOperation) {
        PlayerOperation::Discard(Vec::new())
    }

    fn debug_string(&self) -> (r: String) {
        "NullOperator".to_string()
    }
}

} // verus!

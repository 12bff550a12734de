//! The decision core of the randomized artificial player: picking the
//! n-th empty cell of the board, for an externally drawn n.

use vstd::prelude::*;

use crate::game::BOARD_SIZE;
use crate::game::Cell;
use crate::game::PlayerId;
use crate::game::State;

verus! {

/// The default thinking delay of an artificial player, in nanoseconds.
pub const DEFAULT_BASE_DELAY: u64 = 700_000_000;

/// How many of the first `k` cells of the board are empty.
pub open spec fn empties_before(board: Seq<Option<PlayerId>>, k: int) -> int
    decreases k,
{
    if k <= 0 {
        0
    } else {
        empties_before(board, k - 1) + if board[k - 1] is None {
            1int
        } else {
            0int
        }
    }
}

/// Returns the cell on which a randomized player moves: the empty cell
/// reached after skipping `shift` other empty cells, walking the board in
/// x-major order. The caller draws `shift` at random among the empty cells.
pub fn decide_cell(shift: u32, state: &State) -> (r: Cell)
    requires
        state.wf(),
        shift < empties_before(state@.board, (BOARD_SIZE * BOARD_SIZE) as int),
    ensures
        r.wf(),
        state@.occupant(r.x as int, r.y as int) is None,
        empties_before(state@.board, r.x * BOARD_SIZE + r.y) == shift,
{
    let board_size = state.board.size();
    let mut remaining = shift;
    let mut x: usize = 0;
    while x < board_size
        invariant
            state.wf(),
            board_size == BOARD_SIZE,
            x <= BOARD_SIZE,
            shift < empties_before(state@.board, (BOARD_SIZE * BOARD_SIZE) as int),
            shift - remaining == empties_before(state@.board, x * BOARD_SIZE),
            remaining <= shift,
        decreases BOARD_SIZE - x,
    {
        let mut y: usize = 0;
        while y < board_size
            invariant
                state.wf(),
                board_size == BOARD_SIZE,
                x < BOARD_SIZE,
                y <= BOARD_SIZE,
                shift < empties_before(state@.board, (BOARD_SIZE * BOARD_SIZE) as int),
                shift - remaining == empties_before(state@.board, x * BOARD_SIZE + y),
                remaining <= shift,
            decreases BOARD_SIZE - y,
        {
            let cell = Cell::new(x, y);
            if state.board.get(&cell).is_none() {
                if remaining == 0 {
                    return cell;
                }
                remaining = remaining - 1;
            }
            y = y + 1;
        }
        x = x + 1;
    }
    // unreachable: fewer empty cells were skipped than exist on the board
    proof {
        lemma_empties_before_bounds(state@.board, (BOARD_SIZE * BOARD_SIZE) as int);
        assert(false);
    }
    Cell::new(0, 0)
}

/// The empty-cell count over a prefix never goes down as the prefix grows.
proof fn lemma_empties_before_bounds(board: Seq<Option<PlayerId>>, k: int)
    ensures
        forall|j: int| 0 <= j <= k ==> #[trigger] empties_before(board, j) <= empties_before(
            board,
            k,
        ),
    decreases k,
{
    if k > 0 {
        lemma_empties_before_bounds(board, k - 1);
    }
}

} // verus!

//! The laws of the engine: properties that hold of every well-formed
//! state, proved once and for all over the mathematical model.

use vstd::prelude::*;

use crate::game::Action;
use crate::game::BOARD_SIZE;
use crate::game::Cell;
use crate::game::PLAYER_COUNT;
use crate::game::Phase;
use crate::game::StateView;
use crate::game::action_ok;
use crate::game::advance_ok;
use crate::game::advance_queues;
use crate::game::advance_result;
use crate::game::apply_inround;
use crate::game::empty_board;
use crate::game::lobby_result;

verus! {

/// Turn alternation: the turn is always the parity of `step + round`, and
/// a non-terminal `Occupy` — one that neither ends the round nor the
/// match — passes the turn to the other player.
pub proof fn law_turn_alternation(s: StateView, c: Cell)
    requires
        s.wf(),
        s.phase == Phase::Inround,
        action_ok(s, Action::Occupy(c)),
        s.occupy(c).phase == Phase::Inround,
    ensures
        s.turn() == (s.step + s.round) % (PLAYER_COUNT as int),
        s.occupy(c).turn() == 1 - s.turn(),
        s.occupy(c).turn() != s.turn(),
{
}

/// No double occupation: a legal in-round action never changes a cell
/// that is already occupied, so within a round — between two board
/// clears — each cell is set at most once.
pub proof fn law_no_double_occupy(s: StateView, a: Action, x: int, y: int)
    requires
        s.wf(),
        s.phase == Phase::Inround,
        action_ok(s, a),
        0 <= x < BOARD_SIZE,
        0 <= y < BOARD_SIZE,
        s.occupant(x, y) is Some,
    ensures
        apply_inround(s, a).occupant(x, y) == s.occupant(x, y),
{
    if let Action::Occupy(c) = a {
        assert(c.x * BOARD_SIZE + c.y != x * BOARD_SIZE + y) by (nonlinear_arith)
            requires
                0 <= x < BOARD_SIZE,
                0 <= y < BOARD_SIZE,
                0 <= c.x < BOARD_SIZE,
                0 <= c.y < BOARD_SIZE,
                !(c.x == x && c.y == y),
                BOARD_SIZE == 3,
        ;
    }
}

/// Draw: the last possible move, when it completes no line, ends the
/// round with no winning line recorded and no win counted.
pub proof fn law_draw(s: StateView, c: Cell)
    requires
        s.wf(),
        s.phase == Phase::Inround,
        action_ok(s, Action::Occupy(c)),
        s.step == BOARD_SIZE * BOARD_SIZE - 1,
        s.occupy(c).win_line is None,
    ensures
        s.occupy(c).phase == Phase::Outround,
        s.occupy(c).players == s.players,
        s.occupy(c).wins_total() == s.wins_total(),
{
}

/// Round restart: when every player still required to ready up submits
/// `Ready` in `Outround`, the board is cleared, the round counter moves
/// on, the step counter and the winning line are reset, and play resumes.
pub proof fn law_round_restart(s: StateView, q0: Seq<Action>, q1: Seq<Action>)
    requires
        s.wf(),
        s.phase == Phase::Outround,
        s.required_ready[0] || s.required_ready[1],
        s.required_ready[0] ==> q0.len() > 0 && q0[0] == Action::Ready,
        s.required_ready[1] ==> q1.len() > 0 && q1[0] == Action::Ready,
    ensures
        lobby_result(s, q0, q1).phase == Phase::Inround,
        lobby_result(s, q0, q1).round == s.round + 1,
        lobby_result(s, q0, q1).step == 0,
        lobby_result(s, q0, q1).board == empty_board(),
        lobby_result(s, q0, q1).win_line is None,
        lobby_result(s, q0, q1).players == s.players,
{
    // a player still required to ready up means the match is not over
    assert(!s.game_over());
    if s.required_ready[0] {
        let t = StateView { required_ready: s.required_ready.update(0, false), ..s };
        if s.required_ready[1] {
            assert(!t.nobody_required_ready());
        } else {
            assert(t.nobody_required_ready()) by {
                assert(forall|i: int|
                    0 <= i < t.required_ready.len() ==> !(#[trigger] t.required_ready[i]));
            }
        }
    }
}

/// Match termination: once the last round has ended, a lobby advance
/// consumes nothing and changes nothing — no further action is applied.
pub proof fn law_match_termination(s: StateView, q0: Seq<Action>, q1: Seq<Action>)
    requires
        s.wf(),
        s.game_over(),
    ensures
        advance_result(s, q0, q1) == s,
        advance_queues(s, q0, q1).0 == q0,
        advance_queues(s, q0, q1).1 == q1,
{
}

/// Win counts only ever grow: no advance, whatever is queued, takes a win
/// away from a player.
pub proof fn law_wins_never_decrease(s: StateView, q0: Seq<Action>, q1: Seq<Action>)
    requires
        s.wf(),
        advance_ok(s, q0, q1),
    ensures
        forall|i: int|
            0 <= i < PLAYER_COUNT ==> (#[trigger] advance_result(s, q0, q1).players[i]).wins
                >= s.players[i].wins,
{
}

/// Surrender: giving up during a round hands exactly one win to the other
/// player, ends the round, and records no winning line.
pub proof fn law_surrender(s: StateView)
    requires
        s.wf(),
        s.phase == Phase::Inround,
    ensures
        s.surrender().players[1 - s.turn()].wins == s.players[1 - s.turn()].wins + 1,
        s.surrender().players[s.turn()].wins == s.players[s.turn()].wins,
        s.surrender().win_line is None,
        s.surrender().phase == Phase::Outround,
{
}

} // verus!

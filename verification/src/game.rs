//! The game core: board, players, phases, actions and the state they form.

use std::collections::VecDeque;

use vstd::prelude::*;

use crate::util::AdvanceableClock;
use crate::util::instant_now;

verus! {

/// Number of players in a match; the engine is written for exactly two.
pub const PLAYER_COUNT: usize = 2;

/// Width and height of the square board.
pub const BOARD_SIZE: usize = 3;

/// The mark a player draws on the board, derived from the player's id.
#[derive(Debug, Copy, Clone, Eq, PartialEq, Structural)]
pub enum Mark {
    X,
    O,
}

/// Identifier of a player: an index into `State.players`.
#[derive(Debug, Copy, Clone, Eq, PartialEq, Structural)]
pub struct PlayerId {
    pub idx: usize,
}

impl PlayerId {
    pub open spec fn wf(self) -> bool {
        self.idx < PLAYER_COUNT
    }

    pub fn new(idx: usize) -> (r: Self)
        requires
            idx < PLAYER_COUNT,
        ensures
            r.idx == idx,
            r.wf(),
    {
        Self { idx }
    }
}

/// How a player is controlled.
#[derive(Debug, Copy, Clone, Eq, PartialEq, Structural)]
pub enum PlayerType {
    Local(LocalPlayerType),
    _Remote,
}

#[derive(Debug, Copy, Clone, Eq, PartialEq, Structural)]
pub enum LocalPlayerType {
    Human,
    Ai,
}

/// A participant of the match.
#[derive(Debug, Copy, Clone, Eq, PartialEq, Structural)]
pub struct Player {
    pub id: PlayerId,
    pub typ: PlayerType,
    pub wins: u32,
}

impl Player {
    pub fn new(id: PlayerId, typ: PlayerType) -> (r: Self)
        ensures
            r.id == id,
            r.typ == typ,
            r.wins == 0,
    {
        Self { id, typ, wins: 0 }
    }

    /// The mark is derived from the player's id: player 0 draws `X`,
    /// player 1 draws `O`.
    pub fn mark(&self) -> (r: Mark)
        requires
            self.id.wf(),
        ensures
            r == (if self.id.idx == 0 { Mark::X } else { Mark::O }),
    {
        match self.id.idx {
            0 => Mark::X,
            _ => Mark::O,
        }
    }
}

/// The lifecycle phase of a match.
#[derive(Debug, Copy, Clone, Eq, PartialEq, Structural)]
pub enum Phase {
    Beginning,
    Inround,
    Outround,
}

/// A board coordinate pair, each in `[0, BOARD_SIZE)`.
#[derive(Debug, Copy, Clone, Eq, PartialEq, Structural)]
pub struct Cell {
    pub x: usize,
    pub y: usize,
}

impl Cell {
    pub open spec fn wf(self) -> bool {
        self.x < BOARD_SIZE && self.y < BOARD_SIZE
    }

    pub fn new(x: usize, y: usize) -> (r: Self)
        requires
            x < BOARD_SIZE,
            y < BOARD_SIZE,
        ensures
            r.x == x,
            r.y == y,
            r.wf(),
    {
        Self { x, y }
    }
}

/// The grid: one optional occupant per cell, stored in x-major order,
/// so that the cell `(x, y)` lives at index `x * BOARD_SIZE + y`.
#[derive(Debug, PartialEq, Eq)]
pub struct Board {
    pub cells: Vec<Option<PlayerId>>,
}

impl Board {
    pub open spec fn wf(self) -> bool {
        self.cells.len() == BOARD_SIZE * BOARD_SIZE
    }

    /// The occupant of the cell `(x, y)`.
    pub open spec fn at(self, x: int, y: int) -> Option<PlayerId> {
        self.cells[x * BOARD_SIZE + y]
    }

    pub open spec fn spec_empty(self) -> bool {
        forall|i: int| 0 <= i < self.cells.len() ==> self.cells[i] is None
    }

    pub fn new() -> (r: Self)
        ensures
            r.wf(),
            r.spec_empty(),
    {
        let mut cells: Vec<Option<PlayerId>> = Vec::new();
        let mut i: usize = 0;
        while i < BOARD_SIZE * BOARD_SIZE
            invariant
                i <= BOARD_SIZE * BOARD_SIZE,
                cells.len() == i,
                forall|j: int| 0 <= j < i ==> cells[j] is None,
            decreases BOARD_SIZE * BOARD_SIZE - i,
        {
            cells.push(None);
            i = i + 1;
        }
        Self { cells }
    }

    pub fn get(&self, cell: &Cell) -> (r: Option<PlayerId>)
        requires
            self.wf(),
            cell.wf(),
        ensures
            r == self.at(cell.x as int, cell.y as int),
    {
        self.cells[cell.x * BOARD_SIZE + cell.y]
    }

    /// Marks an empty cell with the given player's id. Occupying a cell
    /// that is already occupied is a contract violation, so it is ruled
    /// out here rather than detected at run time.
    pub fn set(&mut self, cell: &Cell, player_id: PlayerId)
        requires
            old(self).wf(),
            cell.wf(),
            old(self).at(cell.x as int, cell.y as int) is None,
        ensures
            final(self).wf(),
            final(self).cells@ == old(self).cells@.update(
                cell.x * BOARD_SIZE + cell.y,
                Some(player_id),
            ),
            final(self).at(cell.x as int, cell.y as int) == Some(player_id),
            forall|x: int, y: int|
                0 <= x < BOARD_SIZE && 0 <= y < BOARD_SIZE && !(x == cell.x && y == cell.y)
                    ==> final(self).at(x, y) == old(self).at(x, y),
    {
        let idx = cell.x * BOARD_SIZE + cell.y;
        self.cells.set(idx, Some(player_id));
        proof {
            assert forall|x: int, y: int|
                0 <= x < BOARD_SIZE && 0 <= y < BOARD_SIZE && !(x == cell.x && y == cell.y)
                    implies self.at(x, y) == old(self).at(x, y) by {
                assert(x * BOARD_SIZE + y != cell.x * BOARD_SIZE + cell.y) by (nonlinear_arith)
                    requires
                        0 <= x < BOARD_SIZE,
                        0 <= y < BOARD_SIZE,
                        0 <= cell.x < BOARD_SIZE,
                        0 <= cell.y < BOARD_SIZE,
                        !(x == cell.x && y == cell.y),
                        BOARD_SIZE == 3,
                ;
            }
        }
    }

    /// Resets every cell to empty; invoked only at round start.
    pub fn clear(&mut self)
        requires
            old(self).wf(),
        ensures
            final(self).wf(),
            final(self).spec_empty(),
    {
        let mut i: usize = 0;
        while i < self.cells.len()
            invariant
                self.cells.len() == old(self).cells.len(),
                i <= self.cells.len(),
                forall|j: int| 0 <= j < i ==> self.cells[j] is None,
            decreases self.cells.len() - i,
        {
            self.cells.set(i, None);
            i = i + 1;
        }
    }

    pub fn size(&self) -> (r: usize)
        requires
            self.wf(),
        ensures
            r == BOARD_SIZE,
    {
        BOARD_SIZE
    }
}

/// One of the winning lines of the board: a row, a column, or one of
/// the two diagonals.
#[derive(Debug, Copy, Clone, Eq, PartialEq, Structural)]
pub enum Line {
    H(usize),
    V(usize),
    D1,
    D2,
}

impl Line {
    /// Whether the cell at `(x, y)` lies on this line.
    pub open spec fn spec_contains(self, x: int, y: int) -> bool {
        match self {
            Line::H(y0) => y == y0,
            Line::V(x0) => x == x0,
            Line::D1 => x == y,
            Line::D2 => y == BOARD_SIZE - 1 - x,
        }
    }

    pub fn contains(&self, cell: &Cell) -> (r: bool)
        requires
            cell.wf(),
        ensures
            r == self.spec_contains(cell.x as int, cell.y as int),
    {
        match self {
            Line::H(y) => cell.y == *y,
            Line::V(x) => cell.x == *x,
            Line::D1 => cell.x == cell.y,
            Line::D2 => cell.y == BOARD_SIZE - 1 - cell.x,
        }
    }
}

/// The authoritative snapshot of one match in progress.
#[derive(Debug)]
pub struct State {
    /// Initialized by the first invocation of `World::advance`.
    pub clock: Option<AdvanceableClock>,
    pub board: Board,
    pub players: Vec<Player>,
    pub phase: Phase,
    /// Total rounds to play this match; fixed at construction.
    pub rounds: u32,
    /// Zero-based index of the current round.
    pub round: u32,
    /// Count of `Occupy` actions applied so far in the current round.
    pub step: u32,
    /// Which players must still submit `Ready` before the next round
    /// starts: one flag per player id.
    pub required_ready: Vec<bool>,
    /// The line that ended the current round by a win, if any.
    pub win_line: Option<Line>,
}

/// The mathematical model of a `State`: the same data over `Seq` and
/// `int`, without the clock. All contracts of the engine are stated over
/// this view.
#[verifier::ext_equal]
pub struct StateView {
    pub board: Seq<Option<PlayerId>>,
    pub players: Seq<Player>,
    pub phase: Phase,
    pub rounds: int,
    pub round: int,
    pub step: int,
    pub required_ready: Seq<bool>,
    pub win_line: Option<Line>,
}

impl View for State {
    type V = StateView;

    open spec fn view(&self) -> StateView {
        StateView {
            board: self.board.cells@,
            players: self.players@,
            phase: self.phase,
            rounds: self.rounds as int,
            round: self.round as int,
            step: self.step as int,
            required_ready: self.required_ready@,
            win_line: self.win_line,
        }
    }
}

/// The board with every cell empty.
pub open spec fn empty_board() -> Seq<Option<PlayerId>> {
    Seq::new((BOARD_SIZE * BOARD_SIZE) as nat, |i: int| None)
}

/// Every player must ready up again.
pub open spec fn all_required_ready() -> Seq<bool> {
    Seq::new(PLAYER_COUNT as nat, |i: int| true)
}

impl StateView {
    /// Well-formedness apart from the win-count bound: the shapes, the
    /// identities, the counter ranges, and who can still be required to
    /// ready up.
    pub open spec fn wf_base(self) -> bool {
        &&& self.board.len() == BOARD_SIZE * BOARD_SIZE
        &&& (forall|i: int|
            0 <= i < self.board.len() ==> ((#[trigger] self.board[i]) matches Some(p)
                ==> p.wf()))
        &&& self.players.len() == PLAYER_COUNT
        &&& (forall|i: int| 0 <= i < PLAYER_COUNT ==> (#[trigger] self.players[i]).id.idx == i)
        &&& self.required_ready.len() == PLAYER_COUNT
        &&& 1 <= self.rounds <= u32::MAX
        &&& 0 <= self.round < self.rounds
        &&& 0 <= self.step <= BOARD_SIZE * BOARD_SIZE - 1
        &&& (self.game_over() ==> self.nobody_required_ready())
        &&& (self.phase == Phase::Inround ==> self.nobody_required_ready())
        &&& (self.phase != Phase::Outround ==> self.win_line is None)
    }

    /// Well-formedness: every function of the engine keeps it. Rounds are
    /// won at most once, so the win counts never outrun the round counter.
    pub open spec fn wf(self) -> bool {
        &&& self.wf_base()
        &&& self.wins_total() <= self.round + if self.phase == Phase::Outround {
            1int
        } else {
            0int
        }
    }

    /// The terminal predicate: the last round has ended.
    pub open spec fn game_over(self) -> bool {
        self.round == self.rounds - 1 && self.phase == Phase::Outround
    }

    pub open spec fn nobody_required_ready(self) -> bool {
        forall|i: int| 0 <= i < self.required_ready.len() ==> !(#[trigger] self.required_ready[i])
    }

    pub open spec fn everybody_required_ready(self) -> bool {
        forall|i: int| 0 <= i < self.required_ready.len() ==> (#[trigger] self.required_ready[i])
    }

    /// Whose move it is: the turn alternates with each step, and the
    /// starting player alternates with the parity of the round.
    pub open spec fn turn(self) -> int {
        (self.step + self.round) % (PLAYER_COUNT as int)
    }

    /// How many rounds have been won or surrendered so far.
    pub open spec fn wins_total(self) -> int {
        self.players[0].wins + self.players[1].wins
    }

    pub open spec fn occupant(self, x: int, y: int) -> Option<PlayerId> {
        self.board[x * BOARD_SIZE + y]
    }

    /// Ends the current round: the match moves to `Outround`, and unless
    /// it is over, every player must ready up before the next round.
    pub open spec fn end_round(self) -> StateView {
        let t = StateView { phase: Phase::Outround, ..self };
        if t.game_over() {
            t
        } else {
            StateView { required_ready: all_required_ready(), ..t }
        }
    }

    /// Starts a round: coming from `Outround` the per-round data is reset
    /// and the next round begins; coming from `Beginning` the board is
    /// already fresh.
    pub open spec fn start_round(self) -> StateView {
        match self.phase {
            Phase::Beginning => StateView { phase: Phase::Inround, ..self },
            Phase::Outround => StateView {
                phase: Phase::Inround,
                step: 0,
                round: self.round + 1,
                board: empty_board(),
                win_line: None,
                ..self
            },
            Phase::Inround => self,
        }
    }

    /// One player declares readiness; when nobody is left to wait for,
    /// the round starts.
    pub open spec fn ready(self, i: int) -> StateView {
        let t = StateView { required_ready: self.required_ready.update(i, false), ..self };
        if t.nobody_required_ready() {
            t.start_round()
        } else {
            t
        }
    }

    /// The player whose turn it is gives up: the other player scores.
    pub open spec fn surrender(self) -> StateView {
        let other = (self.turn() + 1) % (PLAYER_COUNT as int);
        let p = self.players[other];
        let t = StateView {
            players: self.players.update(other, Player { wins: (p.wins + 1) as u32, ..p }),
            ..self
        };
        t.end_round()
    }

    /// The player whose turn it is wins the round on `line`.
    pub open spec fn win(self, line: Line) -> StateView {
        let p = self.players[self.turn()];
        let t = StateView {
            players: self.players.update(
                self.turn(),
                Player { wins: (p.wins + 1) as u32, ..p },
            ),
            win_line: Some(line),
            ..self
        };
        t.end_round()
    }

    /// The player whose turn it is marks `cell`, and the move is scored:
    /// a completed line wins the round, a full board draws it, and
    /// otherwise the turn passes.
    pub open spec fn occupy(self, cell: Cell) -> StateView {
        let pid = PlayerId { idx: self.turn() as usize };
        let t = StateView {
            board: self.board.update(cell.x * BOARD_SIZE + cell.y, Some(pid)),
            ..self
        };
        match board_check_win(t.board, cell) {
            Some(line) => t.win(line),
            None => if self.step == BOARD_SIZE * BOARD_SIZE - 1 {
                t.end_round()
            } else {
                StateView { step: self.step + 1, ..t }
            },
        }
    }
}

/// The flat board index of the `j`-th cell of `line`, counting `j` along
/// the x axis for rows and diagonals and along the y axis for columns.
pub open spec fn line_point(line: Line, j: int) -> int {
    match line {
        Line::H(y) => j * BOARD_SIZE + y,
        Line::V(x) => x * BOARD_SIZE + j,
        Line::D1 => j * BOARD_SIZE + j,
        Line::D2 => j * BOARD_SIZE + (BOARD_SIZE - 1 - j),
    }
}

/// Whether the first `i` cells of `line` all carry the mark of player `p`.
pub open spec fn line_prefix_matched(
    board: Seq<Option<PlayerId>>,
    line: Line,
    p: PlayerId,
    i: int,
) -> bool {
    forall|j: int| 0 <= j < i ==> #[trigger] board[line_point(line, j)] == Some(p)
}

/// Whether every cell of `line` carries the mark of player `p`.
pub open spec fn line_matched(board: Seq<Option<PlayerId>>, line: Line, p: PlayerId) -> bool {
    forall|x: int, y: int|
        0 <= x < BOARD_SIZE && 0 <= y < BOARD_SIZE && line.spec_contains(x, y)
            ==> board[x * BOARD_SIZE + y] == Some(p)
}

/// The cell-by-cell traversal of a line visits exactly the cells on it.
pub proof fn lemma_line_prefix_matched(board: Seq<Option<PlayerId>>, line: Line, p: PlayerId)
    requires
        board.len() == BOARD_SIZE * BOARD_SIZE,
        line matches Line::H(y) ==> y < BOARD_SIZE,
        line matches Line::V(x) ==> x < BOARD_SIZE,
    ensures
        line_prefix_matched(board, line, p, BOARD_SIZE as int) == line_matched(board, line, p),
{
    if line_prefix_matched(board, line, p, BOARD_SIZE as int) {
        assert forall|x: int, y: int|
            0 <= x < BOARD_SIZE && 0 <= y < BOARD_SIZE && line.spec_contains(x, y)
                implies board[x * BOARD_SIZE + y] == Some(p) by {
            match line {
                Line::H(_) => assert(board[line_point(line, x)] == Some(p)),
                Line::V(_) => assert(board[line_point(line, y)] == Some(p)),
                Line::D1 => assert(board[line_point(line, x)] == Some(p)),
                Line::D2 => assert(board[line_point(line, x)] == Some(p)),
            }
        }
    }
    if line_matched(board, line, p) {
        assert forall|j: int| 0 <= j < BOARD_SIZE implies #[trigger] board[line_point(line, j)]
            == Some(p) by {
            match line {
                Line::H(y) => assert(line.spec_contains(j, y as int)),
                Line::V(x) => assert(line.spec_contains(x as int, j)),
                Line::D1 => assert(line.spec_contains(j, j)),
                Line::D2 => assert(line.spec_contains(j, BOARD_SIZE - 1 - j)),
            }
        }
    }
}

/// The winning line completed by the move on `cell`, if any: the lines
/// through `cell` are examined in the order row, column, first diagonal,
/// second diagonal, and the first fully matched one wins.
pub open spec fn board_check_win(board: Seq<Option<PlayerId>>, cell: Cell) -> Option<Line> {
    match board[cell.x * BOARD_SIZE + cell.y] {
        None => None,
        Some(p) => if line_matched(board, Line::H(cell.y), p) {
            Some(Line::H(cell.y))
        } else if line_matched(board, Line::V(cell.x), p) {
            Some(Line::V(cell.x))
        } else if cell.x == cell.y && line_matched(board, Line::D1, p) {
            Some(Line::D1)
        } else if cell.y == BOARD_SIZE - 1 - cell.x && line_matched(board, Line::D2, p) {
            Some(Line::D2)
        } else {
            None
        },
    }
}

/// Whether `a` may be submitted in state `s` during a round: `Ready` never
/// is, `Surrender` always is, and `Occupy` needs a free, in-range cell.
pub open spec fn action_ok(s: StateView, a: Action) -> bool {
    match a {
        Action::Ready => false,
        Action::Surrender => true,
        Action::Occupy(c) => c.wf() && s.occupant(c.x as int, c.y as int) is None,
    }
}

/// One in-round action applied to the state.
pub open spec fn apply_inround(s: StateView, a: Action) -> StateView {
    match a {
        Action::Surrender => s.surrender(),
        Action::Occupy(c) => s.occupy(c),
        Action::Ready => s,
    }
}

/// During `Inround` an advance consumes the first pending action of the
/// player whose turn it is, if any; this is its legality condition ...
pub open spec fn inround_ok(s: StateView, q: Seq<Action>) -> bool {
    q.len() > 0 ==> action_ok(s, q[0])
}

/// ... and this the state it leads to.
pub open spec fn inround_result(s: StateView, q: Seq<Action>) -> StateView {
    if q.len() > 0 {
        apply_inround(s, q[0])
    } else {
        s
    }
}

/// In a lobby phase, player `i` has an action consumed when the player is
/// still required to ready up and has one pending.
pub open spec fn lobby_consumes(s: StateView, q: Seq<Action>, i: int) -> bool {
    s.required_ready[i] && q.len() > 0
}

/// The lobby visit of player `i`: at most one pending action is consumed,
/// and it must be a `Ready`.
pub open spec fn lobby_step(s: StateView, q: Seq<Action>, i: int) -> StateView {
    if lobby_consumes(s, q, i) {
        s.ready(i)
    } else {
        s
    }
}

/// A lobby advance visits the players in ascending id order.
pub open spec fn lobby_result(s: StateView, q0: Seq<Action>, q1: Seq<Action>) -> StateView {
    lobby_step(lobby_step(s, q0, 0), q1, 1)
}

/// Legality of a lobby advance: whatever gets consumed is a `Ready`.
pub open spec fn lobby_ok(s: StateView, q0: Seq<Action>, q1: Seq<Action>) -> bool {
    &&& (lobby_consumes(s, q0, 0) ==> q0[0] == Action::Ready)
    &&& (lobby_consumes(lobby_step(s, q0, 0), q1, 1) ==> q1[0] == Action::Ready)
}

/// The state after the lobby advance has visited the first `i` players.
pub open spec fn lobby_prefix(s: StateView, q0: Seq<Action>, q1: Seq<Action>, i: int)
    -> StateView {
    if i <= 0 {
        s
    } else if i == 1 {
        lobby_step(s, q0, 0)
    } else {
        lobby_result(s, q0, q1)
    }
}

/// A queue after an advance: its first action is gone when one was consumed.
pub open spec fn consumed(q: Seq<Action>, c: bool) -> Seq<Action> {
    if c {
        q.drop_first()
    } else {
        q
    }
}

/// Legality of one whole advance, whatever the phase.
pub open spec fn advance_ok(s: StateView, q0: Seq<Action>, q1: Seq<Action>) -> bool {
    if s.phase == Phase::Inround {
        if s.turn() == 0 {
            inround_ok(s, q0)
        } else {
            inround_ok(s, q1)
        }
    } else {
        lobby_ok(s, q0, q1)
    }
}

/// The state after one whole advance.
pub open spec fn advance_result(s: StateView, q0: Seq<Action>, q1: Seq<Action>) -> StateView {
    if s.phase == Phase::Inround {
        if s.turn() == 0 {
            inround_result(s, q0)
        } else {
            inround_result(s, q1)
        }
    } else {
        lobby_result(s, q0, q1)
    }
}

/// The two queues after one whole advance.
pub open spec fn advance_queues(s: StateView, q0: Seq<Action>, q1: Seq<Action>)
    -> (Seq<Action>, Seq<Action>) {
    if s.phase == Phase::Inround {
        if s.turn() == 0 {
            (consumed(q0, q0.len() > 0), q1)
        } else {
            (q0, consumed(q1, q1.len() > 0))
        }
    } else {
        (
            consumed(q0, lobby_consumes(s, q0, 0)),
            consumed(q1, lobby_consumes(lobby_step(s, q0, 0), q1, 1)),
        )
    }
}

impl State {
    pub const DEFAULT_ROUNDS: u32 = 5;

    /// Structural well-formedness: the view is well-formed.
    pub open spec fn wf(self) -> bool {
        self@.wf()
    }

    pub fn new(players: Vec<Player>, rounds: u32) -> (r: Self)
        requires
            players.len() == PLAYER_COUNT,
            forall|i: int| 0 <= i < PLAYER_COUNT ==> (#[trigger] players[i]).id.idx == i,
            forall|i: int| 0 <= i < PLAYER_COUNT ==> (#[trigger] players[i]).wins == 0,
            rounds >= 1,
        ensures
            r.wf(),
            r.clock is None,
            r@.board == empty_board(),
            r@.players == players@,
            r@.phase == Phase::Beginning,
            r@.rounds == rounds,
            r@.round == 0,
            r@.step == 0,
            r@.required_ready == all_required_ready(),
            r@.win_line is None,
    {
        let mut required_ready: Vec<bool> = Vec::new();
        let mut i: usize = 0;
        while i < PLAYER_COUNT
            invariant
                i <= PLAYER_COUNT,
                required_ready.len() == i,
                forall|j: int| 0 <= j < i ==> (#[trigger] required_ready[j]),
            decreases PLAYER_COUNT - i,
        {
            required_ready.push(true);
            i = i + 1;
        }
        let s = Self {
            clock: None,
            board: Board::new(),
            players,
            phase: Phase::Beginning,
            rounds,
            round: 0,
            step: 0,
            required_ready,
            win_line: None,
        };
        proof {
            assert(s@.board =~= empty_board());
            assert(s@.required_ready =~= all_required_ready());
        }
        s
    }

    pub fn turn(&self) -> (r: PlayerId)
        requires
            self.wf(),
        ensures
            r.idx == self@.turn(),
            r.wf(),
    {
        let s = self.step as u64 + self.round as u64;
        PlayerId { idx: (s % (PLAYER_COUNT as u64)) as usize }
    }
}

/// An intent a player can submit: `Ready` in the lobby phases,
/// `Occupy` or `Surrender` during a round.
#[derive(Debug, Copy, Clone, Eq, PartialEq, Structural)]
pub enum Action {
    Ready,
    Occupy(Cell),
    Surrender,
}

/// A per-player FIFO mailbox of pending actions. The engine consumes from
/// the front; producers append at the back.
pub trait ActionQueue: Sized {
    /// The id of the player this queue belongs to. The default is a
    /// placeholder, so that unverified implementations outside this crate
    /// need not provide ghost items; a verified one overrides it.
    open spec fn id(&self) -> int {
        0
    }

    /// The pending actions, front first; placeholder default as above.
    open spec fn actions(&self) -> Seq<Action> {
        Seq::empty()
    }

    fn player_id(&self) -> (r: PlayerId)
        ensures
            r.idx == self.id(),
    ;

    fn pop(&mut self) -> (r: Option<Action>)
        ensures
            final(self).id() == old(self).id(),
            match r {
                None => old(self).actions().len() == 0 && final(self).actions()
                    == old(self).actions(),
                Some(a) => old(self).actions().len() > 0 && a == old(self).actions()[0]
                    && final(self).actions() == old(self).actions().drop_first(),
            },
    ;

    /// Appends an action; never fails, the queue is unbounded.
    fn add(&mut self, action: Action)
        ensures
            final(self).id() == old(self).id(),
            final(self).actions() == old(self).actions().push(action),
    ;
}

/// The default mailbox: a plain FIFO of pending actions.
#[derive(Debug)]
pub struct DefaultActionQueue {
    player_id: PlayerId,
    actions: VecDeque<Action>,
}

impl DefaultActionQueue {
    pub fn new(player_id: PlayerId) -> (r: Self)
        ensures
            r.id() == player_id.idx,
            r.actions() == Seq::<Action>::empty(),
    {
        Self { player_id, actions: VecDeque::with_capacity(1) }
    }
}

impl ActionQueue for DefaultActionQueue {
    closed spec fn id(&self) -> int {
        self.player_id.idx as int
    }

    closed spec fn actions(&self) -> Seq<Action> {
        self.actions@
    }

    fn player_id(&self) -> PlayerId {
        self.player_id
    }

    fn pop(&mut self) -> Option<Action> {
        let r = self.actions.pop_front();
        proof {
            if r is Some {
                assert(final(self).actions() =~= old(self).actions().drop_first());
            }
        }
        r
    }

    fn add(&mut self, action: Action) {
        self.actions.push_back(action);
    }
}

/// Whether the cell `(x, y)` is occupied by player `p`.
fn occupant_is(board: &Board, x: usize, y: usize, p: PlayerId) -> (r: bool)
    requires
        board.wf(),
        x < BOARD_SIZE,
        y < BOARD_SIZE,
    ensures
        r == (board.at(x as int, y as int) == Some(p)),
{
    match board.get(&Cell::new(x, y)) {
        Some(q) => q.idx == p.idx,
        None => false,
    }
}

/// The deterministic state-transition engine: consumes queued actions and
/// advances the `State` by the win, draw, turn-order and phase rules.
#[derive(Debug)]
pub struct Logic<A> {
    pub action_queues: Vec<A>,
}

impl<A> Logic<A> where A: ActionQueue {
    /// The queue of each player sits at the index of that player's id.
    pub open spec fn wf(self) -> bool {
        &&& self.action_queues.len() == PLAYER_COUNT
        &&& (forall|i: int| 0 <= i < PLAYER_COUNT ==> (#[trigger] self.action_queues[i]).id() == i)
    }

    pub open spec fn queue(self, i: int) -> Seq<Action> {
        self.action_queues[i].actions()
    }

    pub fn new(action_queues: Vec<A>) -> (r: Self)
        requires
            action_queues.len() == PLAYER_COUNT,
            forall|i: int| 0 <= i < PLAYER_COUNT ==> (#[trigger] action_queues[i]).id() == i,
        ensures
            r.wf(),
            r.action_queues == action_queues,
    {
        Self { action_queues }
    }

    /// The terminal predicate: true exactly when the last round has ended.
    pub fn is_game_over(state: &State) -> (r: bool)
        requires
            state.rounds >= 1,
        ensures
            r == state@.game_over(),
    {
        state.round == state.rounds - 1 && matches!(state.phase, Phase::Outround)
    }

    /// Whether `step` is the last possible move on the board.
    pub fn last_step(step: u32, board: &Board) -> (r: bool)
        requires
            board.wf(),
        ensures
            r == (step == BOARD_SIZE * BOARD_SIZE - 1),
    {
        step == (board.size() * board.size() - 1) as u32
    }

    /// Returns the winning line completed by the move on `last_occupied`,
    /// or `None` if that move wins nothing: the row and the column through
    /// the cell are checked first, then whichever diagonals the cell lies
    /// on, and the first fully matched line is returned.
    pub fn check_win(board: &Board, last_occupied: &Cell) -> (r: Option<Line>)
        requires
            board.wf(),
            last_occupied.wf(),
            board.at(last_occupied.x as int, last_occupied.y as int) is Some,
        ensures
            r == board_check_win(board.cells@, *last_occupied),
    {
        let mut h_match: usize = 0;
        let mut v_match: usize = 0;
        let mut d1_match: usize = 0;
        let mut d2_match: usize = 0;
        let mark = board.get(last_occupied).unwrap();
        let x = last_occupied.x;
        let y = last_occupied.y;
        let size = board.size();
        let mut i: usize = 0;
        while i < size
            invariant
                board.wf(),
                x < BOARD_SIZE,
                y < BOARD_SIZE,
                size == BOARD_SIZE,
                i <= size,
                h_match <= i,
                v_match <= i,
                d1_match <= i,
                d2_match <= i,
                (h_match == i) == line_prefix_matched(board.cells@, Line::H(y), mark, i as int),
                (v_match == i) == line_prefix_matched(board.cells@, Line::V(x), mark, i as int),
                (d1_match == i) == line_prefix_matched(board.cells@, Line::D1, mark, i as int),
                (d2_match == i) == line_prefix_matched(board.cells@, Line::D2, mark, i as int),
            decreases size - i,
        {
            proof {
                assert(line_point(Line::H(y), i as int) == i * BOARD_SIZE + y);
                assert(line_point(Line::V(x), i as int) == x * BOARD_SIZE + i);
                assert(line_point(Line::D1, i as int) == i * BOARD_SIZE + i);
                assert(line_point(Line::D2, i as int) == i * BOARD_SIZE + (BOARD_SIZE - 1 - i));
            }
            if occupant_is(board, i, y, mark) {
                h_match = h_match + 1;
            }
            if occupant_is(board, x, i, mark) {
                v_match = v_match + 1;
            }
            if occupant_is(board, i, i, mark) {
                d1_match = d1_match + 1;
            }
            if occupant_is(board, i, size - 1 - i, mark) {
                d2_match = d2_match + 1;
            }
            i = i + 1;
        }
        proof {
            lemma_line_prefix_matched(board.cells@, Line::H(y), mark);
            lemma_line_prefix_matched(board.cells@, Line::V(x), mark);
            lemma_line_prefix_matched(board.cells@, Line::D1, mark);
            lemma_line_prefix_matched(board.cells@, Line::D2, mark);
        }
        if h_match == size {
            Some(Line::H(y))
        } else if v_match == size {
            Some(Line::V(x))
        } else if x == y && d1_match == size {
            Some(Line::D1)
        } else if y == size - 1 - x && d2_match == size {
            Some(Line::D2)
        } else {
            None
        }
    }

    /// Ends the round: unless the match is over, everyone must re-ready.
    pub fn end_round(state: &mut State)
        requires
            (StateView { win_line: None, ..old(state)@ }).wf_base(),
            old(state).phase == Phase::Inround,
            old(state)@.wins_total() <= old(state)@.round + 1,
        ensures
            final(state).wf(),
            final(state)@ == old(state)@.end_round(),
            final(state).clock == old(state).clock,
    {
        state.phase = Phase::Outround;
        if !Logic::<A>::is_game_over(state) {
            state.required_ready.set(0, true);
            state.required_ready.set(1, true);
            proof {
                assert(state@.required_ready =~= all_required_ready());
            }
        }
        proof {
            assert(state@ =~= old(state)@.end_round());
        }
    }

    /// Starts a round; coming from `Outround` the per-round data is reset.
    pub fn start_round(state: &mut State)
        requires
            old(state).wf(),
            old(state).phase != Phase::Inround,
            old(state).phase == Phase::Outround ==> !old(state)@.game_over(),
            old(state)@.nobody_required_ready(),
        ensures
            final(state).wf(),
            final(state)@ == old(state)@.start_round(),
            final(state).clock == old(state).clock,
    {
        match state.phase {
            Phase::Beginning => {},
            Phase::Outround => {
                state.step = 0;
                state.round = state.round + 1;
                state.board.clear();
                state.win_line = None;
                proof {
                    assert(state@.board =~= empty_board());
                }
            },
            Phase::Inround => {},
        }
        state.phase = Phase::Inround;
        proof {
            assert(state@ =~= old(state)@.start_round());
        }
    }

    /// Applies one `Ready`: the player leaves the required-ready set, and
    /// the round starts once the set is empty.
    pub fn ready(state: &mut State, player_id: PlayerId)
        requires
            old(state).wf(),
            player_id.wf(),
            old(state).phase == Phase::Beginning || old(state).phase == Phase::Outround,
            old(state).phase == Phase::Outround ==> !old(state)@.game_over(),
        ensures
            final(state).wf(),
            final(state)@ == old(state)@.ready(player_id.idx as int),
            final(state).clock == old(state).clock,
    {
        state.required_ready.set(player_id.idx, false);
        if !state.required_ready[0] && !state.required_ready[1] {
            Logic::<A>::start_round(state);
        }
    }

    /// Applies one `Surrender`: the other player scores and the round ends.
    pub fn surrender(state: &mut State)
        requires
            old(state).wf(),
            old(state).phase == Phase::Inround,
        ensures
            final(state).wf(),
            final(state)@ == old(state)@.surrender(),
            final(state).clock == old(state).clock,
    {
        let idx_other_player = (state.turn().idx + 1) % state.players.len();
        let p = state.players[idx_other_player];
        state.players.set(idx_other_player, Player { wins: p.wins + 1, ..p });
        Logic::<A>::end_round(state);
    }

    /// Applies one `Occupy`: marks the cell, then scores the move as a
    /// win, a draw, or a passed turn.
    pub fn occupy(state: &mut State, cell: &Cell)
        requires
            old(state).wf(),
            cell.wf(),
            old(state).phase == Phase::Inround,
            old(state)@.occupant(cell.x as int, cell.y as int) is None,
        ensures
            final(state).wf(),
            final(state)@ == old(state)@.occupy(*cell),
            final(state).clock == old(state).clock,
    {
        let turn = state.turn();
        state.board.set(cell, turn);
        if let Some(win_line) = Logic::<A>::check_win(&state.board, cell) {
            Logic::<A>::win(state, win_line);
        } else if Logic::<A>::last_step(state.step, &state.board) {
            Logic::<A>::draw(state);
        } else {
            state.step = state.step + 1;
        }
    }

    /// Scores a win for the player whose turn it is and ends the round.
    pub fn win(state: &mut State, win_line: Line)
        requires
            old(state).wf(),
            old(state).phase == Phase::Inround,
        ensures
            final(state).wf(),
            final(state)@ == old(state)@.win(win_line),
            final(state).clock == old(state).clock,
    {
        let turn = state.turn();
        let p = state.players[turn.idx];
        state.players.set(turn.idx, Player { wins: p.wins + 1, ..p });
        state.win_line = Some(win_line);
        Logic::<A>::end_round(state);
    }

    /// Ends the round with no winner.
    pub fn draw(state: &mut State)
        requires
            old(state).wf(),
            old(state).phase == Phase::Inround,
        ensures
            final(state).wf(),
            final(state)@ == old(state)@.end_round(),
            final(state).clock == old(state).clock,
    {
        Logic::<A>::end_round(state);
    }

    /// One advance of the state machine: a lobby phase collects `Ready`
    /// intents, `Inround` applies the pending actions of the player whose
    /// turn it is.
    pub fn advance(&mut self, state: &mut State)
        requires
            old(self).wf(),
            old(state).wf(),
            advance_ok(old(state)@, old(self).queue(0), old(self).queue(1)),
        ensures
            final(self).wf(),
            final(state).wf(),
            final(state)@ == advance_result(old(state)@, old(self).queue(0), old(self).queue(1)),
            final(self).queue(0) == advance_queues(
                old(state)@,
                old(self).queue(0),
                old(self).queue(1),
            ).0,
            final(self).queue(1) == advance_queues(
                old(state)@,
                old(self).queue(0),
                old(self).queue(1),
            ).1,
            final(state).clock == old(state).clock,
    {
        match state.phase {
            Phase::Beginning | Phase::Outround => self.advance_beginning_outround(state),
            Phase::Inround => self.advance_inround(state),
        }
    }

    /// The lobby advance: each player still required to ready up has at
    /// most one pending action consumed, which must be a `Ready`; once the
    /// last readiness arrives the round starts.
    pub fn advance_beginning_outround(&mut self, state: &mut State)
        requires
            old(self).wf(),
            old(state).wf(),
            old(state).phase != Phase::Inround,
            lobby_ok(old(state)@, old(self).queue(0), old(self).queue(1)),
        ensures
            final(self).wf(),
            final(state).wf(),
            final(state)@ == lobby_result(old(state)@, old(self).queue(0), old(self).queue(1)),
            final(self).queue(0) == consumed(
                old(self).queue(0),
                lobby_consumes(old(state)@, old(self).queue(0), 0),
            ),
            final(self).queue(1) == consumed(
                old(self).queue(1),
                lobby_consumes(
                    lobby_step(old(state)@, old(self).queue(0), 0),
                    old(self).queue(1),
                    1,
                ),
            ),
            final(state).clock == old(state).clock,
    {
        let ghost s0 = *old(state);
        let ghost q00 = old(self).queue(0);
        let ghost q10 = old(self).queue(1);
        let mut i: usize = 0;
        while i < state.players.len()
            invariant
                self.wf(),
                state.wf(),
                state.players.len() == PLAYER_COUNT,
                i <= PLAYER_COUNT,
                s0.wf(),
                s0.phase != Phase::Inround,
                lobby_ok(s0@, q00, q10),
                state@ == lobby_prefix(s0@, q00, q10, i as int),
                state.clock == s0.clock,
                self.queue(0) == if i >= 1 {
                    consumed(q00, lobby_consumes(s0@, q00, 0))
                } else {
                    q00
                },
                self.queue(1) == if i >= 2 {
                    consumed(q10, lobby_consumes(lobby_step(s0@, q00, 0), q10, 1))
                } else {
                    q10
                },
            decreases PLAYER_COUNT - i,
        {
            let player_id = state.players[i].id;
            if state.required_ready[player_id.idx] {
                let popped = self.action_queues[player_id.idx].pop();
                if let Some(action) = popped {
                    match action {
                        Action::Ready => Logic::<A>::ready(state, player_id),
                        _ => {
                            proof {
                                assert(false);
                            }
                        },
                    }
                }
            }
            i = i + 1;
        }
    }

    /// The in-round advance: drains the pending actions of the player
    /// whose turn it is, until the queue runs dry, the turn passes, or the
    /// phase changes. Every applied action passes the turn or ends the
    /// round, so at most one action is consumed.
    pub fn advance_inround(&mut self, state: &mut State)
        requires
            old(self).wf(),
            old(state).wf(),
            old(state).phase == Phase::Inround,
            inround_ok(old(state)@, old(self).queue(old(state)@.turn())),
        ensures
            final(self).wf(),
            final(state).wf(),
            final(state)@ == inround_result(old(state)@, old(self).queue(old(state)@.turn())),
            final(self).queue(old(state)@.turn()) == consumed(
                old(self).queue(old(state)@.turn()),
                old(self).queue(old(state)@.turn()).len() > 0,
            ),
            final(self).queue(1 - old(state)@.turn()) == old(self).queue(1 - old(state)@.turn()),
            final(state).clock == old(state).clock,
    {
        let ghost s0 = *old(state);
        let ghost qs0 = old(self).action_queues@;
        let player_id = state.turn();
        loop
            invariant_except_break
                self.wf(),
                state.wf(),
                s0.wf(),
                s0.phase == Phase::Inround,
                player_id.idx == s0@.turn(),
                player_id.wf(),
                *state == s0,
                self.action_queues@ == qs0,
                inround_ok(s0@, self.queue(player_id.idx as int)),
            ensures
                self.wf(),
                state.wf(),
                state@ == inround_result(s0@, qs0[player_id.idx as int].actions()),
                self.queue(player_id.idx as int) == consumed(
                    qs0[player_id.idx as int].actions(),
                    qs0[player_id.idx as int].actions().len() > 0,
                ),
                self.queue(1 - player_id.idx as int) == qs0[1 - player_id.idx as int].actions(),
                state.clock == s0.clock,
            decreases self.queue(player_id.idx as int).len(),
        {
            let popped = self.action_queues[player_id.idx].pop();
            match popped {
                None => {
                    break;
                },
                Some(action) => {
                    match action {
                        Action::Surrender => Logic::<A>::surrender(state),
                        Action::Occupy(cell) => Logic::<A>::occupy(state, &cell),
                        Action::Ready => {
                            proof {
                                assert(false);
                            }
                        },
                    }
                    let turn_now = state.turn();
                    if turn_now.idx != player_id.idx || !matches!(state.phase, Phase::Inround) {
                        break;
                    }
                    proof {
                        lemma_apply_inround_moves_on(s0@, action);
                        assert(false);
                    }
                },
            }
        }
    }
}

/// Every legal in-round action passes the turn or ends the round: this is
/// why one advance consumes at most one in-round action.
pub proof fn lemma_apply_inround_moves_on(s: StateView, a: Action)
    requires
        s.wf(),
        s.phase == Phase::Inround,
        action_ok(s, a),
    ensures
        apply_inround(s, a).phase != Phase::Inround || apply_inround(s, a).turn() != s.turn(),
{
}

/// What an AI may submit when polled in state `s`: during a round, a legal
/// action on its own turn; in a lobby phase, a `Ready` while it is still
/// required to ready up.
pub open spec fn ai_act_ok(id: int, s: StateView, a: Action) -> bool {
    if s.phase == Phase::Inround {
        s.turn() == id && action_ok(s, a)
    } else {
        a == Action::Ready && 0 <= id < PLAYER_COUNT && s.required_ready[id]
    }
}

/// An action an AI may submit can be appended to its mailbox without
/// making the coming advance illegal.
pub proof fn lemma_ai_act_keeps_advance_ok(
    s: StateView,
    q0: Seq<Action>,
    q1: Seq<Action>,
    id: int,
    a: Action,
)
    requires
        s.wf(),
        advance_ok(s, q0, q1),
        ai_act_ok(id, s, a),
        0 <= id < PLAYER_COUNT,
    ensures
        advance_ok(
            s,
            if id == 0 {
                q0.push(a)
            } else {
                q0
            },
            if id == 1 {
                q1.push(a)
            } else {
                q1
            },
        ),
{
    if s.phase == Phase::Inround {
        if s.turn() == id {
            let q = if id == 0 { q0 } else { q1 };
            if q.len() > 0 {
                assert(q.push(a)[0] == q[0]);
            } else {
                assert(q.push(a)[0] == a);
            }
        }
    } else {
        let q0a = if id == 0 { q0.push(a) } else { q0 };
        let q1a = if id == 1 { q1.push(a) } else { q1 };
        if lobby_consumes(s, q0a, 0) {
            if id == 0 && q0.len() == 0 {
                assert(q0a[0] == a);
            } else {
                assert(q0a[0] == q0[0]);
            }
        }
        let s1 = lobby_step(s, q0, 0);
        let s1a = lobby_step(s, q0a, 0);
        // player 0's visit never changes whether player 1 must still ready up
        assert(s1.required_ready[1] == s.required_ready[1]);
        assert(s1a.required_ready[1] == s.required_ready[1]);
        if lobby_consumes(s1a, q1a, 1) {
            if id == 1 && q1.len() == 0 {
                assert(q1a[0] == a);
            } else {
                assert(q1a[0] == q1[0]);
                assert(lobby_consumes(s1, q1, 1));
            }
        }
    }
}

/// The queue of player `qid` after the first `k` registered AIs have been
/// polled: each poll may have appended one action to the poller's own
/// mailbox.
pub open spec fn queue_after_acts(
    q: Seq<Action>,
    qid: int,
    ids: Seq<int>,
    acts: Seq<Option<Action>>,
    k: int,
) -> Seq<Action>
    decreases k,
{
    if k <= 0 {
        q
    } else {
        let prev = queue_after_acts(q, qid, ids, acts, k - 1);
        match acts[k - 1] {
            Some(a) => if ids[k - 1] == qid {
                prev.push(a)
            } else {
                prev
            },
            None => prev,
        }
    }
}

/// Extending the record of polled actions does not change the queues that
/// the earlier polls produced.
pub proof fn lemma_queue_after_acts_push(
    q: Seq<Action>,
    qid: int,
    ids: Seq<int>,
    acts: Seq<Option<Action>>,
    r: Option<Action>,
    k: int,
)
    requires
        k <= acts.len(),
    ensures
        queue_after_acts(q, qid, ids, acts.push(r), k) == queue_after_acts(q, qid, ids, acts, k),
    decreases k,
{
    if k > 0 {
        lemma_queue_after_acts_push(q, qid, ids, acts, r, k - 1);
    }
}

/// An artificial player: polled once per tick, it may submit one action
/// legal for the state it sees.
pub trait Ai: Sized {
    /// The id of the player this AI plays for. The default is a
    /// placeholder, so that unverified implementations outside this crate
    /// need not provide ghost items; a verified one overrides it.
    open spec fn id(&self) -> int {
        0
    }

    fn player_id(&self) -> (r: PlayerId)
        ensures
            r.idx == self.id(),
    ;

    /// Polls the AI once: it may return one action to enqueue, legal for
    /// the state it was shown.
    fn act(&mut self, state: &State) -> (r: Option<Action>)
        requires
            state.wf(),
        ensures
            final(self).id() == old(self).id(),
            r matches Some(a) ==> ai_act_ok(old(self).id(), state@, a),
    ;

    /// Tunes the AI's thinking pace (in nanoseconds); purely cosmetic.
    fn set_base_act_delay(&mut self, delay: u64)
        ensures
            final(self).id() == old(self).id(),
    ;
}

/// The per-tick driver: polls every registered AI for an action, then
/// advances the state machine once.
#[derive(Debug)]
pub struct World<A, I> {
    state: State,
    logic: Logic<A>,
    ais: Vec<I>,
}

impl<A, I> World<A, I> where A: ActionQueue, I: Ai {
    pub closed spec fn spec_state(self) -> State {
        self.state
    }

    pub closed spec fn spec_logic(self) -> Logic<A> {
        self.logic
    }

    pub closed spec fn spec_ais(self) -> Vec<I> {
        self.ais
    }

    pub open spec fn wf(self) -> bool {
        &&& self.spec_state().wf()
        &&& self.spec_logic().wf()
        &&& (forall|k: int|
            0 <= k < self.spec_ais().len() ==> 0 <= (#[trigger] self.spec_ais()[k]).id()
                < PLAYER_COUNT)
    }

    /// Whether a player is controlled by a local AI.
    pub open spec fn is_local_ai(p: Player) -> bool {
        p.typ == PlayerType::Local(LocalPlayerType::Ai)
    }

    /// The registered AIs must correspond one to one to the `Local(Ai)`
    /// players.
    pub fn new(state: State, logic: Logic<A>, ais: Vec<I>) -> (r: Self)
        requires
            state.wf(),
            logic.wf(),
            ais@.len() == state@.players.filter(|p: Player| Self::is_local_ai(p)).len(),
            forall|k: int|
                0 <= k < ais.len() ==> 0 <= (#[trigger] ais[k]).id() < PLAYER_COUNT
                    && Self::is_local_ai(state@.players[ais[k].id()]),
        ensures
            r.wf(),
            r.spec_state() == state,
            r.spec_logic() == logic,
            r.spec_ais() == ais,
    {
        Self { state, logic, ais }
    }

    /// The ids of the registered AIs, in registration order.
    pub open spec fn ai_ids(self) -> Seq<int> {
        Seq::new(self.spec_ais().len() as nat, |k: int| self.spec_ais()[k].id())
    }

    /// How one tick moves the world from `pre` to `self`: there is some
    /// legal choice of AI submissions, one optional action per registered
    /// AI, whose enqueueing followed by one advance of the state machine
    /// explains the new state and queues.
    pub open spec fn stepped_from(self, pre: World<A, I>) -> bool {
        exists|acts: Seq<Option<Action>>|
            {
                let ids = pre.ai_ids();
                let n = pre.spec_ais().len() as int;
                let q0 = queue_after_acts(pre.spec_logic().queue(0), 0, ids, acts, n);
                let q1 = queue_after_acts(pre.spec_logic().queue(1), 1, ids, acts, n);
                &&& #[trigger] acts.len() == pre.spec_ais().len()
                &&& (forall|k: int|
                    0 <= k < acts.len() ==> ((#[trigger] acts[k]) matches Some(a)
                        ==> ai_act_ok(ids[k], pre.spec_state()@, a)))
                &&& self.spec_state()@ == advance_result(pre.spec_state()@, q0, q1)
                &&& self.spec_logic().queue(0) == advance_queues(pre.spec_state()@, q0, q1).0
                &&& self.spec_logic().queue(1) == advance_queues(pre.spec_state()@, q0, q1).1
            }
    }

    /// One tick: the clock is created on the first call and advanced to
    /// real time, every AI is polled in registration order, and the state
    /// machine advances once. The state moves to the advance of some legal
    /// choice of AI submissions.
    pub fn advance(&mut self)
        requires
            old(self).wf(),
            advance_ok(
                old(self).spec_state()@,
                old(self).spec_logic().queue(0),
                old(self).spec_logic().queue(1),
            ),
        ensures
            final(self).wf(),
            final(self).spec_ais().len() == old(self).spec_ais().len(),
            forall|k: int|
                0 <= k < final(self).spec_ais().len() ==> (#[trigger] final(self).spec_ais()[k]).id()
                    == old(self).spec_ais()[k].id(),
            final(self).stepped_from(*old(self)),
    {
        if self.state.clock.is_none() {
            // there is no behavior requiring a fixed time step, so the
            // clock advances by real elapsed time
            self.state.clock = Some(AdvanceableClock::new(instant_now()));
        }
        match &mut self.state.clock {
            Some(clock) => clock.advance_to_real_now(),
            None => {
                proof {
                    assert(false);
                }
            },
        }
        let ghost s0 = self.state@;
        let ghost q00 = self.logic.queue(0);
        let ghost q10 = self.logic.queue(1);
        let ghost ids = Seq::new(self.ais@.len(), |k: int| self.ais@[k].id());
        let ghost mut acts: Seq<Option<Action>> = Seq::empty();
        proof {
            assert(self.spec_ais() == old(self).spec_ais());
            assert(forall|j: int|
                0 <= j < ids.len() ==> 0 <= #[trigger] ids[j] < PLAYER_COUNT);
        }
        let mut k: usize = 0;
        while k < self.ais.len()
            invariant
                self.spec_state().wf(),
                self.state@ == s0,
                self.spec_logic().wf(),
                s0.wf(),
                k <= self.ais@.len(),
                acts.len() == k,
                self.ais@.len() == ids.len(),
                ids == Seq::new(
                    old(self).spec_ais()@.len(),
                    |j: int| old(self).spec_ais()@[j].id(),
                ),
                forall|j: int|
                    0 <= j < self.ais@.len() ==> (#[trigger] self.ais@[j]).id() == ids[j],
                forall|j: int| 0 <= j < ids.len() ==> 0 <= #[trigger] ids[j] < PLAYER_COUNT,
                forall|j: int|
                    0 <= j < k ==> ((#[trigger] acts[j]) matches Some(a)
                        ==> ai_act_ok(ids[j], s0, a)),
                self.logic.queue(0) == queue_after_acts(q00, 0, ids, acts, k as int),
                self.logic.queue(1) == queue_after_acts(q10, 1, ids, acts, k as int),
                advance_ok(s0, self.logic.queue(0), self.logic.queue(1)),
                q00 == old(self).spec_logic().queue(0),
                q10 == old(self).spec_logic().queue(1),
            decreases self.ais@.len() - k,
        {
            let r = self.ais[k].act(&self.state);
            if let Some(action) = r {
                let pid = self.ais[k].player_id();
                self.logic.action_queues[pid.idx].add(action);
                proof {
                    lemma_ai_act_keeps_advance_ok(
                        s0,
                        queue_after_acts(q00, 0, ids, acts, k as int),
                        queue_after_acts(q10, 1, ids, acts, k as int),
                        pid.idx as int,
                        action,
                    );
                }
            }
            proof {
                let prev_acts = acts;
                acts = acts.push(r);
                lemma_queue_after_acts_push(q00, 0, ids, prev_acts, r, k as int);
                lemma_queue_after_acts_push(q10, 1, ids, prev_acts, r, k as int);
            }
            k = k + 1;
        }
        self.logic.advance(&mut self.state);
        proof {
            assert(forall|j: int|
                0 <= j < self.spec_ais()@.len() ==> 0 <= (#[trigger] self.spec_ais()@[j]).id()
                    < PLAYER_COUNT);
            assert(forall|j: int|
                0 <= j < self.spec_ais()@.len() ==> (#[trigger] self.spec_ais()@[j]).id()
                    == old(self).spec_ais()@[j].id());
            let n = old(self).spec_ais().len() as int;
            let qq0 = queue_after_acts(old(self).spec_logic().queue(0), 0, ids, acts, n);
            let qq1 = queue_after_acts(old(self).spec_logic().queue(1), 1, ids, acts, n);
            assert(acts.len() == old(self).spec_ais().len());
            assert(final(self).spec_state()@ == advance_result(old(self).spec_state()@, qq0, qq1));
        }
    }

    pub fn state(&self) -> (r: &State)
        ensures
            r == self.spec_state(),
    {
        &self.state
    }

    pub fn ais(&mut self) -> (r: &mut Vec<I>)
        ensures
            *r == old(self).spec_ais(),
            final(self).spec_ais() == *final(r),
            final(self).spec_state() == old(self).spec_state(),
            final(self).spec_logic() == old(self).spec_logic(),
    {
        &mut self.ais
    }
}

} // verus!

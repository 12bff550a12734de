//! Engine behavior, one advance at a time and over whole scripts.

use tic_tac_toe::game::Action;
use tic_tac_toe::game::ActionQueue;
use tic_tac_toe::game::Board;
use tic_tac_toe::game::Cell;
use tic_tac_toe::game::DefaultActionQueue;
use tic_tac_toe::game::Line;
use tic_tac_toe::game::LocalPlayerType;
use tic_tac_toe::game::Logic;
use tic_tac_toe::game::Phase;
use tic_tac_toe::game::Player;
use tic_tac_toe::game::PlayerId;
use tic_tac_toe::game::PlayerType;
use tic_tac_toe::game::State;

fn x() -> Option<PlayerId> {
    Some(PlayerId::new(0))
}

fn o() -> Option<PlayerId> {
    Some(PlayerId::new(1))
}

fn e() -> Option<PlayerId> {
    None
}

fn board(cells: [[Option<PlayerId>; 3]; 3]) -> Board {
    let mut flat = Vec::new();
    for column in cells {
        for cell in column {
            flat.push(cell);
        }
    }
    Board { cells: flat }
}

fn state_with_board(b: Board) -> State {
    let mut state = State::new(
        vec![
            Player::new(PlayerId::new(0), PlayerType::Local(LocalPlayerType::Human)),
            Player::new(PlayerId::new(1), PlayerType::Local(LocalPlayerType::Human)),
        ],
        State::DEFAULT_ROUNDS,
    );
    state.board = b;
    state.phase = Phase::Inround;
    state.required_ready = vec![false, false];
    state
}

fn required_ready_from_players(players: &[Player]) -> Vec<bool> {
    players.iter().map(|_| true).collect()
}

fn assert_state_eq(actual: &State, expected: &State) {
    assert_eq!(actual.board.cells, expected.board.cells);
    assert_eq!(actual.players, expected.players);
    assert_eq!(actual.phase, expected.phase);
    assert_eq!(actual.rounds, expected.rounds);
    assert_eq!(actual.round, expected.round);
    assert_eq!(actual.step, expected.step);
    assert_eq!(actual.required_ready, expected.required_ready);
    assert_eq!(actual.win_line, expected.win_line);
}

fn queue(id: usize, actions: Vec<Action>) -> DefaultActionQueue {
    let mut q = DefaultActionQueue::new(PlayerId::new(id));
    for a in actions {
        q.add(a);
    }
    q
}

#[test]
fn test_advance__no_action() {
    let mut state = state_with_board(board([
        [e(), e(), e()],
        [e(), e(), x()],
        [e(), e(), e()],
    ]));
    Logic::new(vec![
        queue(0, vec![]),
        queue(1, vec![]),
    ])
    .advance(&mut state);
    assert_state_eq(
        &state,
        &state_with_board(board([
            [e(), e(), e()],
            [e(), e(), x()],
            [e(), e(), e()],
        ])),
    );
}

#[test]
fn test_advance__occupy_action() {
    let mut state = state_with_board(Board::new());
    Logic::new(vec![
        queue(0, vec![Action::Occupy(Cell::new(1, 2))]),
        queue(1, vec![]),
    ])
    .advance(&mut state);
    let expected_state = {
        let mut expected_state = state_with_board(board([
            [e(), e(), e()],
            [e(), e(), x()],
            [e(), e(), e()],
        ]));
        expected_state.step = 1;
        expected_state
    };
    assert_state_eq(&state, &expected_state);
}

#[test]
fn test_advance__surrender_action() {
    let mut state = state_with_board(Board::new());
    let expected_required_ready = required_ready_from_players(&state.players);
    Logic::new(vec![
        queue(0, vec![Action::Surrender]),
        queue(1, vec![]),
    ])
    .advance(&mut state);
    let expected_state = {
        let mut expected_state = state_with_board(Board::new());
        expected_state.players[1].wins = 1;
        expected_state.phase = Phase::Outround;
        expected_state.required_ready = expected_required_ready;
        expected_state
    };
    assert_state_eq(&state, &expected_state);
}

#[test]
fn test_advance__win() {
    let mut state = {
        let mut state = state_with_board(board([
            [x(), e(), e()],
            [o(), x(), o()],
            [e(), e(), e()],
        ]));
        state.step = 4;
        state
    };
    let expected_required_ready = required_ready_from_players(&state.players);
    Logic::new(vec![
        queue(0, vec![Action::Occupy(Cell::new(2, 2))]),
        queue(1, vec![]),
    ])
    .advance(&mut state);
    let expected_state = {
        let mut expected_state = state_with_board(board([
            [x(), e(), e()],
            [o(), x(), o()],
            [e(), e(), x()],
        ]));
        expected_state.players[0].wins = 1;
        expected_state.phase = Phase::Outround;
        expected_state.step = 4;
        expected_state.required_ready = expected_required_ready;
        expected_state.win_line = Some(Line::D1);
        expected_state
    };
    assert_state_eq(&state, &expected_state);
}

#[test]
fn test_advance__draw() {
    let mut state = {
        let mut state = state_with_board(board([
            [o(), x(), o()],
            [o(), x(), x()],
            [x(), o(), e()],
        ]));
        state.step = 8;
        state
    };
    let expected_required_ready = required_ready_from_players(&state.players);
    Logic::new(vec![
        queue(0, vec![Action::Occupy(Cell::new(2, 2))]),
        queue(1, vec![]),
    ])
    .advance(&mut state);
    let expected_state = {
        let mut expected_state = state_with_board(board([
            [o(), x(), o()],
            [o(), x(), x()],
            [x(), o(), x()],
        ]));
        expected_state.phase = Phase::Outround;
        expected_state.step = 8;
        expected_state.required_ready = expected_required_ready;
        expected_state
    };
    assert_state_eq(&state, &expected_state);
}

#[test]
fn test_advance__ready_action__outround() {
    let mut state = {
        let mut state = state_with_board(board([
            [x(), o(), x()],
            [e(), x(), o()],
            [x(), e(), o()],
        ]));
        state.players[0].wins = 1;
        state.phase = Phase::Outround;
        state.step = 6;
        state.required_ready = vec![true, false];
        state
    };
    Logic::new(vec![
        queue(0, vec![Action::Ready]),
        queue(1, vec![]),
    ])
    .advance(&mut state);
    let expected_state = {
        let mut expected_state = state_with_board(Board::new());
        expected_state.players[0].wins = 1;
        expected_state.phase = Phase::Inround;
        expected_state.round = 1;
        expected_state.step = 0;
        expected_state
    };
    assert_state_eq(&state, &expected_state);
}

#[test]
fn test_advance__ready_action__beginning() {
    let mut state = {
        let mut state = state_with_board(Board::new());
        state.phase = Phase::Beginning;
        state.required_ready = vec![true, false];
        state
    };
    Logic::new(vec![
        queue(0, vec![Action::Ready]),
        queue(1, vec![]),
    ])
    .advance(&mut state);
    let expected_state = {
        let mut expected_state = state_with_board(Board::new());
        expected_state.phase = Phase::Inround;
        expected_state.round = 0;
        expected_state.step = 0;
        expected_state
    };
    assert_state_eq(&state, &expected_state);
}

#[test]
fn test_advance__stop_at_phase_change() {
    let mut state = state_with_board(Board::new());
    let expected_required_ready = required_ready_from_players(&state.players);
    let mut logic = Logic::new(vec![
        queue(
            0,
            vec![
                Action::Surrender,
                Action::Occupy(Cell::new(0, 0)),
            ],
        ),
        queue(1, vec![]),
    ]);
    logic.advance(&mut state);
    let expected_state = {
        let mut expected_state = state_with_board(Board::new());
        expected_state.players[1].wins = 1;
        expected_state.phase = Phase::Outround;
        expected_state.required_ready = expected_required_ready;
        expected_state
    };
    assert_state_eq(&state, &expected_state);
    assert_ne!(logic.action_queues[0].pop(), None);
}

#[test]
fn test_win() {
    let mut state = {
        let mut state = state_with_board(Board::new());
        state.phase = Phase::Beginning;
        state.required_ready = required_ready_from_players(&state.players);
        state
    };
    let expected_required_ready = required_ready_from_players(&state.players);
    let act_queue_p0 = {
        let mut queue = DefaultActionQueue::new(PlayerId::new(0));
        queue.add(Action::Ready);
        queue.add(Action::Occupy(Cell::new(1, 1)));
        queue.add(Action::Occupy(Cell::new(0, 0)));
        queue.add(Action::Occupy(Cell::new(0, 2)));
        queue.add(Action::Occupy(Cell::new(2, 0)));
        queue
    };
    let act_queue_p1 = {
        let mut queue = DefaultActionQueue::new(PlayerId::new(1));
        queue.add(Action::Ready);
        queue.add(Action::Occupy(Cell::new(1, 2)));
        queue.add(Action::Occupy(Cell::new(2, 2)));
        queue.add(Action::Occupy(Cell::new(0, 1)));
        queue
    };
    let actions_cnt = 9;
    let mut logic = Logic::new(vec![act_queue_p0, act_queue_p1]);
    for _ in 0..actions_cnt {
        logic.advance(&mut state);
    }
    let expected_state = {
        let mut expected_state = state_with_board(board([
            [x(), o(), x()],
            [e(), x(), o()],
            [x(), e(), o()],
        ]));
        expected_state.players[0].wins = 1;
        expected_state.phase = Phase::Outround;
        expected_state.round = 0;
        expected_state.step = 6;
        expected_state.required_ready = expected_required_ready;
        expected_state.win_line = Some(Line::D2);
        expected_state
    };
    assert_state_eq(&state, &expected_state);
    logic.action_queues[0].add(Action::Ready);
    logic.action_queues[1].add(Action::Ready);
    logic.advance(&mut state);
    assert_eq!(state.win_line, None);
}

#[test]
fn test_draw() {
    let mut state = {
        let mut state = state_with_board(Board::new());
        state.round = 1;
        state
    };
    let expected_required_ready = required_ready_from_players(&state.players);
    let act_queue_p0 = queue(
        0,
        vec![
            Action::Occupy(Cell::new(0, 0)),
            Action::Occupy(Cell::new(1, 0)),
            Action::Occupy(Cell::new(0, 2)),
            Action::Occupy(Cell::new(2, 1)),
        ],
    );
    let act_queue_p1 = queue(
        1,
        vec![
            Action::Occupy(Cell::new(1, 1)),
            Action::Occupy(Cell::new(1, 2)),
            Action::Occupy(Cell::new(2, 0)),
            Action::Occupy(Cell::new(0, 1)),
            Action::Occupy(Cell::new(2, 2)),
        ],
    );
    let mut logic = Logic::new(vec![act_queue_p0, act_queue_p1]);
    let actions_cnt = 15;
    for _ in 0..actions_cnt {
        logic.advance(&mut state);
    }
    let expected_state = {
        let mut expected_state = state_with_board(board([
            [x(), o(), x()],
            [x(), o(), o()],
            [o(), x(), o()],
        ]));
        expected_state.phase = Phase::Outround;
        expected_state.round = 1;
        expected_state.step = 8;
        expected_state.required_ready = expected_required_ready;
        expected_state
    };
    assert_state_eq(&state, &expected_state);
}

#[test]
fn test_add_pop() {
    let mut action_queue = DefaultActionQueue::new(PlayerId::new(0));
    assert_eq!(action_queue.pop(), None);
    action_queue.add(Action::Ready);
    action_queue.add(Action::Surrender);
    assert_eq!(action_queue.pop(), Some(Action::Ready));
    assert_eq!(action_queue.pop(), Some(Action::Surrender));
    assert_eq!(action_queue.pop(), None);
    assert_eq!(action_queue.pop(), None);
}

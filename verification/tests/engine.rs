use pleco::Board;
use tide_pleco::{Manager, State};

/// Plays `plies` moves from the start, each time the move at `pick` modulo
/// the number of legal moves, and hands back the texts it came through.
fn walk(state: &mut State, plies: usize, pick: usize) -> Vec<String> {
    let mut texts = vec![state.fen()];
    for step in 0..plies {
        let moves = state.get_moves();
        if moves.is_empty() {
            break;
        }
        let uci = moves[(pick + step) % moves.len()].clone();
        assert_eq!(state.apply_move(uci), Ok(()));
        texts.push(state.fen());
    }
    texts
}

#[test]
fn a_position_reached_by_play_reads_back_as_itself() {
    for pick in [0, 3, 7, 11] {
        let mut played = State::start();
        for text in walk(&mut played, 40, pick) {
            let mut read = State::start();
            assert_eq!(read.from_fen(text.clone()), Ok(()));
            assert_eq!(read.fen(), text);
        }
    }
}

#[test]
fn legal_moves_depend_on_the_position_text_alone() {
    for pick in [1, 5, 13] {
        let mut played = State::start();
        for _ in 0..40 {
            let moves = played.get_moves();
            if moves.is_empty() {
                break;
            }
            let mut read = State::start();
            assert_eq!(read.from_fen(played.fen()), Ok(()));
            assert_eq!(read.get_moves(), moves);
            let uci = moves[pick % moves.len()].clone();
            assert_eq!(played.apply_move(uci.clone()), Ok(()));
            assert_eq!(read.apply_move(uci), Ok(()));
            assert_eq!(read.fen(), played.fen());
        }
    }
}

#[test]
fn hash_and_value_depend_on_the_position_text_alone() {
    for pick in [2, 6, 10] {
        let mut played = State::start();
        for _ in 0..40 {
            let walked = played.snapshot();
            let mut state = State::start();
            assert_eq!(state.from_fen(played.fen()), Ok(()));
            let read = state.snapshot();
            assert_eq!(walked.zobrist(), read.zobrist());
            let mut by_play = Manager::init(0);
            let mut by_text = Manager::init(0);
            by_play.add_safely(7, &walked, 1, 0, 1);
            by_text.add_safely(7, &read, 1, 0, 1);
            assert_eq!(by_play.entry(7), by_text.entry(7));
            let moves = played.get_moves();
            if moves.is_empty() {
                break;
            }
            assert_eq!(played.apply_move(moves[pick % moves.len()].clone()), Ok(()));
        }
    }
}

#[test]
fn search_depends_on_the_position_text_alone() {
    let mut played = State::start();
    for text in walk(&mut played, 12, 4) {
        let mut first = State::start();
        let mut second = State::start();
        assert_eq!(first.from_fen(text.clone()), Ok(()));
        assert_eq!(second.from_fen(text.clone()), Ok(()));
        let a = first.best_move(&mut Manager::init(0), 2);
        let b = second.best_move(&mut Manager::init(0), 2);
        assert_eq!(a, b);
        assert_eq!(first.fen(), second.fen());
    }
}

#[test]
fn a_transposition_gives_the_same_text_and_the_same_hash() {
    let mut one = Board::start_pos();
    for uci in ["g1f3", "g8f6", "b1c3", "b8c6"] {
        assert!(one.apply_uci_move(uci));
    }
    let mut other = Board::start_pos();
    for uci in ["b1c3", "b8c6", "g1f3", "g8f6"] {
        assert!(other.apply_uci_move(uci));
    }
    let a = State::new(one);
    let b = State::new(other);
    assert_eq!(a.fen(), b.fen());
    assert_eq!(a.get_moves(), b.get_moves());
    let mut manager = Manager::init(0);
    let found = manager.check_or_find_dumb_best(&a.snapshot(), 2);
    assert_eq!(manager.cached(b.snapshot().zobrist(), 2), Some(found));
    assert_eq!(manager.check_or_find_dumb_best(&b.snapshot(), 2), found);
    assert_eq!(manager.entries(), 1);
}

#[test]
fn every_position_of_a_game_is_playable() {
    for pick in [0, 2, 9] {
        let mut state = State::start();
        for _ in 0..60 {
            assert!(tide_pleco::soundness::board_is_playable(&state.snapshot()));
            let moves = state.get_moves();
            if moves.is_empty() {
                break;
            }
            assert_eq!(state.apply_move(moves[pick % moves.len()].clone()), Ok(()));
        }
    }
}

/// Sets `text`, and where it is taken lists the moves, plays each of them
/// once and lets the engine search. Nothing of this may stop the program,
/// whatever the text.
fn exercise(state: &mut State, text: &str) -> bool {
    if state.from_fen(text.to_string()).is_err() {
        return false;
    }
    let moves = state.get_moves();
    assert_eq!(moves.is_empty(), state.is_terminal());
    let mut manager = Manager::init(0);
    if state.is_over() {
        for uci in moves.iter() {
            assert_eq!(state.apply_move(uci.clone()), Err(tide_pleco::GameError::GameOver));
        }
        assert_eq!(state.best_move(&mut manager, 2), Err(tide_pleco::GameError::GameOver));
        assert_eq!(state.fen(), state.snapshot().fen());
        return true;
    }
    for uci in moves.iter() {
        assert_eq!(state.apply_move(uci.clone()), Ok(()));
        let _ = state.get_moves();
        assert_eq!(state.undo(), Ok(()));
    }
    assert_eq!(state.best_move(&mut manager, 2), Ok(()));
    assert_eq!(state.undo(), Ok(()));
    true
}

#[test]
fn texts_one_character_off_are_taken_or_refused() {
    let marks = [
        'K', 'k', 'Q', 'q', 'R', 'r', 'B', 'b', 'N', 'n', 'P', 'p', '1', '2', '8', '9', '0', '/',
        '-', ' ', 'w', 'a', 'e', 'h', '3', '6', 'x',
    ];
    let bases = [
        "rnbqkbnr/pppppppp/8/8/8/8/PPPPPPPP/RNBQKBNR w KQkq - 0 1",
        "r3k2r/p1ppqpb1/bn2pnp1/3PN3/1p2P3/2N2Q1p/PPPBBPPP/R3K2R w KQkq - 0 10",
        "rnbqkbnr/ppp1pppp/8/8/3pP3/8/PPPP1PPP/RNBQKBNR b KQkq e3 0 3",
        "8/2p5/3p4/KP5r/1R3p1k/8/4P1P1/8 w - - 0 11",
    ];
    let mut state = State::start();
    let mut taken = 0;
    let mut refused = 0;
    for base in bases {
        let letters: Vec<char> = base.chars().collect();
        for at in 0..letters.len() {
            for mark in marks {
                let mut changed = letters.clone();
                changed[at] = mark;
                let text: String = changed.into_iter().collect();
                if exercise(&mut state, &text) {
                    taken += 1;
                } else {
                    refused += 1;
                }
            }
        }
    }
    assert!(taken > 0);
    assert!(refused > 0);
}

#[test]
fn texts_with_a_piece_added_or_removed_are_taken_or_refused() {
    let base = "r3k2r/8/8/8/8/8/8/R3K2R";
    let tails = [" w KQkq - 0 1", " b KQkq - 0 1", " w - - 0 1", " b Kq - 5 20"];
    let pieces = ['Q', 'q', 'R', 'r', 'N', 'n', 'B', 'b', 'P', 'p', 'K', 'k'];
    let mut state = State::start();
    let mut taken = 0;
    for rank in 1..7 {
        for file in 0..8 {
            for piece in pieces {
                // One more piece on an empty rank between the two back ranks.
                let mut ranks: Vec<String> = base.split('/').map(String::from).collect();
                let mut row = String::new();
                if file > 0 {
                    row.push_str(&file.to_string());
                }
                row.push(piece);
                if file < 7 {
                    row.push_str(&(7 - file).to_string());
                }
                ranks[rank] = row;
                for tail in tails {
                    let text = format!("{}{}", ranks.join("/"), tail);
                    if exercise(&mut state, &text) {
                        taken += 1;
                    }
                }
            }
        }
    }
    assert!(taken > 0);
}

/// The next number of a fixed pseudo-random sequence.
fn next_number(seed: &mut u64) -> usize {
    *seed = seed
        .wrapping_mul(6364136223846793005)
        .wrapping_add(1442695040888963407);
    (*seed >> 33) as usize
}

/// Changes up to three characters of `base`, each to one of `marks`.
fn scramble(base: &str, marks: &[char], seed: &mut u64) -> String {
    let mut letters: Vec<char> = base.chars().collect();
    let changes = 1 + next_number(seed) % 3;
    for _ in 0..changes {
        let at = next_number(seed) % letters.len();
        letters[at] = marks[next_number(seed) % marks.len()];
    }
    letters.into_iter().collect()
}

fn scrambled_texts_are_taken_or_refused(base: &str, mut seed: u64) {
    let marks = [
        'K', 'k', 'Q', 'q', 'R', 'r', 'B', 'b', 'N', 'n', 'P', 'p', '1', '2', '3', '7', '8', '9',
        '0', '/', '-', ' ', 'w', 'b', 'a', 'c', 'e', 'h', '3', '6',
    ];
    let mut state = State::start();
    let mut taken = 0;
    for _ in 0..4000 {
        let text = scramble(base, &marks, &mut seed);
        if exercise(&mut state, &text) {
            taken += 1;
        }
    }
    assert!(taken > 0);
}

#[test]
fn scrambled_opening_texts_are_taken_or_refused() {
    scrambled_texts_are_taken_or_refused(
        "rnbqkbnr/pppppppp/8/8/8/8/PPPPPPPP/RNBQKBNR w KQkq - 0 1",
        1,
    );
}

#[test]
fn scrambled_middle_game_texts_are_taken_or_refused() {
    scrambled_texts_are_taken_or_refused(
        "r3k2r/p1ppqpb1/bn2pnp1/3PN3/1p2P3/2N2Q1p/PPPBBPPP/R3K2R w KQkq - 0 10",
        2,
    );
}

#[test]
fn scrambled_en_passant_texts_are_taken_or_refused() {
    scrambled_texts_are_taken_or_refused(
        "rnbqkbnr/ppp1pppp/8/8/3pP3/8/PPPP1PPP/RNBQKBNR b KQkq e3 0 3",
        3,
    );
}

#[test]
fn scrambled_end_game_texts_are_taken_or_refused() {
    scrambled_texts_are_taken_or_refused("8/2p5/3p4/KP5r/1R3p1k/8/4P1P1/8 w - - 0 11", 4);
    scrambled_texts_are_taken_or_refused("4k3/P6P/8/8/8/8/p6p/4K3 b - - 0 1", 5);
}

#[test]
fn long_games_run_to_their_end() {
    for start in 1..6u64 {
        let mut seed = start;
        let mut state = State::start();
        let mut manager = Manager::init(0);
        let mut plies = 0;
        while plies < 300 {
            let moves = state.get_moves();
            if moves.is_empty() {
                assert!(state.is_terminal());
                assert_eq!(state.best_move(&mut manager, 2), Err(tide_pleco::GameError::GameOver));
                break;
            }
            if plies % 25 == 24 {
                assert_eq!(state.best_move(&mut manager, 2), Ok(()));
            } else {
                let uci = moves[next_number(&mut seed) % moves.len()].clone();
                assert_eq!(state.apply_move(uci), Ok(()));
            }
            plies += 1;
        }
        // And all the way back.
        for _ in 0..plies {
            assert_eq!(state.undo(), Ok(()));
        }
        assert_eq!(state.fen(), "rnbqkbnr/pppppppp/8/8/8/8/PPPPPPPP/RNBQKBNR w KQkq - 0 1");
        assert_eq!(state.undo(), Err(tide_pleco::GameError::NoHistory));
    }
}

use pleco::Board;
use tide_pleco::soundness::{army_is_sound, board_has_room, board_is_playable, read_square};
use tide_pleco::Manager;
use tide_pleco::{GameError, State};

const CASTLING_BOTH_WAYS: &str = "r3k2r/8/8/8/8/8/8/R3K2R w KQkq - 0 1";

#[test]
fn positions_from_play_are_playable() {
    assert!(board_is_playable(&Board::start_pos()));
    assert!(board_is_playable(&Board::from_fen(CASTLING_BOTH_WAYS).unwrap()));
    assert!(board_is_playable(&Board::from_fen("7k/8/8/8/8/8/8/K7 b - - 0 1").unwrap()));
    let mut board = Board::start_pos();
    for uci in ["e2e4", "e7e5", "g1f3", "b8c6", "f1c4", "f8c5", "e1g1"] {
        assert!(board.apply_uci_move(uci));
        assert!(board_is_playable(&board));
    }
}

#[test]
fn side_to_move_may_be_in_check() {
    // Black is in check from the rook and has to answer it.
    let board = Board::from_fen("k7/8/8/8/8/8/8/R3K3 b - - 0 1").unwrap();
    assert!(board.in_check());
    assert!(board_is_playable(&board));
    // Checkmate is a position like any other.
    let mated = "rnb1kbnr/pppp1ppp/8/4p3/6Pq/5P2/PPPPP2P/RNBQKBNR w KQkq - 1 3";
    assert!(board_is_playable(&Board::from_fen(mated).unwrap()));
}

#[test]
fn waiting_side_in_check_is_not_playable() {
    // White is to move and could take the black king.
    let board = Board::from_fen("k7/8/8/8/8/8/8/R3K3 w - - 0 1").unwrap();
    assert!(!board_is_playable(&board));
    // The two kings stand next to each other.
    let board = Board::from_fen("8/8/8/3kK3/8/8/8/8 w - - 0 1").unwrap();
    assert!(!board_is_playable(&board));
}

#[test]
fn castling_right_without_its_king_at_home_is_not_playable() {
    for fen in [
        "4k3/8/8/8/8/8/4K3/7R w K - 0 1",
        "4k3/8/8/8/8/8/4K3/R7 w Q - 0 1",
        "8/4k3/8/8/8/8/8/4K2r b k - 0 1",
        "r7/4k3/8/8/8/8/8/4K3 b q - 0 1",
    ] {
        assert!(!board_is_playable(&Board::from_fen(fen).unwrap()));
    }
}

#[test]
fn castling_right_without_its_rook_at_home_is_not_playable() {
    for fen in [
        "4k3/8/8/8/8/8/8/4K3 w K - 0 1",
        "4k3/8/8/8/8/8/8/4K2R w Q - 0 1",
        "4k3/8/8/8/8/8/8/4K2r w K - 0 1",
        "4k2R/8/8/8/8/8/8/4K3 b k - 0 1",
        "r3k3/8/8/8/8/8/8/4K3 b k - 0 1",
    ] {
        assert!(!board_is_playable(&Board::from_fen(fen).unwrap()));
    }
}

#[test]
fn castling_rights_are_looked_at_one_by_one() {
    for fen in [
        "4k3/8/8/8/8/8/8/4K2R w K - 0 1",
        "4k3/8/8/8/8/8/8/R3K3 w Q - 0 1",
        "4k2r/8/8/8/8/8/8/4K3 b k - 0 1",
        "r3k3/8/8/8/8/8/8/4K3 b q - 0 1",
        "r3k3/8/8/8/8/8/8/4K2R w Kq - 0 1",
    ] {
        assert!(board_is_playable(&Board::from_fen(fen).unwrap()));
    }
}

#[test]
fn unplayable_texts_are_refused_and_change_nothing() {
    let mut state = State::start();
    let before = state.fen();
    for fen in [
        "k7/8/8/8/8/8/8/R3K3 w - - 0 1",
        "8/8/8/3kK3/8/8/8/8 b - - 0 1",
        "4k3/8/8/8/8/8/4K3/7R w K - 0 1",
        "4k3/8/8/8/8/8/8/4K3 w KQkq - 0 1",
    ] {
        assert_eq!(state.from_fen(fen.to_string()), Err(GameError::InvalidPositionFormat));
        assert_eq!(state.fen(), before);
    }
    assert_eq!(state.from_fen(CASTLING_BOTH_WAYS.to_string()), Ok(()));
    assert_eq!(state.get_moves().len(), 26);
}

#[test]
fn start_is_the_starting_position() {
    let mut state = State::start();
    assert_eq!(state.fen(), "rnbqkbnr/pppppppp/8/8/8/8/PPPPPPPP/RNBQKBNR w KQkq - 0 1");
    assert!(state.get_routes().is_empty());
    assert_eq!(state.undo(), Err(GameError::NoHistory));
}

#[test]
fn read_square_numbers_squares_from_a1() {
    assert_eq!(read_square("a1"), Some(0));
    assert_eq!(read_square("h1"), Some(7));
    assert_eq!(read_square("a2"), Some(8));
    assert_eq!(read_square("e3"), Some(20));
    assert_eq!(read_square("d6"), Some(43));
    assert_eq!(read_square("h8"), Some(63));
}

#[test]
fn read_square_takes_nothing_but_a_square() {
    for field in ["-", "", "e", "e33", "i3", "e9", "e0", "E3", "3e", "  "] {
        assert_eq!(read_square(field), None);
    }
}

#[test]
fn en_passant_square_must_be_empty() {
    let taken_in_passing = "rnbqkbnr/ppp1pppp/8/8/3pP3/8/PPPP1PPP/RNBQKBNR b KQkq e3 0 3";
    let board = Board::from_fen(taken_in_passing).unwrap();
    assert!(board_is_playable(&board));
    let mut state = State::start();
    assert_eq!(state.from_fen(taken_in_passing.to_string()), Ok(()));
    assert_eq!(state.fen(), taken_in_passing);
    assert!(state.get_moves().contains(&"d4e3".to_string()));
    assert_eq!(state.apply_move("d4e3".to_string()), Ok(()));
    assert_eq!(state.fen(), "rnbqkbnr/ppp1pppp/8/8/8/4p3/PPPP1PPP/RNBQKBNR w KQkq - 0 4");

    // A knight stands where the pawn is said to have passed.
    let blocked = "rnbqkbnr/ppp1pppp/8/8/3pP3/4N3/PPPP1PPP/R1BQKBNR b KQkq e3 0 3";
    assert!(!board_is_playable(&Board::from_fen(blocked).unwrap()));
    assert_eq!(state.from_fen(blocked.to_string()), Err(GameError::InvalidPositionFormat));
}

#[test]
fn room_ends_sixteen_plies_before_the_counters_do() {
    for (fen, room) in [
        ("4k3/8/8/8/8/8/8/4K3 w - - 0 1", true),
        ("4k3/8/8/8/8/8/8/4K3 w - - 32751 1", true),
        ("4k3/8/8/8/8/8/8/4K3 w - - 32752 1", false),
        ("4k3/8/8/8/8/8/8/4K3 w - - 32767 1", false),
        ("4k3/8/8/8/8/8/8/4K3 b - - 0 32760", true),
        ("4k3/8/8/8/8/8/8/4K3 w - - 0 32761", false),
        ("4k3/8/8/8/8/8/8/4K3 b - - 0 32768", false),
        ("4k3/8/8/8/8/8/8/4K3 w - - -7 1", true),
    ] {
        assert_eq!(board_has_room(&Board::from_fen(fen).unwrap()), room);
    }
}

#[test]
fn a_game_without_room_is_over_though_moves_are_listed() {
    let mut manager = Manager::init(0);
    for fen in [
        "4k3/8/8/8/8/8/8/4K3 w - - 32767 1",
        "4k3/8/8/8/8/8/8/4K3 w - - 32752 1",
        "4k3/8/8/8/8/8/8/4K3 b - - 0 32768",
    ] {
        let mut state = State::start();
        assert_eq!(state.from_fen(fen.to_string()), Ok(()));
        assert_eq!(state.fen(), fen);
        let moves = state.get_moves();
        assert_eq!(moves.len(), 5);
        assert!(!state.is_terminal());
        assert!(state.is_over());
        for uci in moves {
            assert_eq!(state.apply_move(uci), Err(GameError::GameOver));
        }
        assert_eq!(state.apply_move("nonsense".to_string()), Err(GameError::GameOver));
        assert_eq!(state.play(796), Err(GameError::GameOver));
        assert_eq!(state.best_move(&mut manager, 2), Err(GameError::GameOver));
        assert_eq!(state.fen(), fen);
        assert_eq!(state.undo(), Err(GameError::NoHistory));
    }
    assert_eq!(manager.entries(), 0);
}

#[test]
fn a_game_plays_on_up_to_the_edge_of_the_room() {
    let mut state = State::start();
    assert_eq!(
        state.from_fen("4k3/8/8/8/8/8/8/4K3 w - - 32750 1".to_string()),
        Ok(())
    );
    assert!(!state.is_over());
    assert_eq!(state.apply_move("e1e2".to_string()), Ok(()));
    assert_eq!(state.fen(), "4k3/8/8/8/8/8/4K3/8 b - - 32751 1");
    assert!(!state.is_over());
    assert_eq!(state.best_move(&mut Manager::init(0), 3), Ok(()));
    assert!(state.is_over());
    assert_eq!(state.apply_move("e2e3".to_string()), Err(GameError::GameOver));
    assert_eq!(state.undo(), Ok(()));
    assert_eq!(state.undo(), Ok(()));
    assert_eq!(state.fen(), "4k3/8/8/8/8/8/8/4K3 w - - 32750 1");
}

#[test]
fn an_army_is_one_king_and_what_eight_pawns_can_become() {
    let white = |board: &str| army_is_sound(board, 'K', 'Q', 'R', 'B', 'N', 'P');
    let black = |board: &str| army_is_sound(board, 'k', 'q', 'r', 'b', 'n', 'p');
    let opening = "rnbqkbnr/pppppppp/8/8/8/8/PPPPPPPP/RNBQKBNR";
    assert!(white(opening));
    assert!(black(opening));
    assert!(white("K"));
    assert!(!white(""));
    assert!(!white("KK"));
    // Nine queens and no pawn: all eight pawns were promoted.
    assert!(white("KQQQQQQQQQ"));
    assert!(!white("KQQQQQQQQQQ"));
    assert!(!white("KQQQQQQQQQP"));
    // A second queen stands for a pawn that is gone.
    assert!(white("KQQPPPPPPP"));
    assert!(!white("KQQPPPPPPPP"));
    assert!(white("KRRRBBBNNNPPPPP"));
    assert!(!white("KRRRBBBNNNPPPPPP"));
    assert!(!white("KPPPPPPPPP"));
    assert!(white("KRRBBNNQPPPPPPPP"));
    // Each side is counted by its own letters.
    assert!(black("kqqqqqqqqqQQQQQQQQQQQQ"));
    assert!(!white("kqqqqqqqqqQQQQQQQQQQQQK"));
}

#[test]
fn crowded_boards_are_not_playable() {
    let crowded = "Q5QQ/3Q4/1Q4Q1/4Q3/2Q4Q/Q4Q2/pp1Q2Q1/kBNN1KB1 w - - 0 1";
    assert!(!board_is_playable(&Board::from_fen(crowded).unwrap()));
    let mut state = State::start();
    assert_eq!(state.from_fen(crowded.to_string()), Err(GameError::InvalidPositionFormat));
    assert_eq!(
        state.from_fen("4k3/8/8/8/8/8/8/QQQQKQQQ w - - 0 1".to_string()),
        Ok(())
    );
    assert_eq!(
        state.from_fen("4k3/8/8/8/8/8/QQ6/QQQQKQQQ w - - 0 1".to_string()),
        Ok(())
    );
    assert_eq!(
        state.from_fen("4k3/8/8/8/8/8/QQQ5/QQQQKQQQ w - - 0 1".to_string()),
        Err(GameError::InvalidPositionFormat)
    );
    assert_eq!(
        state.from_fen("4k3/8/8/8/8/8/QQP5/QQQQKQQQ w - - 0 1".to_string()),
        Err(GameError::InvalidPositionFormat)
    );
}

#[test]
fn the_busiest_position_of_a_game_is_played_in() {
    let busiest = "R6R/3Q4/1Q4Q1/4Q3/2Q4Q/Q4Q2/pp1Q4/kBNN1KB1 w - - 0 1";
    let mut state = State::start();
    assert_eq!(state.from_fen(busiest.to_string()), Ok(()));
    let moves = state.get_moves();
    assert_eq!(moves.len(), 218);
    for uci in moves {
        assert_eq!(state.apply_move(uci), Ok(()));
        assert_eq!(state.undo(), Ok(()));
    }
    assert_eq!(state.fen(), busiest);
}

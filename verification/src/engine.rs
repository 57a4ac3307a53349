//! The chess engine, as far as this library relies on it.
//!
//! Move generation, legality, hashing, evaluation and search are the work of
//! the `pleco` crate. Nothing in this file is proved: each function below
//! makes one call into the engine, and its contract is what the rest of the
//! library takes on trust about that call. The contracts speak of a board
//! through two things only, the text of its current position and the texts
//! of the positions it can still go back to, and describe every other answer
//! of the engine as a function of the position's text.
//!
//! A move travels as the engine's 16-bit encoding, a square as its number
//! from 0 (a1) to 63 (h8).
//!
//! The engine is written for positions that a game can reach, and says so:
//! on a board with more pieces than a game brings about its list of moves
//! can run over, on one whose castling rights name a king or a rook that is
//! not at home its move generator walks off the board, and a capture in
//! passing onto a taken square, or a move that takes a king, stops the
//! program. The functions that generate, play or search moves therefore ask
//! for a `playable` position. It also counts plies in sixteen bits and stops the
//! program when a count runs over, so the functions that play or search ask
//! for a position that `has_room`.
use pleco::board::FenBuildError;
use pleco::bots::IterativeSearcher;
use pleco::tools::eval::Eval;
use pleco::tools::Searcher;
use pleco::BitMove;
use pleco::Board;
use pleco::SQ;
use vstd::prelude::*;

use crate::notation::well_shaped;
use crate::soundness::{has_room, playable};

verus! {

/// The text of the position every game starts from.
pub const START_POSITION: &'static str = "rnbqkbnr/pppppppp/8/8/8/8/PPPPPPPP/RNBQKBNR w KQkq - 0 1";

/// The deepest search the engine is asked for. Its iterative search indexes
/// a table of ten entries by the depth it has reached.
pub const MAX_SEARCH_DEPTH: u16 = 9;

/// The plies a search may play ahead of the position it is given: the
/// deepest search goes `MAX_SEARCH_DEPTH` plies down and follows captures
/// for two more.
pub const SEARCH_REACH: u16 = 16;

/// The largest count of plies played from which the engine can still count
/// `SEARCH_REACH` plies on.
pub const MAX_PLIES_PLAYED: u16 = 65519;

/// The largest count of plies without capture or pawn move from which the
/// engine can still count `SEARCH_REACH` plies on.
pub const MAX_QUIET_PLIES: i16 = 32751;

/// The largest number of plies a random board may be asked to have behind
/// it. The generator plays at most a hundred moves on a board before it
/// starts over, and it never gives up.
pub const MAX_SAMPLE_PLIES: u16 = 99;

/// `pleco::Board`, a chess position together with the positions it came through.
#[verifier::external_type_specification]
#[verifier::external_body]
pub struct ExBoard(Board);

/// `pleco::board::FenBuildError`, the reason a position text was refused.
#[verifier::external_type_specification]
#[verifier::external_body]
pub struct ExFenBuildError(FenBuildError);

/// The text of a board's current position: what `Board::fen` returns.
pub uninterp spec fn position_text(b: Board) -> Seq<char>;

/// What a board holds besides its current position: the texts of the
/// positions that `Board::undo_move` can still go back to, oldest first.
pub uninterp spec fn position_past(b: Board) -> Seq<Seq<char>>;

/// What `Board::from_fen` makes of a text: the text of the position it read,
/// or `None` where it refuses the text.
pub uninterp spec fn parsed_position(text: Seq<char>) -> Option<Seq<char>>;

/// The moves `Board::generate_moves` lists for the position with this text,
/// in the engine's order.
pub uninterp spec fn legal_moves(text: Seq<char>) -> Seq<u16>;

/// The text of the position that `Board::apply_move` reaches from the
/// position with this text by this move.
pub uninterp spec fn text_after(text: Seq<char>, mv: u16) -> Seq<char>;

/// What `BitMove::stringify` writes for a move: source square, destination
/// square and, for a promotion, the piece.
pub uninterp spec fn move_text(mv: u16) -> Seq<char>;

/// The hash `Board::zobrist` gives the position with this text.
pub uninterp spec fn position_key(text: Seq<char>) -> u64;

/// The move `IterativeSearcher::best_move` picks in the position with this
/// text when it looks `depth` plies ahead.
pub uninterp spec fn best_reply(text: Seq<char>, depth: u16) -> u16;

/// The value `Eval::eval_low` gives the position with this text.
pub uninterp spec fn static_value(text: Seq<char>) -> i32;

/// Whether `Board::in_check` holds in the position with this text.
pub uninterp spec fn in_check(text: Seq<char>) -> bool;

/// The number `Board::moves_played` reports for the position with this text.
pub uninterp spec fn plies_played(text: Seq<char>) -> u16;

/// The number `Board::rule_50` reports for the position with this text: the
/// plies played since the last capture or pawn move.
pub uninterp spec fn quiet_plies(text: Seq<char>) -> i16;

/// The letter of the piece that `Board::piece_at_sq` finds on a square of
/// the position with this text, or `None` for an empty square.
pub uninterp spec fn piece_on(text: Seq<char>, sq: u8) -> Option<char>;

/// The first of `moves` that is written as `uci`.
pub open spec fn find_move(moves: Seq<u16>, uci: Seq<char>) -> Option<u16>
    decreases moves.len(),
{
    if moves.len() == 0 {
        None
    } else if move_text(moves[0]) == uci {
        Some(moves[0])
    } else {
        find_move(moves.drop_first(), uci)
    }
}

/// `Board::start_pos`. Claims that the board shows the starting position,
/// which is playable, and has nothing to go back to.
#[verifier::external_body]
pub(crate) fn board_start() -> (b: Board)
    ensures
        position_text(b) == START_POSITION@,
        position_past(b).len() == 0,
        playable(position_text(b)),
{
    Board::start_pos()
}

/// `Board::from_fen`. Claims that whether the text is taken, and the
/// position read from it, depend on the text alone, and that a board made
/// this way has nothing to go back to. The engine panics on a text with a
/// rank that goes on past its eighth square, without exactly one king a
/// side, with a foreign mark among the castling rights, or with a move
/// number it cannot double; `well_shaped` leaves those out.
#[verifier::external_body]
pub(crate) fn board_parse(text: &str) -> (r: Result<Board, FenBuildError>)
    requires
        well_shaped(text@),
    ensures
        r matches Ok(b) ==> parsed_position(text@) == Some(position_text(b)),
        r matches Ok(b) ==> position_past(b).len() == 0,
        r is Err ==> parsed_position(text@) is None,
{
    Board::from_fen(text)
}

/// `Board::fen`. Its result is, by definition, the text of the board's
/// current position.
#[verifier::external_body]
pub(crate) fn board_fen(b: &Board) -> (s: String)
    ensures
        s@ == position_text(*b),
{
    b.fen()
}

/// `Board::apply_uci_move`. Claims what its body shows: it walks the legal
/// moves in order, plays the first one that is written as `uci` and returns
/// true, or finds none, leaves the board alone and returns false. A move
/// played puts the position left behind on top of those the board can go
/// back to, and leaves a playable position: a legal move keeps the mover's
/// king out of check, a promotion costs a pawn, and the engine withdraws a
/// castling right when the king or the rook leaves home.
#[verifier::external_body]
pub(crate) fn board_apply_uci(b: &mut Board, uci: &str) -> (ok: bool)
    requires
        playable(position_text(*old(b))),
        has_room(position_text(*old(b))),
    ensures
        playable(position_text(*final(b))),
        ok == (find_move(legal_moves(position_text(*old(b))), uci@) is Some),
        ok ==> position_text(*final(b)) == text_after(
            position_text(*old(b)),
            find_move(legal_moves(position_text(*old(b))), uci@).unwrap(),
        ),
        ok ==> position_past(*final(b)) == position_past(*old(b)).push(position_text(*old(b))),
        !ok ==> *final(b) == *old(b),
{
    b.apply_uci_move(uci)
}

/// `Board::apply_move`. The engine panics on a move that is not legal in
/// the position, so only a move from its own list is let through. Claims
/// that the position reached depends on the position left and the move
/// alone, that it is playable again, and that the position left can be gone
/// back to.
#[verifier::external_body]
pub(crate) fn board_apply(b: &mut Board, mv: u16)
    requires
        playable(position_text(*old(b))),
        has_room(position_text(*old(b))),
        legal_moves(position_text(*old(b))).contains(mv),
    ensures
        playable(position_text(*final(b))),
        position_text(*final(b)) == text_after(position_text(*old(b)), mv),
        position_past(*final(b)) == position_past(*old(b)).push(position_text(*old(b))),
{
    b.apply_move(BitMove::new(mv))
}

/// `Board::undo_move`. The engine panics where there is no move to take
/// back. Claims that the board returns to the position it held before its
/// last move.
#[verifier::external_body]
pub(crate) fn board_undo(b: &mut Board)
    requires
        position_past(*old(b)).len() > 0,
    ensures
        position_text(*final(b)) == position_past(*old(b)).last(),
        position_past(*final(b)) == position_past(*old(b)).drop_last(),
{
    b.undo_move()
}

/// `Board::generate_moves`, each move handed out in its 16-bit encoding.
/// Claims that the list depends on the position alone.
#[verifier::external_body]
pub(crate) fn board_moves(b: &Board) -> (moves: Vec<u16>)
    requires
        playable(position_text(*b)),
    ensures
        moves@ == legal_moves(position_text(*b)),
{
    b.generate_moves().iter().map(|m| m.get_raw()).collect()
}

/// `Board::generate_scoring_moves`, which is `MoveGen::generate_scoring` for
/// legal moves of every kind. Claims what its source shows: the same
/// generator as `Board::generate_moves` fills the list, and every move enters
/// it with a score of zero.
#[verifier::external_body]
pub(crate) fn board_scored_moves(b: &Board) -> (scored: Vec<(u16, i16)>)
    requires
        playable(position_text(*b)),
    ensures
        scored@ == legal_moves(position_text(*b)).map_values(|m: u16| (m, 0i16)),
{
    b.generate_scoring_moves().iter().map(|s| (s.bitmove().get_raw(), s.score())).collect()
}

/// `BitMove::stringify`. Total: both squares are six bits of the encoding.
#[verifier::external_body]
pub(crate) fn move_to_text(mv: u16) -> (s: String)
    ensures
        s@ == move_text(mv),
{
    BitMove::new(mv).stringify()
}

/// `Board::zobrist`. Claims that the hash depends on the position alone; the
/// engine draws its hashing tables from a fixed seed.
#[verifier::external_body]
pub(crate) fn board_key(b: &Board) -> (key: u64)
    ensures
        key == position_key(position_text(*b)),
{
    b.zobrist()
}

/// `IterativeSearcher::best_move` on a shallow clone of the board. Claims
/// that the move depends on the position and the depth alone. Says nothing
/// about the move being legal: below two plies, or with no move to play,
/// the search returns its null move.
#[verifier::external_body]
pub(crate) fn board_search(b: &Board, depth: u16) -> (best: u16)
    requires
        playable(position_text(*b)),
        has_room(position_text(*b)),
        depth <= MAX_SEARCH_DEPTH,
    ensures
        best == best_reply(position_text(*b), depth),
{
    IterativeSearcher::best_move(b.shallow_clone(), depth).get_raw()
}

/// `Eval::eval_low`. Claims that the value depends on the position alone.
#[verifier::external_body]
pub(crate) fn board_eval(b: &Board) -> (value: i32)
    ensures
        value == static_value(position_text(*b)),
{
    Eval::eval_low(b)
}

/// `Board::parallel_clone`. Claims that the clone shows the same position.
/// Nothing is said of what the clone can go back to.
#[verifier::external_body]
pub(crate) fn board_fork(b: &Board) -> (c: Board)
    ensures
        position_text(c) == position_text(*b),
{
    b.parallel_clone()
}

/// `Board::in_check`. Claims that the answer depends on the position alone.
#[verifier::external_body]
pub(crate) fn board_in_check(b: &Board) -> (r: bool)
    ensures
        r == in_check(position_text(*b)),
{
    b.in_check()
}

/// `Board::moves_played`. Claims that the count depends on the position
/// alone: its text carries the move number and the side to move.
#[verifier::external_body]
pub(crate) fn board_plies(b: &Board) -> (n: u16)
    ensures
        n == plies_played(position_text(*b)),
{
    b.moves_played()
}

/// `Board::rule_50`. Claims that the count depends on the position alone:
/// its text carries it.
#[verifier::external_body]
pub(crate) fn board_quiet_plies(b: &Board) -> (n: i16)
    ensures
        n == quiet_plies(position_text(*b)),
{
    b.rule_50()
}

/// `Board::piece_at_sq`, the piece handed out as its letter by
/// `Piece::character`: upper case for White, lower case for Black, `None`
/// for an empty square. Claims that the answer depends on the position
/// alone.
#[verifier::external_body]
pub(crate) fn board_piece(b: &Board, sq: u8) -> (piece: Option<char>)
    requires
        sq < 64,
    ensures
        piece == piece_on(position_text(*b), sq),
{
    b.piece_at_sq(SQ(sq)).character()
}

/// `Board::random` set to at least `min_moves` plies and no check, then
/// `RandBoard::one`. The board is drawn at random, so nothing is claimed of
/// it; whoever calls this looks at what came back.
#[verifier::external_body]
pub(crate) fn board_random(min_moves: u16) -> (b: Board)
    requires
        min_moves <= MAX_SAMPLE_PLIES,
{
    Board::random().min_moves(min_moves).no_check().one()
}

} // verus!

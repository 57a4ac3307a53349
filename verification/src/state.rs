//! The position manager: one chess position, the positions it came through
//! since it was last set, and the operations that change it.
//!
//! Every operation either succeeds and moves the game on as its contract
//! says, or fails with a `GameError` and leaves the state exactly as it was.
//! A `State` is changed through `&mut` only, so whoever shares one between
//! callers puts it behind a lock, and each operation then runs whole.
use pleco::Board;
use vstd::prelude::*;

use crate::engine::{board_apply, board_apply_uci, board_fen, board_fork, board_in_check};
use crate::engine::board_moves;
use crate::engine::{board_parse, board_plies, board_random, board_start, board_undo, move_to_text};
use crate::engine::{find_move, in_check, legal_moves, move_text, parsed_position, plies_played};
use crate::engine::{position_key, position_past, position_text, text_after};
use crate::engine::{MAX_SAMPLE_PLIES, MAX_SEARCH_DEPTH, START_POSITION};
use crate::manager::{resolved, searched, Manager};
use crate::notation::{is_well_shaped, well_shaped};
use crate::route::Route;
use crate::soundness::{board_has_room, board_is_playable, has_room, playable};

verus! {

/// How often `State::random` lets the engine draw a board before it gives up.
pub const SAMPLE_ATTEMPTS: usize = 8;

/// Why an operation on a `State` did not go through. None of them changes
/// the state.
#[derive(Clone, Copy, Debug, PartialEq, Eq, Structural)]
pub enum GameError {
    /// The text does not describe a position.
    InvalidPositionFormat,
    /// The move is not legal in the current position, or is no move at all.
    IllegalMove,
    /// There is no move to take back.
    NoHistory,
    /// No random position of the kind asked for was found in time.
    RandomSampleExhausted,
    /// The game cannot go on: the side to move has no legal move, or the
    /// engine's counters are full.
    GameOver,
}

/// A game as the contracts see it: the text of the current position and the
/// texts of the positions before it, oldest first, back to where the game
/// was last set.
pub struct Game {
    pub text: Seq<char>,
    pub past: Seq<Seq<char>>,
}

/// The game that begins at the position with this text.
pub open spec fn begun(text: Seq<char>) -> Game {
    Game { text, past: Seq::empty() }
}

/// The game after `mv` has been played.
pub open spec fn played(g: Game, mv: u16) -> Game {
    Game { text: text_after(g.text, mv), past: g.past.push(g.text) }
}

/// The game after its last move has been taken back.
pub open spec fn taken_back(g: Game) -> Game {
    Game { text: g.past.last(), past: g.past.drop_last() }
}

/// The position a text is taken for: the one the engine reads from it,
/// where the text has the shape of a position and what the engine reads is
/// playable. `None` for every other text.
pub open spec fn accepted(text: Seq<char>) -> Option<Seq<char>> {
    if well_shaped(text) {
        match parsed_position(text) {
            Some(read) => if playable(read) {
                Some(read)
            } else {
                None
            },
            None => None,
        }
    } else {
        None
    }
}

/// The side to move has no legal move: checkmate or stalemate.
pub open spec fn terminal(text: Seq<char>) -> bool {
    legal_moves(text).len() == 0
}

/// The game cannot go on from the position: it is terminal, or the engine
/// has no room left to count another move.
pub open spec fn over(text: Seq<char>) -> bool {
    terminal(text) || !has_room(text)
}

/// What playing the move written as `uci` comes to in the position with
/// this text: the move played, or the reason it is not.
pub open spec fn move_asked(text: Seq<char>, uci: Seq<char>) -> Result<u16, GameError> {
    if !has_room(text) {
        Err(GameError::GameOver)
    } else {
        match find_move(legal_moves(text), uci) {
            Some(mv) => Ok(mv),
            None => Err(GameError::IllegalMove),
        }
    }
}

/// What playing `mv` comes to in the position with this text.
pub open spec fn move_given(text: Seq<char>, mv: u16) -> Result<u16, GameError> {
    if !has_room(text) {
        Err(GameError::GameOver)
    } else if legal_moves(text).contains(mv) {
        Ok(mv)
    } else {
        Err(GameError::IllegalMove)
    }
}

/// A random position is kept when it has at least `min_moves` plies behind
/// it and the side to move is not in check.
pub open spec fn qualifies(plies: u16, checked: bool, min_moves: u16) -> bool {
    plies >= min_moves && !checked
}

/// Taking back a move that was just played restores the game: the same
/// position, and the same positions before it.
pub proof fn law_take_back_restores(g: Game, mv: u16)
    ensures
        taken_back(played(g, mv)) == g,
{
    assert(g.past.push(g.text).drop_last() =~= g.past);
}

/// A game just begun has no move to take back, and a move played always
/// leaves one.
pub proof fn law_history_grows(text: Seq<char>, g: Game, mv: u16)
    ensures
        begun(text).past.len() == 0,
        played(g, mv).past.len() == g.past.len() + 1,
        g.past.len() > 0 ==> taken_back(g).past.len() == g.past.len() - 1,
{
}

/// A move that `find_move` picks is one of the moves it was given, and is
/// written the way that was asked for.
pub proof fn law_found_move_is_listed(moves: Seq<u16>, uci: Seq<char>)
    ensures
        find_move(moves, uci) matches Some(mv) ==> moves.contains(mv) && move_text(mv) == uci,
    decreases moves.len(),
{
    if moves.len() > 0 && move_text(moves[0]) != uci {
        law_found_move_is_listed(moves.drop_first(), uci);
        match find_move(moves, uci) {
            Some(mv) => {
                let rest = moves.drop_first();
                let i = choose|i: int| 0 <= i < rest.len() && rest[i] == mv;
                assert(moves[i + 1] == mv);
            },
            None => {},
        }
    }
}

/// Every move in a list is found under the text it is written as: what
/// `State::get_moves` lists, `State::apply_move` takes.
pub proof fn law_listed_move_is_found(moves: Seq<u16>, i: int)
    requires
        0 <= i < moves.len(),
    ensures
        find_move(moves, move_text(moves[i])) is Some,
    decreases moves.len(),
{
    if move_text(moves[0]) != move_text(moves[i]) {
        assert(moves.drop_first()[i - 1] == moves[i]);
        law_listed_move_is_found(moves.drop_first(), i - 1);
    }
}

/// Where the game is over no move is taken: `State::apply_move` and
/// `State::play` refuse whatever they are given.
pub proof fn law_over_takes_no_move(text: Seq<char>, uci: Seq<char>, mv: u16)
    requires
        over(text),
    ensures
        move_asked(text, uci) is Err,
        move_given(text, mv) is Err,
{
}

/// A move asked for by its text is taken exactly when the move `find_move`
/// picks for the text is taken when given itself.
pub proof fn law_asked_is_given(text: Seq<char>, uci: Seq<char>)
    ensures
        move_asked(text, uci) matches Ok(mv) ==> move_given(text, mv) == Ok::<u16, GameError>(mv)
            && move_text(mv) == uci,
{
    law_found_move_is_listed(legal_moves(text), uci);
}

/// Decides whether a random position is kept.
pub fn sample_qualifies(plies: u16, checked: bool, min_moves: u16) -> (keep: bool)
    ensures
        keep == qualifies(plies, checked, min_moves),
{
    plies >= min_moves && !checked
}

/// Whether `mv` is among `moves`.
pub fn lists_move(moves: &Vec<u16>, mv: u16) -> (listed: bool)
    ensures
        listed == moves@.contains(mv),
{
    let mut i: usize = 0;
    while i < moves.len()
        invariant
            i <= moves.len(),
            forall|j: int| 0 <= j < i ==> moves@[j] != mv,
        decreases moves.len() - i,
    {
        if moves[i] == mv {
            return true;
        }
        i += 1;
    }
    false
}

/// The game and the list of routes a server keeps beside it.
pub struct State {
    board: Board,
    earlier: Vec<String>,
    routes: Vec<Route>,
}

impl View for State {
    type V = Game;

    closed spec fn view(&self) -> Game {
        Game { text: position_text(self.board), past: self.earlier@.map_values(|s: String| s@) }
    }
}

impl State {
    /// The state's invariant: the board can go back through every position
    /// the state remembers, and each of them, like the current one, is one
    /// the engine can play in.
    pub closed spec fn wf(&self) -> bool {
        let held = position_past(self.board);
        let n = self.earlier@.len();
        &&& playable(position_text(self.board))
        &&& n <= held.len()
        &&& forall|i: int|
            0 <= i < n ==> (#[trigger] self.earlier@[i])@ == held[held.len() - n + i] && playable(
                self.earlier@[i]@,
            )
    }

    /// The routes recorded so far, in the order they were added.
    pub closed spec fn routes(&self) -> Seq<Route> {
        self.routes@
    }

    /// A state that begins at the starting position, with no routes.
    pub fn start() -> (state: State)
        ensures
            state.wf(),
            state@ == begun(START_POSITION@),
            state.routes().len() == 0,
    {
        State::new(board_start())
    }

    /// A state that begins at the position `board` shows, with no move to
    /// take back and no routes. See `board_is_playable` for the boards that
    /// can be given.
    pub fn new(board: Board) -> (state: State)
        requires
            playable(position_text(board)),
        ensures
            state.wf(),
            state@ == begun(position_text(board)),
            state.routes().len() == 0,
    {
        let state = State { board, earlier: Vec::new(), routes: Vec::new() };
        assert(state@.past =~= Seq::empty());
        state
    }

    /// The text of the current position.
    pub fn fen(&self) -> (text: String)
        ensures
            text@ == self@.text,
    {
        board_fen(&self.board)
    }

    /// Replaces the game by one that begins at the position `board` shows.
    /// See `board_is_playable` for the boards that can be given.
    pub fn update(&mut self, board: Board)
        requires
            playable(position_text(board)),
        ensures
            final(self).wf(),
            final(self)@ == begun(position_text(board)),
            final(self).routes() == old(self).routes(),
    {
        self.board = board;
        self.earlier = Vec::new();
        assert(self@.past =~= Seq::empty());
    }

    /// Begins a new game at the starting position.
    pub fn reset(&mut self)
        ensures
            final(self).wf(),
            final(self)@ == begun(START_POSITION@),
            final(self).routes() == old(self).routes(),
    {
        self.update(board_start());
    }

    /// Begins a new game at the position that `fen` describes.
    ///
    /// Succeeds exactly when the text has the shape of a position, the
    /// engine takes it, and the position it read is one it can play in; the
    /// current position is then that one. Any other text is refused and
    /// changes nothing.
    pub fn from_fen(&mut self, fen: String) -> (r: Result<(), GameError>)
        requires
            old(self).wf(),
        ensures
            final(self).wf(),
            final(self).routes() == old(self).routes(),
            r is Ok <==> accepted(fen@) is Some,
            r is Ok ==> final(self)@ == begun(accepted(fen@).unwrap()),
            r is Err ==> r == Err::<(), GameError>(GameError::InvalidPositionFormat) && *final(self)
                == *old(self),
    {
        if !is_well_shaped(fen.as_str()) {
            return Err(GameError::InvalidPositionFormat);
        }
        match board_parse(fen.as_str()) {
            Ok(board) => {
                if !board_is_playable(&board) {
                    return Err(GameError::InvalidPositionFormat);
                }
                self.update(board);
                Ok(())
            },
            Err(_) => Err(GameError::InvalidPositionFormat),
        }
    }

    /// Plays the move written as `uci`.
    ///
    /// Succeeds exactly when the engine has room to count the move and one
    /// of the legal moves of the current position is written that way; the
    /// first such move is played. Without room the game is over; any other
    /// text is an illegal move. Either way nothing changes.
    pub fn apply_move(&mut self, uci: String) -> (r: Result<(), GameError>)
        requires
            old(self).wf(),
        ensures
            final(self).wf(),
            final(self).routes() == old(self).routes(),
            match move_asked(old(self)@.text, uci@) {
                Ok(mv) => r is Ok && final(self)@ == played(old(self)@, mv),
                Err(e) => r == Err::<(), GameError>(e) && *final(self) == *old(self),
            },
    {
        if !board_has_room(&self.board) {
            return Err(GameError::GameOver);
        }
        let before = board_fen(&self.board);
        if board_apply_uci(&mut self.board, uci.as_str()) {
            self.earlier.push(before);
            proof {
                self.lemma_pushed(*old(self));
            }
            Ok(())
        } else {
            Err(GameError::IllegalMove)
        }
    }

    /// Takes back the last move.
    ///
    /// Succeeds exactly when a move has been played since the game was last
    /// set; the game is then as it was before that move.
    pub fn undo(&mut self) -> (r: Result<(), GameError>)
        requires
            old(self).wf(),
        ensures
            final(self).wf(),
            final(self).routes() == old(self).routes(),
            r is Ok <==> old(self)@.past.len() > 0,
            r is Ok ==> final(self)@ == taken_back(old(self)@),
            r is Err ==> r == Err::<(), GameError>(GameError::NoHistory) && *final(self) == *old(
                self,
            ),
    {
        if self.earlier.len() == 0 {
            return Err(GameError::NoHistory);
        }
        self.earlier.pop();
        board_undo(&mut self.board);
        proof {
            self.lemma_popped(*old(self));
        }
        Ok(())
    }

    /// The legal moves of the current position, written out, in the
    /// engine's order. Empty when the side to move is mated or stalemated.
    pub fn get_moves(&self) -> (texts: Vec<String>)
        requires
            self.wf(),
        ensures
            texts@.len() == legal_moves(self@.text).len(),
            forall|i: int|
                0 <= i < texts@.len() ==> (#[trigger] texts@[i])@ == move_text(
                    legal_moves(self@.text)[i],
                ),
    {
        let moves = board_moves(&self.board);
        let mut texts: Vec<String> = Vec::new();
        let mut i: usize = 0;
        while i < moves.len()
            invariant
                i <= moves.len(),
                texts@.len() == i,
                forall|j: int| 0 <= j < i ==> (#[trigger] texts@[j])@ == move_text(moves@[j]),
            decreases moves.len() - i,
        {
            texts.push(move_to_text(moves[i]));
            i += 1;
        }
        texts
    }

    /// Whether the side to move has no legal move.
    pub fn is_terminal(&self) -> (over: bool)
        requires
            self.wf(),
        ensures
            over == terminal(self@.text),
    {
        board_moves(&self.board).len() == 0
    }

    /// A board that shows the current position, for a search to work on
    /// while the state itself is free for other callers. Ask `is_over`
    /// before searching it.
    pub fn snapshot(&self) -> (board: Board)
        requires
            self.wf(),
        ensures
            position_text(board) == self@.text,
            playable(position_text(board)),
    {
        board_fork(&self.board)
    }

    /// Plays `mv`, a move in the engine's encoding.
    ///
    /// Succeeds exactly when the engine has room to count the move and
    /// `mv` is one of the legal moves of the current position. This is how
    /// a move found by a search is played: the search may have looked at an
    /// earlier position, so the move is held against the current one first.
    pub fn play(&mut self, mv: u16) -> (r: Result<(), GameError>)
        requires
            old(self).wf(),
        ensures
            final(self).wf(),
            final(self).routes() == old(self).routes(),
            match move_given(old(self)@.text, mv) {
                Ok(_) => r is Ok && final(self)@ == played(old(self)@, mv),
                Err(e) => r == Err::<(), GameError>(e) && *final(self) == *old(self),
            },
    {
        if !board_has_room(&self.board) {
            return Err(GameError::GameOver);
        }
        let moves = board_moves(&self.board);
        if !lists_move(&moves, mv) {
            return Err(GameError::IllegalMove);
        }
        let before = board_fen(&self.board);
        board_apply(&mut self.board, mv);
        self.earlier.push(before);
        proof {
            self.lemma_pushed(*old(self));
        }
        Ok(())
    }

    /// Whether the game cannot go on: the side to move has no legal move,
    /// or the engine has no room left to count one.
    pub fn is_over(&self) -> (done: bool)
        requires
            self.wf(),
        ensures
            done == over(self@.text),
    {
        self.is_terminal() || !board_has_room(&self.board)
    }

    /// Asks `manager` for a move, looking `depth` plies ahead, and plays it.
    ///
    /// Where the game is over nothing is asked and nothing changes. Else
    /// the manager settles the request, from its table or by a search, and
    /// the move is played if it is legal here. A move that is not leaves
    /// the game as it was.
    pub fn best_move(&mut self, manager: &mut Manager, depth: u16) -> (r: Result<(), GameError>)
        requires
            old(self).wf(),
            old(manager).wf(),
            depth <= MAX_SEARCH_DEPTH,
        ensures
            final(self).wf(),
            final(manager).wf(),
            final(self).routes() == old(self).routes(),
            final(manager).bound() == old(manager).bound(),
            ({
                let text = old(self)@.text;
                let settled = resolved(
                    old(manager).slots(),
                    position_key(text),
                    depth as i16,
                    searched(text, depth),
                );
                if over(text) {
                    &&& r == Err::<(), GameError>(GameError::GameOver)
                    &&& *final(self) == *old(self)
                    &&& *final(manager) == *old(manager)
                } else if legal_moves(text).contains(settled.0) {
                    &&& r is Ok
                    &&& final(self)@ == played(old(self)@, settled.0)
                    &&& final(manager).slots() == settled.1
                } else {
                    &&& r == Err::<(), GameError>(GameError::IllegalMove)
                    &&& *final(self) == *old(self)
                    &&& final(manager).slots() == settled.1
                }
            }),
    {
        if self.is_over() {
            return Err(GameError::GameOver);
        }
        let best = manager.check_or_find_dumb_best(&self.board, depth);
        self.play(best)
    }

    /// Begins a new game at a random position with at least `min_moves`
    /// plies behind it and the side to move not in check.
    ///
    /// The engine draws the position. It is looked at before it is taken,
    /// and after `SAMPLE_ATTEMPTS` draws that do not qualify or cannot be
    /// played in, or where `min_moves` is more than the engine can be asked
    /// for, the call fails and changes nothing.
    pub fn random(&mut self, min_moves: u16) -> (r: Result<(), GameError>)
        requires
            old(self).wf(),
        ensures
            final(self).wf(),
            final(self).routes() == old(self).routes(),
            min_moves > MAX_SAMPLE_PLIES ==> r is Err,
            r is Ok ==> final(self)@.past.len() == 0 && qualifies(
                plies_played(final(self)@.text),
                in_check(final(self)@.text),
                min_moves,
            ),
            r is Err ==> r == Err::<(), GameError>(GameError::RandomSampleExhausted) && *final(self)
                == *old(self),
    {
        if min_moves > MAX_SAMPLE_PLIES {
            return Err(GameError::RandomSampleExhausted);
        }
        let mut tries: usize = 0;
        while tries < SAMPLE_ATTEMPTS
            invariant
                min_moves <= MAX_SAMPLE_PLIES,
                *self == *old(self),
            decreases SAMPLE_ATTEMPTS - tries,
        {
            let candidate = board_random(min_moves);
            let plies = board_plies(&candidate);
            let checked = board_in_check(&candidate);
            if sample_qualifies(plies, checked, min_moves) && board_is_playable(&candidate) {
                self.update(candidate);
                return Ok(());
            }
            tries += 1;
        }
        Err(GameError::RandomSampleExhausted)
    }

    /// A copy of the routes recorded so far.
    pub fn get_routes(&self) -> (routes: Vec<Route>)
        ensures
            routes@ == self.routes(),
    {
        let mut routes: Vec<Route> = Vec::new();
        let mut i: usize = 0;
        while i < self.routes.len()
            invariant
                i <= self.routes.len(),
                routes@ == self.routes@.subrange(0, i as int),
            decreases self.routes.len() - i,
        {
            routes.push(self.routes[i].duplicate());
            proof {
                assert(self.routes@.subrange(0, i + 1) =~= self.routes@.subrange(0, i as int).push(
                    self.routes@[i as int],
                ));
            }
            i += 1;
        }
        proof {
            assert(self.routes@.subrange(0, self.routes@.len() as int) =~= self.routes@);
        }
        routes
    }

    /// Records one more route. The game is not touched.
    pub fn push_route(&mut self, rt: Route)
        ensures
            final(self).routes() == old(self).routes().push(rt),
            final(self)@ == old(self)@,
            old(self).wf() ==> final(self).wf(),
    {
        self.routes.push(rt);
    }

    /// After a move: the board went on by one position and the state
    /// remembers the one it left.
    proof fn lemma_pushed(&self, before: State)
        requires
            before.wf(),
            playable(position_text(self.board)),
            position_past(self.board) == position_past(before.board).push(
                position_text(before.board),
            ),
            self.earlier@.len() == before.earlier@.len() + 1,
            self.earlier@.last()@ == position_text(before.board),
            forall|i: int| 0 <= i < before.earlier@.len() ==> self.earlier@[i] == before.earlier@[i],
        ensures
            self.wf(),
            self@.past == before@.past.push(before@.text),
    {
        assert(self@.past =~= before@.past.push(before@.text));
    }

    /// After a move was taken back: the board and the state both dropped
    /// the position they returned to.
    proof fn lemma_popped(&self, before: State)
        requires
            before.wf(),
            before.earlier@.len() > 0,
            position_past(before.board).len() > 0,
            position_past(self.board) == position_past(before.board).drop_last(),
            position_text(self.board) == position_past(before.board).last(),
            self.earlier@ == before.earlier@.drop_last(),
        ensures
            self.wf(),
            self@ == taken_back(before@),
    {
        let last = before.earlier@.len() - 1;
        assert(before.earlier@[last]@ == position_text(self.board));
        assert(self@.past =~= before@.past.drop_last());
    }
}

} // verus!

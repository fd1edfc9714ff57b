//! Move notation: a game's moves are replayed from the standard start to
//! turn SAN into UCI and back. Legality and notation come from shakmaty:
//! positions stay opaque, and what a move reads as in the position a line
//! reaches is named by `uci_of_san` and `san_of_uci`.
use shakmaty::san::San;
use shakmaty::uci::Uci;
use shakmaty::{CastlingMode, Chess, Position};
use vstd::prelude::*;

use crate::error::Error;

verus! {

#[verifier::external_type_specification]
#[verifier::external_body]
pub struct ExChess(Chess);

/// The UCI text (standard castling) of the one legal move that the SAN text
/// `san` names in the position reached by playing the UCI line `played`
/// from the standard start; none when the text does not parse, or names no
/// legal move or more than one.
pub uninterp spec fn uci_of_san(played: Seq<Seq<char>>, san: Seq<char>) -> Option<Seq<char>>;

/// The SAN text (without a check suffix) of the legal move that the UCI
/// text `uci` names in the position reached by playing the UCI line
/// `played` from the standard start; none when it names no legal move.
pub uninterp spec fn san_of_uci(played: Seq<Seq<char>>, uci: Seq<char>) -> Option<Seq<char>>;

/// The texts of a list of strings.
pub open spec fn texts(v: Seq<String>) -> Seq<Seq<char>> {
    v.map_values(|s: String| s@)
}

/// The UCI texts of the first `n` SAN moves of `sans`, each read in the
/// position the earlier ones reach; none once a move is not legal.
pub open spec fn uci_prefix(sans: Seq<Seq<char>>, n: int) -> Option<Seq<Seq<char>>>
    decreases n,
{
    if n <= 0 {
        Some(Seq::empty())
    } else {
        match uci_prefix(sans, n - 1) {
            None => None,
            Some(p) => match uci_of_san(p, sans[n - 1]) {
                None => None,
                Some(u) => Some(p.push(u)),
            },
        }
    }
}

/// The UCI line of a SAN line played from the standard start.
pub open spec fn uci_line(sans: Seq<Seq<char>>) -> Option<Seq<Seq<char>>> {
    uci_prefix(sans, sans.len() as int)
}

/// The SAN texts of the first `n` UCI moves of `ucis`; none once a move is
/// not legal.
pub open spec fn san_prefix(ucis: Seq<Seq<char>>, n: int) -> Option<Seq<Seq<char>>>
    decreases n,
{
    if n <= 0 {
        Some(Seq::empty())
    } else {
        match san_prefix(ucis, n - 1) {
            None => None,
            Some(p) => match san_of_uci(ucis.take(n - 1), ucis[n - 1]) {
                None => None,
                Some(s) => Some(p.push(s)),
            },
        }
    }
}

/// The SAN line of a UCI line played from the standard start.
pub open spec fn san_line(ucis: Seq<Seq<char>>) -> Option<Seq<Seq<char>>> {
    san_prefix(ucis, ucis.len() as int)
}

proof fn lemma_uci_prefix_stays_none(sans: Seq<Seq<char>>, m: int, n: int)
    requires
        0 < m <= n,
        uci_prefix(sans, m) is None,
    ensures
        uci_prefix(sans, n) is None,
    decreases n - m,
{
    if n > m {
        lemma_uci_prefix_stays_none(sans, m, n - 1);
    }
}

proof fn lemma_san_prefix_stays_none(ucis: Seq<Seq<char>>, m: int, n: int)
    requires
        0 < m <= n,
        san_prefix(ucis, m) is None,
    ensures
        san_prefix(ucis, n) is None,
    decreases n - m,
{
    if n > m {
        lemma_san_prefix_stays_none(ucis, m, n - 1);
    }
}

/// A position and the UCI line that reaches it from the standard start.
/// Only this module builds one, always by playing the line's moves.
pub struct Board {
    pos: Chess,
    played: Vec<String>,
}

/// Relies on `Chess::default`: the standard starting position.
#[verifier::external_body]
fn standard_start() -> Chess {
    Chess::default()
}

/// Relies on `San::from_str` and `San::to_move` to find the move the SAN
/// text names in the board's position, `Uci::from_move` (standard castling)
/// and its text form to write it, and `Position::play` for the position
/// after it.
#[verifier::external_body]
fn play_san(board: &Board, san: &str) -> (r: Option<(String, Chess)>)
    ensures
        match r {
            Some(x) => uci_of_san(board.line(), san@) == Some(x.0@),
            None => uci_of_san(board.line(), san@) is None,
        },
{
    let m = san.parse::<San>().ok()?.to_move(&board.pos).ok()?;
    let uci = Uci::from_move(&m, CastlingMode::Standard).to_string();
    let pos = board.pos.clone().play(&m).ok()?;
    Some((uci, pos))
}

/// Relies on `Uci::from_str` and `Uci::to_move` to find the move the UCI
/// text names in the board's position, `San::from_move` and its text form
/// to write it, and `Position::play` for the position after it.
#[verifier::external_body]
fn play_uci(board: &Board, uci: &str) -> (r: Option<(String, Chess)>)
    ensures
        match r {
            Some(x) => san_of_uci(board.line(), uci@) == Some(x.0@),
            None => san_of_uci(board.line(), uci@) is None,
        },
{
    let m = uci.parse::<Uci>().ok()?.to_move(&board.pos).ok()?;
    let san = San::from_move(&board.pos, &m).to_string();
    let pos = board.pos.clone().play(&m).ok()?;
    Some((san, pos))
}

impl Board {
    /// The UCI line played to reach this position.
    pub closed spec fn line(&self) -> Seq<Seq<char>> {
        texts(self.played@)
    }

    /// The standard starting position.
    pub fn start() -> (r: Board)
        ensures
            r.line() == Seq::<Seq<char>>::empty(),
    {
        let b = Board { pos: standard_start(), played: Vec::new() };
        assert(b.line() =~= Seq::<Seq<char>>::empty());
        b
    }

    /// The board after the move written `uci`, whose position is `pos`.
    fn advance(self, uci: String, pos: Chess) -> (r: Board)
        ensures
            r.line() == self.line().push(uci@),
    {
        let mut played = self.played;
        let ghost before = played@;
        played.push(uci);
        let b = Board { pos, played };
        assert(b.line() =~= texts(before).push(b.played@.last()@));
        b
    }
}

/// Replays SAN moves from the standard start and writes each in UCI; a
/// move that is not legal where it is played fails the whole line.
pub fn uci_from_san(pgn: &Vec<String>) -> (r: Result<Vec<String>, Error>)
    ensures
        r is Ok <==> uci_line(texts(pgn@)) is Some,
        r is Ok ==> texts(r->Ok_0@) == uci_line(texts(pgn@))->0,
        r is Err ==> r == Err::<Vec<String>, Error>(Error::PositionError),
{
    let ghost sans = texts(pgn@);
    let mut board = Board::start();
    let mut out: Vec<String> = Vec::new();
    let mut i: usize = 0;
    proof {
        assert(texts(out@) =~= Seq::<Seq<char>>::empty());
    }
    while i < pgn.len()
        invariant
            sans == texts(pgn@),
            i <= pgn@.len(),
            uci_prefix(sans, i as int) == Some(texts(out@)),
            board.line() == texts(out@),
        decreases pgn.len() - i,
    {
        match play_san(&board, pgn[i].as_str()) {
            None => {
                proof {
                    assert(sans[i as int] == pgn@[i as int]@);
                    lemma_uci_prefix_stays_none(sans, i + 1, sans.len() as int);
                }
                return Err(Error::PositionError);
            },
            Some((uci, pos)) => {
                proof {
                    assert(sans[i as int] == pgn@[i as int]@);
                }
                let ghost before = out@;
                out.push(uci.clone());
                board = board.advance(uci, pos);
                proof {
                    assert(texts(out@) =~= texts(before).push(out@.last()@));
                }
            },
        }
        i = i + 1;
    }
    Ok(out)
}

/// Replays UCI moves from the standard start and writes each in SAN, as
/// it reads in the position it is played from.
pub fn san_from_uci(moves: &Vec<String>) -> (r: Result<Vec<String>, Error>)
    ensures
        r is Ok <==> san_line(texts(moves@)) is Some,
        r is Ok ==> texts(r->Ok_0@) == san_line(texts(moves@))->0,
        r is Err ==> r == Err::<Vec<String>, Error>(Error::PositionError),
{
    let ghost ucis = texts(moves@);
    let mut board = Board::start();
    let mut out: Vec<String> = Vec::new();
    let mut i: usize = 0;
    proof {
        assert(texts(out@) =~= Seq::<Seq<char>>::empty());
        assert(ucis.take(0) =~= Seq::<Seq<char>>::empty());
    }
    while i < moves.len()
        invariant
            ucis == texts(moves@),
            i <= moves@.len(),
            san_prefix(ucis, i as int) == Some(texts(out@)),
            board.line() == ucis.take(i as int),
        decreases moves.len() - i,
    {
        proof {
            assert(ucis[i as int] == moves@[i as int]@);
        }
        match play_uci(&board, moves[i].as_str()) {
            None => {
                proof {
                    lemma_san_prefix_stays_none(ucis, i + 1, ucis.len() as int);
                }
                return Err(Error::PositionError);
            },
            Some((san, pos)) => {
                let ghost before = out@;
                out.push(san);
                board = board.advance(moves[i].clone(), pos);
                proof {
                    assert(texts(out@) =~= texts(before).push(out@.last()@));
                    assert(ucis.take(i + 1) =~= ucis.take(i as int).push(ucis[i as int]));
                }
            },
        }
        i = i + 1;
    }
    proof {
        assert(ucis.take(i as int) =~= ucis);
    }
    Ok(out)
}

} // verus!

//! Review reports: turning an incoming review request into games, a report
//! and jobs; deciding when a report is finished and claiming it for
//! shipping exactly once; and building the payload sent downstream.
use vstd::prelude::*;

use crate::chess::{san_from_uci, san_line, texts, uci_from_san, uci_line};
use crate::error::Error;
use crate::model::{
    precedence_for_origin, origin_precedence, AnalysisType, CreateGame,
    CreateJob, CreateReport, Game, GameAnalysis, GameId, Job, JobId, PlyAnalysis, Report,
    ReportId, ReportOrigin, ReportType, Score, UserId, MatrixAnalysis,
};
use crate::queue::{count, finished, jobs_of_report, JobTable};

verus! {

/// The player a review is about.
#[derive(Clone, Debug)]
pub struct User {
    pub id: UserId,
    pub titled: bool,
    pub engine: bool,
    pub games: i32,
}

/// A game of a review request; `pgn` holds SAN moves.
#[derive(Clone, Debug)]
pub struct RequestGame {
    pub id: GameId,
    pub white: UserId,
    pub black: UserId,
    pub emts: Option<Vec<i32>>,
    pub pgn: Vec<String>,
    pub analysis: Option<Vec<Score>>,
}

/// A review request.
#[derive(Clone, Debug)]
pub struct Request {
    pub t: String,
    pub origin: ReportOrigin,
    pub user: User,
    pub games: Vec<RequestGame>,
}

/// The liveness ping of the request stream.
#[derive(Clone, Copy, Debug, PartialEq, Eq, Structural)]
pub struct KeepAlive {
    pub keep_alive: bool,
}

/// One line of the request stream.
#[derive(Clone, Debug)]
pub enum StreamMsg {
    KeepAlive(KeepAlive),
    Request(Request),
}

fn copy_emts(v: &Vec<i32>) -> (r: Vec<i32>)
    ensures
        r@ == v@,
{
    let mut out: Vec<i32> = Vec::new();
    let mut i: usize = 0;
    while i < v.len()
        invariant
            i <= v@.len(),
            out@ == v@.take(i as int),
        decreases v.len() - i,
    {
        out.push(v[i]);
        proof {
            assert(v@.take(i + 1) =~= v@.take(i as int).push(v@[i as int]));
        }
        i = i + 1;
    }
    proof {
        assert(v@.take(i as int) =~= v@);
    }
    out
}

/// `c` is the game stored for request game `g`: its SAN moves written in
/// UCI, absent times as none.
pub open spec fn is_stored_game_of(c: CreateGame, g: RequestGame) -> bool {
    &&& c.game_id == g.id
    &&& c.emts@ == match g.emts {
        Some(e) => e@,
        None => Seq::<i32>::empty(),
    }
    &&& texts(c.pgn@) == uci_line(texts(g.pgn@))->0
    &&& c.black == Some(g.black)
    &&& c.white == Some(g.white)
}

/// The game to store for `g`; refused when a move is not legal where it
/// is played.
pub fn create_game(g: &RequestGame) -> (r: Result<CreateGame, Error>)
    ensures
        r is Ok <==> uci_line(texts(g.pgn@)) is Some,
        r is Err ==> r == Err::<CreateGame, Error>(Error::PositionError),
        r is Ok ==> is_stored_game_of(r->Ok_0, *g),
{
    let pgn = match uci_from_san(&g.pgn) {
        Ok(p) => p,
        Err(e) => return Err(e),
    };
    let emts = match &g.emts {
        Some(e) => copy_emts(e),
        None => Vec::new(),
    };
    Ok(CreateGame {
        game_id: g.id.duplicate(),
        emts,
        pgn,
        black: Some(g.black.duplicate()),
        white: Some(g.white.duplicate()),
    })
}

/// The ids of the games of `games`, in order.
pub open spec fn game_ids(games: Seq<RequestGame>) -> Seq<GameId> {
    games.map_values(|g: RequestGame| g.id)
}

fn request_game_ids(games: &Vec<RequestGame>) -> (r: Vec<GameId>)
    ensures
        r@ == game_ids(games@),
{
    let mut out: Vec<GameId> = Vec::new();
    let mut i: usize = 0;
    while i < games.len()
        invariant
            i <= games@.len(),
            out@ == game_ids(games@.take(i as int)),
        decreases games.len() - i,
    {
        out.push(games[i].id.duplicate());
        proof {
            assert(game_ids(games@.take(i + 1)) =~= game_ids(games@.take(i as int)).push(
                games@[i as int].id,
            ));
        }
        i = i + 1;
    }
    proof {
        assert(games@.take(i as int) =~= games@);
    }
    out
}

/// The report a request becomes.
pub fn create_report(request: &Request) -> (r: CreateReport)
    ensures
        r.user_id == request.user.id,
        r.origin == request.origin,
        r.report_type == ReportType::Irwin,
        r.games@ == game_ids(request.games@),
{
    CreateReport {
        user_id: request.user.id.duplicate(),
        origin: request.origin,
        report_type: ReportType::Irwin,
        games: request_game_ids(&request.games),
    }
}

/// `j` is the job for game `id` of a request of `origin` bound to `report_id`.
pub open spec fn is_job_for(j: CreateJob, id: GameId, origin: ReportOrigin, report_id: ReportId) -> bool {
    &&& j.game_id == id
    &&& j.report_id == Some(report_id)
    &&& j.analysis_type == AnalysisType::Deep
    &&& j.precedence == origin_precedence(origin)
}

/// One deep job per game of the request, bound to report `report_id`, with
/// the precedence of the request's origin.
pub fn create_jobs(request: &Request, report_id: ReportId) -> (r: Vec<CreateJob>)
    ensures
        r@.len() == request.games@.len(),
        forall|i: int|
            0 <= i < r@.len() ==> is_job_for(
                #[trigger] r@[i],
                request.games@[i].id,
                request.origin,
                report_id,
            ),
{
    let precedence = precedence_for_origin(request.origin);
    let mut out: Vec<CreateJob> = Vec::new();
    let mut i: usize = 0;
    while i < request.games.len()
        invariant
            i <= request.games@.len(),
            precedence == origin_precedence(request.origin),
            out@.len() == i,
            forall|k: int|
                0 <= k < i ==> is_job_for(
                    #[trigger] out@[k],
                    request.games@[k].id,
                    request.origin,
                    report_id,
                ),
        decreases request.games.len() - i,
    {
        out.push(
            CreateJob {
                game_id: request.games[i].id.duplicate(),
                report_id: Some(report_id),
                analysis_type: AnalysisType::Deep,
                precedence,
            },
        );
        i = i + 1;
    }
    out
}

/// What a review request is stored as.
pub struct Ingestion {
    pub games: Vec<CreateGame>,
    pub report: CreateReport,
    pub jobs: Vec<CreateJob>,
}

/// Plans the storing of `request` under report id `report_id`: every game
/// with its moves in UCI, the report, and one job per game. A move that is
/// not legal fails the whole request, before anything is stored.
pub fn add_to_queue(request: &Request, report_id: ReportId) -> (r: Result<Ingestion, Error>)
    ensures
        r is Ok <==> forall|i: int|
            0 <= i < request.games@.len() ==> (uci_line(
                texts(#[trigger] request.games@[i].pgn@),
            ) is Some),
        r is Err ==> r == Err::<Ingestion, Error>(Error::PositionError),
        r is Ok ==> {
            let p = r->Ok_0;
            &&& p.games@.len() == request.games@.len()
            &&& forall|i: int|
                0 <= i < p.games@.len() ==> is_stored_game_of(
                    #[trigger] p.games@[i],
                    request.games@[i],
                )
            &&& p.report.user_id == request.user.id
            &&& p.report.origin == request.origin
            &&& p.report.report_type == ReportType::Irwin
            &&& p.report.games@ == game_ids(request.games@)
            &&& p.jobs@.len() == request.games@.len()
            &&& forall|i: int|
                0 <= i < p.jobs@.len() ==> is_job_for(
                    #[trigger] p.jobs@[i],
                    request.games@[i].id,
                    request.origin,
                    report_id,
                )
        },
{
    let mut games: Vec<CreateGame> = Vec::new();
    let mut i: usize = 0;
    while i < request.games.len()
        invariant
            i <= request.games@.len(),
            games@.len() == i,
            forall|k: int|
                0 <= k < i ==> is_stored_game_of(#[trigger] games@[k], request.games@[k]),
            forall|k: int|
                0 <= k < i ==> (uci_line(texts(#[trigger] request.games@[k].pgn@)) is Some),
        decreases request.games.len() - i,
    {
        match create_game(&request.games[i]) {
            Ok(g) => games.push(g),
            Err(e) => return Err(e),
        }
        i = i + 1;
    }
    Ok(Ingestion { games, report: create_report(request), jobs: create_jobs(request, report_id) })
}

/// An engine evaluation as sent downstream: exactly one of the two is set.
#[derive(Clone, Copy, Debug, PartialEq, Eq, Structural)]
pub struct EngineEval {
    pub cp: Option<i64>,
    pub mate: Option<i64>,
}

pub open spec fn eval_of(s: Score) -> EngineEval {
    match s {
        Score::Cp(c) => EngineEval { cp: Some(c), mate: None },
        Score::Mate(m) => EngineEval { cp: None, mate: Some(m) },
    }
}

pub open spec fn negate(v: Option<i64>) -> Option<i64> {
    match v {
        Some(x) => Some((-x) as i64),
        None => None,
    }
}

/// Both values can be negated within 64 bits.
pub open spec fn flippable(e: EngineEval) -> bool {
    (e.cp is Some ==> e.cp->0 != i64::MIN) && (e.mate is Some ==> e.mate->0 != i64::MIN)
}

impl EngineEval {
    pub fn from_score(s: Score) -> (r: EngineEval)
        ensures
            r == eval_of(s),
    {
        match s {
            Score::Cp(cp) => EngineEval { cp: Some(cp), mate: None },
            Score::Mate(m) => EngineEval { cp: None, mate: Some(m) },
        }
    }

    /// The same evaluation from the other side's point of view.
    pub fn flip(&self) -> (r: EngineEval)
        requires
            flippable(*self),
        ensures
            r == (EngineEval { cp: negate(self.cp), mate: negate(self.mate) }),
            r.cp is Some ==> r.cp->0 == -self.cp->0,
            r.mate is Some ==> r.mate->0 == -self.mate->0,
    {
        EngineEval {
            cp: match self.cp {
                Some(cp) => Some(-cp),
                None => None,
            },
            mate: match self.mate {
                Some(m) => Some(-m),
                None => None,
            },
        }
    }
}

/// The last score present in `row`.
pub open spec fn last_score(row: Seq<Option<Score>>) -> Option<Score>
    decreases row.len(),
{
    if row.len() == 0 {
        None
    } else if row.last() is Some {
        row.last()
    } else {
        last_score(row.drop_last())
    }
}

/// The deepest score of the first line that has one.
pub open spec fn grid_score(rows: Seq<Seq<Option<Score>>>) -> Option<Score>
    decreases rows.len(),
{
    if rows.len() == 0 {
        None
    } else if last_score(rows[0]) is Some {
        last_score(rows[0])
    } else {
        grid_score(rows.drop_first())
    }
}

pub open spec fn score_grid(m: MatrixAnalysis) -> Seq<Seq<Option<Score>>> {
    m.score@.map_values(|r: Vec<Option<Score>>| r@)
}

/// The score a ply contributes downstream: a single line's score, or the
/// deepest score of the first line of the grid that has one.
pub open spec fn ply_score(p: PlyAnalysis) -> Option<Score> {
    match p {
        PlyAnalysis::Best(b) => Some(b.score),
        PlyAnalysis::Matrix(m) => grid_score(score_grid(m)),
        _ => None,
    }
}

/// The evaluation a ply contributes, from White's point of view when
/// `flip` (the ply was Black's to move).
pub open spec fn ply_eval(p: PlyAnalysis, flip: bool) -> Result<EngineEval, Error> {
    match ply_score(p) {
        None => Err(Error::IncompleteIrwinAnalysis),
        Some(s) => if !flip {
            Ok(eval_of(s))
        } else if flippable(eval_of(s)) {
            Ok(EngineEval { cp: negate(eval_of(s).cp), mate: negate(eval_of(s).mate) })
        } else {
            Err(Error::TryFromIntError)
        },
    }
}

fn row_last_score(row: &Vec<Option<Score>>) -> (r: Option<Score>)
    ensures
        r == last_score(row@),
{
    let mut j: usize = row.len();
    proof {
        assert(row@.take(j as int) =~= row@);
    }
    while j > 0
        invariant
            j <= row@.len(),
            last_score(row@) == last_score(row@.take(j as int)),
        decreases j,
    {
        proof {
            assert(row@.take(j - 1) =~= row@.take(j as int).drop_last());
        }
        if row[j - 1].is_some() {
            return row[j - 1];
        }
        j = j - 1;
    }
    proof {
        assert(row@.take(0) =~= Seq::<Option<Score>>::empty());
    }
    None
}

fn matrix_score(m: &MatrixAnalysis) -> (r: Option<Score>)
    ensures
        r == grid_score(score_grid(*m)),
{
    let ghost rows = score_grid(*m);
    let mut i: usize = 0;
    proof {
        assert(rows.skip(0) =~= rows);
    }
    while i < m.score.len()
        invariant
            i <= m.score@.len(),
            rows == score_grid(*m),
            rows.len() == m.score@.len(),
            grid_score(rows) == grid_score(rows.skip(i as int)),
        decreases m.score.len() - i,
    {
        let s = row_last_score(&m.score[i]);
        proof {
            assert(rows.skip(i as int)[0] == m.score@[i as int]@);
            assert(rows.skip(i as int).drop_first() =~= rows.skip(i + 1));
        }
        if s.is_some() {
            return s;
        }
        i = i + 1;
    }
    proof {
        assert(rows.skip(i as int).len() == 0);
    }
    None
}

/// A ply's evaluation with the UCI move it follows.
#[derive(Clone, Debug)]
pub struct Analysis {
    pub uci: String,
    pub engine_eval: EngineEval,
}

impl Analysis {
    /// The evaluation of `ply_analysis` after move `uci`; `flip` turns it
    /// to White's point of view. Skipped and empty plies carry no score.
    pub fn from_ply_analysis(uci: &String, ply_analysis: &PlyAnalysis, flip: bool) -> (r: Result<
        Analysis,
        Error,
    >)
        ensures
            r is Ok <==> ply_eval(*ply_analysis, flip) is Ok,
            r is Ok ==> r->Ok_0.engine_eval == ply_eval(*ply_analysis, flip)->Ok_0
                && r->Ok_0.uci@ == uci@,
            r is Err ==> r == Err::<Analysis, Error>(ply_eval(*ply_analysis, flip)->Err_0),
    {
        let score = match ply_analysis {
            PlyAnalysis::Best(b) => Some(b.score),
            PlyAnalysis::Matrix(m) => matrix_score(m),
            _ => None,
        };
        match score {
            None => Err(Error::IncompleteIrwinAnalysis),
            Some(s) => {
                let e = EngineEval::from_score(s);
                let engine_eval = if !flip {
                    e
                } else {
                    let ok = match e.cp {
                        Some(c) => c != i64::MIN,
                        None => true,
                    } && match e.mate {
                        Some(x) => x != i64::MIN,
                        None => true,
                    };
                    if !ok {
                        return Err(Error::TryFromIntError);
                    }
                    e.flip()
                };
                Ok(Analysis { uci: uci.clone(), engine_eval })
            },
        }
    }
}

/// The evaluations of the first `n` plies of `a`, each ply of odd index
/// flipped; the first ply without one fails.
pub open spec fn evals_spec(a: Seq<Option<PlyAnalysis>>, n: int) -> Result<Seq<EngineEval>, Error>
    decreases n,
{
    if n <= 0 {
        Ok(Seq::empty())
    } else {
        match evals_spec(a, n - 1) {
            Err(e) => Err(e),
            Ok(s) => match a[n - 1] {
                None => Err(Error::IncompleteIrwinAnalysis),
                Some(p) => match ply_eval(p, (n - 1) % 2 == 1) {
                    Err(e) => Err(e),
                    Ok(v) => Ok(s.push(v)),
                },
            },
        }
    }
}

/// The evaluations of the first `n` plies.
pub fn game_evals(moves: &Vec<String>, analysis: &Vec<Option<PlyAnalysis>>) -> (r: Result<
    Vec<EngineEval>,
    Error,
>)
    ensures
        ({
            let n = if moves@.len() < analysis@.len() {
                moves@.len() as int
            } else {
                analysis@.len() as int
            };
            &&& r is Ok <==> evals_spec(analysis@, n) is Ok
            &&& r is Ok ==> r->Ok_0@ == evals_spec(analysis@, n)->Ok_0
            &&& r is Err ==> r->Err_0 == evals_spec(analysis@, n)->Err_0
        }),
{
    let n: usize = if moves.len() < analysis.len() {
        moves.len()
    } else {
        analysis.len()
    };
    let mut out: Vec<EngineEval> = Vec::new();
    let mut i: usize = 0;
    while i < n
        invariant
            n == if moves@.len() < analysis@.len() {
                moves@.len()
            } else {
                analysis@.len()
            },
            i <= n,
            evals_spec(analysis@, i as int) == Ok::<Seq<EngineEval>, Error>(out@),
        decreases n - i,
    {
        match &analysis[i] {
            None => {
                proof {
                    assert(evals_spec(analysis@, i as int + 1) == Err::<Seq<EngineEval>, Error>(
                        Error::IncompleteIrwinAnalysis,
                    ));
                    lemma_evals_stick(analysis@, i as int + 1, n as int);
                }
                return Err(Error::IncompleteIrwinAnalysis);
            },
            Some(p) => match Analysis::from_ply_analysis(&moves[i], p, i % 2 == 1) {
                Err(e) => {
                    proof {
                        assert(evals_spec(analysis@, i as int + 1) == Err::<Seq<EngineEval>, Error>(
                            e,
                        ));
                        lemma_evals_stick(analysis@, i as int + 1, n as int);
                    }
                    return Err(e);
                },
                Ok(a) => {
                    out.push(a.engine_eval);
                },
            },
        }
        i = i + 1;
    }
    Ok(out)
}

/// Once the evaluations fail, they fail with the same error for every
/// longer prefix.
proof fn lemma_evals_stick(a: Seq<Option<PlyAnalysis>>, m: int, n: int)
    requires
        0 < m <= n,
        evals_spec(a, m) is Err,
    ensures
        evals_spec(a, n) == evals_spec(a, m),
    decreases n - m,
{
    if n > m {
        lemma_evals_stick(a, m, n - 1);
    }
}

/// A game in the downstream format: moves in SAN, one evaluation per ply.
#[derive(Clone, Debug)]
pub struct IrwinGame {
    pub id: String,
    pub white: String,
    pub black: String,
    pub pgn: Vec<String>,
    pub emts: Option<Vec<i32>>,
    pub analysis: Option<Vec<EngineEval>>,
    pub analysed: bool,
}

pub open spec fn name_or(u: Option<UserId>, fallback: Seq<char>) -> Seq<char> {
    match u {
        Some(x) => x.0@,
        None => fallback,
    }
}

fn player_name(u: &Option<UserId>, white: bool) -> (r: String)
    ensures
        r@ == name_or(*u, if white {
            "Unknown (white)"@
        } else {
            "Unknown (black)"@
        }),
{
    match u {
        Some(x) => x.0.clone(),
        None => if white {
            "Unknown (white)".to_string()
        } else {
            "Unknown (black)".to_string()
        },
    }
}

impl IrwinGame {
    /// The downstream form of a stored game, before its evaluations are
    /// attached.
    pub fn from_game(game: &Game) -> (r: Result<IrwinGame, Error>)
        ensures
            r is Ok <==> san_line(texts(game.pgn@)) is Some,
            r is Err ==> r == Err::<IrwinGame, Error>(Error::PositionError),
            r is Ok ==> {
                let g = r->Ok_0;
                &&& g.id@ == game.id.0@
                &&& g.white@ == name_or(game.white, "Unknown (white)"@)
                &&& g.black@ == name_or(game.black, "Unknown (black)"@)
                &&& texts(g.pgn@) == san_line(texts(game.pgn@))->0
                &&& g.emts is Some && g.emts->0@ == game.emts@
                &&& g.analysis is None
                &&& !g.analysed
            },
    {
        let pgn = match san_from_uci(&game.pgn) {
            Ok(p) => p,
            Err(e) => return Err(e),
        };
        Ok(IrwinGame {
            id: game.id.0.clone(),
            white: player_name(&game.white, true),
            black: player_name(&game.black, false),
            pgn,
            emts: Some(copy_emts(&game.emts)),
            analysis: None,
            analysed: false,
        })
    }
}

/// How many plies of `analysis` are scored: one per move of `game`, as far
/// as the analysis goes.
pub open spec fn scored_plies(game: Game, analysis: GameAnalysis) -> int {
    if game.pgn@.len() < analysis.analysis@.len() {
        game.pgn@.len() as int
    } else {
        analysis.analysis@.len() as int
    }
}

/// Whether `game` with `analysis` can be sent downstream: the first ply
/// that cannot be scored fails it, and otherwise a move that is not legal.
pub open spec fn game_check(game: Game, analysis: GameAnalysis) -> Result<(), Error> {
    match evals_spec(analysis.analysis@, scored_plies(game, analysis)) {
        Err(e) => Err(e),
        Ok(_) => if san_line(texts(game.pgn@)) is Some {
            Ok(())
        } else {
            Err(Error::PositionError)
        },
    }
}

/// `g` is the downstream form of `game` with the evaluations of `analysis`.
pub open spec fn is_irwin_game_of(g: IrwinGame, game: Game, analysis: GameAnalysis) -> bool {
    &&& g.id@ == game.id.0@
    &&& g.white@ == name_or(game.white, "Unknown (white)"@)
    &&& g.black@ == name_or(game.black, "Unknown (black)"@)
    &&& texts(g.pgn@) == san_line(texts(game.pgn@))->0
    &&& g.emts is Some && g.emts->0@ == game.emts@
    &&& g.analysis is Some && g.analysis->0@ == evals_spec(
        analysis.analysis@,
        scored_plies(game, analysis),
    )->Ok_0
    &&& g.analysed
}

/// The downstream form of `game` with the evaluations of `analysis`.
pub fn irwin_game(game: &Game, analysis: &GameAnalysis) -> (r: Result<IrwinGame, Error>)
    ensures
        r is Ok <==> game_check(*game, *analysis) is Ok,
        r is Err ==> r->Err_0 == game_check(*game, *analysis)->Err_0,
        r is Ok ==> is_irwin_game_of(r->Ok_0, *game, *analysis),
{
    let evals = match game_evals(&game.pgn, &analysis.analysis) {
        Ok(v) => v,
        Err(e) => return Err(e),
    };
    let mut g = match IrwinGame::from_game(game) {
        Ok(g) => g,
        Err(e) => return Err(e),
    };
    g.analysis = Some(evals);
    g.analysed = true;
    Ok(g)
}

/// A position the player reached, with its evaluations; never filled.
#[derive(Clone, Debug)]
pub struct AnalyzedPosition {
    pub id: String,
    pub analyses: Vec<Analysis>,
}

/// The payload sent downstream for a finished report.
#[derive(Clone, Debug)]
pub struct IrwinJob {
    pub player_id: String,
    pub games: Vec<IrwinGame>,
    pub analyzed_positions: Vec<AnalyzedPosition>,
}

/// A stored analysis and its game, if the game could be found.
pub struct AnalysedGame {
    pub analysis: GameAnalysis,
    pub game: Option<Game>,
}

/// The entries of `s` whose game was found, in order.
pub open spec fn found(s: Seq<AnalysedGame>) -> Seq<AnalysedGame>
    decreases s.len(),
{
    if s.len() == 0 {
        s
    } else if s.last().game is Some {
        found(s.drop_last()).push(s.last())
    } else {
        found(s.drop_last())
    }
}

/// Whether the first `n` entries of `s` can be sent downstream: entries
/// whose game was not found are passed over; the first found game that
/// fails its check fails them all.
pub open spec fn entries_check(s: Seq<AnalysedGame>, n: int) -> Result<(), Error>
    decreases n,
{
    if n <= 0 {
        Ok(())
    } else {
        match entries_check(s, n - 1) {
            Err(e) => Err(e),
            Ok(_) => match s[n - 1].game {
                None => Ok(()),
                Some(g) => game_check(g, s[n - 1].analysis),
            },
        }
    }
}

proof fn lemma_entries_stick(s: Seq<AnalysedGame>, m: int, n: int)
    requires
        0 < m <= n,
        entries_check(s, m) is Err,
    ensures
        entries_check(s, n) == entries_check(s, m),
    decreases n - m,
{
    if n > m {
        lemma_entries_stick(s, m, n - 1);
    }
}

/// The payload for `report` from its analysed games, in order; a game
/// that could not be found is left out, and any found game that cannot be
/// sent (see `game_check`) fails it.
pub fn irwin_job_from_report(report: &Report, analysed: &Vec<AnalysedGame>) -> (r: Result<
    IrwinJob,
    Error,
>)
    ensures
        r is Ok <==> entries_check(analysed@, analysed@.len() as int) is Ok,
        r is Err ==> r->Err_0 == entries_check(analysed@, analysed@.len() as int)->Err_0,
        r is Ok ==> {
            let j = r->Ok_0;
            &&& j.player_id@ == report.user_id.0@
            &&& j.games@.len() == found(analysed@).len()
            &&& forall|i: int|
                0 <= i < j.games@.len() ==> is_irwin_game_of(
                    #[trigger] j.games@[i],
                    found(analysed@)[i].game->0,
                    found(analysed@)[i].analysis,
                )
            &&& j.analyzed_positions@.len() == 0
        },
{
    let mut games: Vec<IrwinGame> = Vec::new();
    let mut i: usize = 0;
    while i < analysed.len()
        invariant
            i <= analysed@.len(),
            entries_check(analysed@, i as int) is Ok,
            games@.len() == found(analysed@.take(i as int)).len(),
            forall|k: int|
                0 <= k < games@.len() ==> is_irwin_game_of(
                    #[trigger] games@[k],
                    found(analysed@.take(i as int))[k].game->0,
                    found(analysed@.take(i as int))[k].analysis,
                ),
            forall|k: int|
                0 <= k < found(analysed@.take(i as int)).len() ==> (#[trigger] found(
                    analysed@.take(i as int),
                )[k]).game is Some,
        decreases analysed.len() - i,
    {
        proof {
            assert(analysed@.take(i + 1).drop_last() =~= analysed@.take(i as int));
            assert(analysed@.take(i + 1).last() == analysed@[i as int]);
        }
        match &analysed[i].game {
            None => {},
            Some(g) => {
                match irwin_game(g, &analysed[i].analysis) {
                    Ok(ig) => {
                        games.push(ig);
                    },
                    Err(e) => {
                        proof {
                            lemma_entries_stick(analysed@, i + 1, analysed@.len() as int);
                        }
                        return Err(e);
                    },
                }
            },
        }
        i = i + 1;
    }
    proof {
        assert(analysed@.take(i as int) =~= analysed@);
    }
    Ok(IrwinJob {
        player_id: report.user_id.0.clone(),
        games,
        analyzed_positions: Vec::new(),
    })
}

/// What a completion check on a report found and did.
#[derive(Clone, Copy, Debug, PartialEq, Eq, Structural)]
pub enum Completion {
    /// the job, its report binding or the report is missing
    Ignored,
    /// `complete` of the report's `total` jobs are complete, and that is
    /// not all of them (or there are none)
    InProgress { complete: u64, total: u64 },
    /// every job is complete, and the report was already claimed
    AlreadyShipped,
    /// every job is complete and this check claimed the report: the caller
    /// ships it
    Shipped,
}

/// All jobs of a report are complete; a report without jobs is not.
pub open spec fn all_done(jobs: Seq<Job>) -> bool {
    jobs.len() > 0 && count(jobs, finished()) == jobs.len()
}

/// How many of `jobs` are complete, and how many there are.
pub fn report_progress(jobs: &Vec<Job>) -> (r: (u64, u64))
    ensures
        r.0 == count(jobs@, finished()),
        r.1 == jobs@.len(),
{
    let mut c: u64 = 0;
    let mut i: usize = 0;
    while i < jobs.len()
        invariant
            i <= jobs@.len(),
            c == count(jobs@.take(i as int), finished()),
            c <= i,
        decreases jobs.len() - i,
    {
        proof {
            assert(jobs@.take(i + 1).drop_last() =~= jobs@.take(i as int));
            crate::queue::lemma_count_bound(jobs@.take(i as int), finished());
        }
        if jobs[i].is_complete {
            c = c + 1;
        }
        i = i + 1;
    }
    proof {
        assert(jobs@.take(i as int) =~= jobs@);
    }
    (c, i as u64)
}

/// Checks `report` against its jobs `jobs` at time `now`. When every job is
/// complete the report is claimed: the first check to find it unclaimed
/// marks it sent and completed, and only that check answers `Shipped`.
pub fn update_report_completeness(report: &mut Report, jobs: &Vec<Job>, now: i64) -> (r: Completion)
    ensures
        !all_done(jobs@) ==> r == (Completion::InProgress {
            complete: count(jobs@, finished()) as u64,
            total: jobs@.len() as u64,
        }) && *final(report) == *old(report),
        all_done(jobs@) && old(report).sent_to_irwin ==> r == Completion::AlreadyShipped
            && *final(report) == *old(report),
        all_done(jobs@) && !old(report).sent_to_irwin ==> r == Completion::Shipped
            && *final(report) == (Report {
            sent_to_irwin: true,
            date_completed: Some(now),
            ..*old(report)
        }),
{
    let (complete, total) = report_progress(jobs);
    if total == 0 || complete != total {
        return Completion::InProgress { complete, total };
    }
    if report.sent_to_irwin {
        Completion::AlreadyShipped
    } else {
        report.sent_to_irwin = true;
        report.date_completed = Some(now);
        Completion::Shipped
    }
}

/// The index of the report with id `id`.
pub fn find_report(reports: &Vec<Report>, id: ReportId) -> (r: Option<usize>)
    ensures
        match r {
            Some(i) => i < reports@.len() && reports@[i as int].id == id && forall|k: int|
                0 <= k < i ==> (#[trigger] reports@[k]).id != id,
            None => forall|k: int| 0 <= k < reports@.len() ==> (#[trigger] reports@[k]).id != id,
        },
{
    let mut i: usize = 0;
    while i < reports.len()
        invariant
            i <= reports@.len(),
            forall|k: int| 0 <= k < i ==> (#[trigger] reports@[k]).id != id,
        decreases reports.len() - i,
    {
        if reports[i].id == id {
            return Some(i);
        }
        i = i + 1;
    }
    None
}

/// The report a completed job asks to check: its own, if it has one.
pub fn report_to_check(job: &Option<Job>) -> (r: Option<ReportId>)
    ensures
        r == match job {
            Some(j) => j.report_id,
            None => None,
        },
{
    match job {
        Some(j) => j.report_id,
        None => None,
    }
}

/// Job `k` of `jobs` has id `job_id` and is bound to report `i` of
/// `reports`, the first report with that id.
pub open spec fn job_report_at(jobs: Seq<Job>, reports: Seq<Report>, job_id: JobId, k: int, i: int) -> bool {
    &&& 0 <= k < jobs.len()
    &&& jobs[k].id == job_id
    &&& 0 <= i < reports.len()
    &&& jobs[k].report_id == Some(reports[i].id)
    &&& forall|x: int| 0 <= x < i ==> (#[trigger] reports[x]).id != reports[i].id
}

/// Handles the completion of job `job_id`: finds its report and checks it
/// (see `update_report_completeness`) against the report's jobs. Without
/// the job, its report binding or the report, nothing happens.
pub fn handle_job_completed(
    table: &JobTable,
    reports: &mut Vec<Report>,
    job_id: JobId,
    now: i64,
) -> (r: Completion)
    requires
        table.wf(),
    ensures
        (r == Completion::Ignored) <==> !exists|k: int, i: int|
            job_report_at(table.jobs@, old(reports)@, job_id, k, i),
        r == Completion::Ignored ==> final(reports)@ == old(reports)@,
        forall|k: int, i: int|
            #[trigger] job_report_at(table.jobs@, old(reports)@, job_id, k, i) ==> {
                let jobs = jobs_of_report(table.jobs@, old(reports)@[i].id);
                let before = old(reports)@[i];
                &&& !all_done(jobs) ==> r == (Completion::InProgress {
                    complete: count(jobs, finished()) as u64,
                    total: jobs.len() as u64,
                }) && final(reports)@ == old(reports)@
                &&& all_done(jobs) && before.sent_to_irwin ==> r == Completion::AlreadyShipped
                    && final(reports)@ == old(reports)@
                &&& all_done(jobs) && !before.sent_to_irwin ==> r == Completion::Shipped
                    && final(reports)@ == old(reports)@.update(
                    i,
                    Report { sent_to_irwin: true, date_completed: Some(now), ..before },
                )
            },
{
    let found = table.get_job(job_id);
    let report_id = match report_to_check(&found) {
        Some(id) => id,
        None => {
            proof {
                assert forall|k: int, i: int|
                    !job_report_at(table.jobs@, old(reports)@, job_id, k, i) by {
                    if 0 <= k < table.jobs@.len() && table.jobs@[k].id == job_id {
                        assert(crate::queue::has_id(table.jobs@, job_id));
                        let kj = choose|x: int|
                            0 <= x < table.jobs@.len() && #[trigger] table.jobs@[x] == found->0
                                && found->0.id == job_id;
                        if k != kj {
                            assert(table.jobs@[k].id != table.jobs@[kj].id);
                        }
                    }
                }
            }
            return Completion::Ignored;
        },
    };
    let job = found.unwrap();
    let ghost kj = choose|x: int| 0 <= x < table.jobs@.len() && #[trigger] table.jobs@[x] == job && job.id == job_id;
    proof {
        assert forall|k: int| 0 <= k < table.jobs@.len() && (#[trigger] table.jobs@[k]).id == job_id implies k == kj by {
            if k != kj {
                assert(table.jobs@[k].id != table.jobs@[kj].id);
            }
        }
    }
    let i = match find_report(reports, report_id) {
        Some(i) => i,
        None => {
            proof {
                assert forall|k: int, x: int|
                    !job_report_at(table.jobs@, old(reports)@, job_id, k, x) by {
                    if 0 <= k < table.jobs@.len() && table.jobs@[k].id == job_id && 0 <= x
                        < old(reports)@.len() {
                        assert(k == kj);
                        assert(old(reports)@[x].id != report_id);
                    }
                }
            }
            return Completion::Ignored;
        },
    };
    proof {
        assert(job_report_at(table.jobs@, old(reports)@, job_id, kj, i as int));
        assert forall|k: int, x: int|
            job_report_at(table.jobs@, old(reports)@, job_id, k, x) implies k == kj && x
            == i by {
            assert(k == kj);
            if x < i {
                assert(old(reports)@[x].id != old(reports)@[i as int].id);
            } else if x > i {
                assert(old(reports)@[i as int].id != old(reports)@[x].id);
            }
        }
    }
    let jobs = table.find_by_report(report_id);
    let mut report = reports.remove(i);
    let r = update_report_completeness(&mut report, &jobs, now);
    reports.insert(i, report);
    proof {
        if r != Completion::Shipped {
            assert(final(reports)@ =~= old(reports)@);
        } else {
            assert(final(reports)@ =~= old(reports)@.update(
                i as int,
                Report { sent_to_irwin: true, date_completed: Some(now), ..old(reports)@[i as int] },
            ));
        }
    }
    r
}

/// How many of a series of checks on one report claim it, when the report
/// starts as `sent` and each check finds the jobs all done or not.
pub open spec fn claims(sent: bool, done: Seq<bool>) -> nat
    decreases done.len(),
{
    if done.len() == 0 {
        0
    } else {
        (if done[0] && !sent {
            1nat
        } else {
            0nat
        }) + claims(sent || done[0], done.drop_first())
    }
}

/// A report is shipped at most once, however many completion checks run on
/// it; and exactly once when it starts unsent and any check finds all its
/// jobs complete. A check claims a report exactly when
/// `update_report_completeness` answers `Shipped`, and leaves it sent.
pub proof fn lemma_ships_once(sent: bool, done: Seq<bool>)
    ensures
        claims(sent, done) <= 1,
        sent ==> claims(sent, done) == 0,
        !sent ==> (claims(sent, done) == 1 <==> done.contains(true)),
    decreases done.len(),
{
    if done.len() > 0 {
        lemma_ships_once(sent || done[0], done.drop_first());
        if !sent && !done[0] {
            assert(done.contains(true) <==> done.drop_first().contains(true)) by {
                if done.contains(true) {
                    let k = choose|k: int| 0 <= k < done.len() && done[k] == true;
                    assert(done.drop_first()[k - 1] == true);
                }
                if done.drop_first().contains(true) {
                    let k = choose|k: int| 0 <= k < done.drop_first().len() && done.drop_first()[k] == true;
                    assert(done[k + 1] == true);
                }
            }
        }
        if !sent && done[0] {
            assert(done[0] == true);
        }
    }
}

/// A completion check answers `Shipped` exactly when it claims the report
/// in the sense of `claims`, and leaves the report sent when the jobs are
/// all done.
pub proof fn lemma_check_is_claim(
    old_report: Report,
    new_report: Report,
    jobs: Seq<Job>,
    r: Completion,
    now: i64,
)
    requires
        !all_done(jobs) ==> new_report == old_report,
        all_done(jobs) && old_report.sent_to_irwin ==> r == Completion::AlreadyShipped
            && new_report == old_report,
        all_done(jobs) && !old_report.sent_to_irwin ==> r == Completion::Shipped && new_report
            == (Report { sent_to_irwin: true, date_completed: Some(now), ..old_report }),
        !all_done(jobs) ==> r is InProgress,
    ensures
        (r == Completion::Shipped) == (all_done(jobs) && !old_report.sent_to_irwin),
        new_report.sent_to_irwin == (old_report.sent_to_irwin || all_done(jobs)),
        claims(old_report.sent_to_irwin, seq![all_done(jobs)]) == if r == Completion::Shipped {
            1nat
        } else {
            0nat
        },
{
    let done = seq![all_done(jobs)];
    assert(done.drop_first() =~= Seq::<bool>::empty());
    assert(claims(old_report.sent_to_irwin || all_done(jobs), Seq::<bool>::empty()) == 0);
}

/// What the completion listener does with one message of the event bus.
#[derive(Clone, Copy, Debug, PartialEq, Eq, Structural)]
pub enum FishnetMsg {
    JobAcquired(JobId),
    JobAborted(JobId),
    JobCompleted(JobId),
}

/// What a receive on the event bus gave.
#[derive(Clone, Copy, Debug, PartialEq, Eq, Structural)]
pub enum Received {
    Msg(FishnetMsg),
    /// the listener fell behind and this many messages were dropped
    Lagged(u64),
    Closed,
}

#[derive(Clone, Copy, Debug, PartialEq, Eq, Structural)]
pub enum ListenerAction {
    /// log the event and go on
    Note(FishnetMsg),
    /// check the report of this job for completion
    CheckReport(JobId),
    /// log how many messages were dropped and go on
    NoteLag(u64),
    Stop,
}

/// The listener checks a report on every completion, logs acquisitions,
/// aborts and lag, and stops when the bus closes.
pub fn fishnet_listener_step(received: Received) -> (r: ListenerAction)
    ensures
        r == match received {
            Received::Msg(FishnetMsg::JobCompleted(id)) => ListenerAction::CheckReport(id),
            Received::Msg(m) => ListenerAction::Note(m),
            Received::Lagged(n) => ListenerAction::NoteLag(n),
            Received::Closed => ListenerAction::Stop,
        },
{
    match received {
        Received::Msg(FishnetMsg::JobCompleted(id)) => ListenerAction::CheckReport(id),
        Received::Msg(m) => ListenerAction::Note(m),
        Received::Lagged(n) => ListenerAction::NoteLag(n),
        Received::Closed => ListenerAction::Stop,
    }
}

} // verus!

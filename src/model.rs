//! The durable records of the analysis queue: reports, games, jobs, game
//! analyses and API users, with the identifiers they are keyed on.
use vstd::prelude::*;

use crate::crypto::{all_alphanumeric, random_alphanumeric_string};

verus! {

/// A 12-byte store identifier: a 4-byte creation stamp and 8 further bytes.
#[derive(Clone, Copy, Debug, PartialEq, Eq, Structural, Hash)]
pub struct ObjectId {
    pub stamp: u32,
    pub rest: u64,
}

#[derive(Clone, Debug)]
pub struct UserId(pub String);

#[derive(Clone, Debug)]
pub struct GameId(pub String);

/// The secret credential of an API user.
#[derive(Clone, Debug)]
pub struct Key(pub String);

#[derive(Clone, Copy, Debug, PartialEq, Eq, Structural, Hash)]
pub struct ReportId(pub ObjectId);

#[derive(Clone, Copy, Debug, PartialEq, Eq, Structural, Hash)]
pub struct JobId(pub ObjectId);

#[derive(Clone, Copy, Debug, PartialEq, Eq, Structural, Hash)]
pub struct ApiUserId(pub ObjectId);

#[derive(Clone, Copy, Debug, PartialEq, Eq, Structural, Hash)]
pub struct GameAnalysisId(pub ObjectId);

/// The lower-case form of `s`.
pub uninterp spec fn lower_of(s: Seq<char>) -> Seq<char>;

/// Relies on `str::to_lowercase`: the result depends on the characters
/// alone, and an empty string stays empty.
#[verifier::external_body]
fn lowercase(s: &str) -> (r: String)
    ensures
        r@ == lower_of(s@),
        s@.len() == 0 ==> r@.len() == 0,
{
    s.to_lowercase()
}

impl UserId {
    pub fn duplicate(&self) -> (r: UserId)
        ensures
            r == *self,
    {
        UserId(self.0.clone())
    }

    /// The id as it is stored: lower-cased.
    pub fn persisted(&self) -> (r: UserId)
        ensures
            r.0@ == lower_of(self.0@),
    {
        UserId(lowercase(self.0.as_str()))
    }
}

impl GameId {
    pub fn duplicate(&self) -> (r: GameId)
        ensures
            r == *self,
    {
        GameId(self.0.clone())
    }

    /// The id as it is stored: lower-cased.
    pub fn persisted(&self) -> (r: GameId)
        ensures
            r.0@ == lower_of(self.0@),
    {
        GameId(lowercase(self.0.as_str()))
    }
}

impl Key {
    pub fn duplicate(&self) -> (r: Key)
        ensures
            r == *self,
    {
        Key(self.0.clone())
    }

    /// Whether `owner` names this key.
    pub fn owns(&self, owner: &Option<Key>) -> (r: bool)
        ensures
            r == owned_by(*owner, *self),
    {
        match owner {
            Some(k) => k.0 == self.0,
            None => false,
        }
    }
}

/// `owner` holds a key with the same text as `key`.
pub open spec fn owned_by(owner: Option<Key>, key: Key) -> bool {
    match owner {
        Some(k) => k.0@ == key.0@,
        None => false,
    }
}

/// Copies an optional user id.
pub(crate) fn duplicate_user(u: &Option<UserId>) -> (r: Option<UserId>)
    ensures
        r == *u,
{
    match u {
        Some(x) => Some(x.duplicate()),
        None => None,
    }
}

/// Which kind of engine work a job asks for.
#[derive(Clone, Copy, Debug, PartialEq, Eq, Structural, Hash)]
pub enum AnalysisType {
    /// analysis a user asked for, single line
    UserAnalysis,
    /// analysis the system asked for, single line
    SystemAnalysis,
    /// review analysis: several lines, whole game
    Deep,
}

/// Where a review request came from.
#[derive(Clone, Copy, Debug, PartialEq, Eq, Structural, Hash)]
pub enum ReportOrigin {
    Moderator,
    Random,
    Leaderboard,
    Tournament,
}

#[derive(Clone, Copy, Debug, PartialEq, Eq, Structural, Hash)]
pub enum ReportType {
    Irwin,
    CR,
    PGNSPY,
}

/// The scheduling priority given to the jobs of a report of this origin.
pub open spec fn origin_precedence(origin: ReportOrigin) -> int {
    match origin {
        ReportOrigin::Moderator => 1_000_000,
        ReportOrigin::Leaderboard => 1_000,
        ReportOrigin::Tournament => 100,
        ReportOrigin::Random => 10,
    }
}

pub fn precedence_for_origin(origin: ReportOrigin) -> (r: i32)
    ensures
        r == origin_precedence(origin),
{
    match origin {
        ReportOrigin::Moderator => 1_000_000i32,
        ReportOrigin::Leaderboard => 1000i32,
        ReportOrigin::Tournament => 100i32,
        ReportOrigin::Random => 10i32,
    }
}

/// A worker identity: its key is its only credential.
#[derive(Clone, Debug)]
pub struct ApiUser {
    pub id: ApiUserId,
    pub key: Key,
    pub user: Option<UserId>,
    pub name: String,
    pub perms: Vec<AnalysisType>,
}

#[derive(Clone, Debug)]
pub struct CreateApiUser {
    pub user: Option<UserId>,
    pub name: String,
    pub perms: Vec<AnalysisType>,
}

/// Length of a freshly minted key.
pub const KEY_LENGTH: usize = 7;

impl ApiUser {
    /// A new API user with a fresh random alphanumeric key.
    pub fn from_create(create: CreateApiUser, id: ApiUserId) -> (r: ApiUser)
        ensures
            r.id == id,
            r.key.0@.len() == KEY_LENGTH,
            all_alphanumeric(r.key.0@),
            r.user == create.user,
            r.name@ == create.name@,
            r.perms@ == create.perms@,
    {
        ApiUser {
            id,
            key: Key(random_alphanumeric_string(KEY_LENGTH)),
            user: create.user,
            name: create.name,
            perms: create.perms,
        }
    }

    /// Whether this user may take work of `kind`.
    pub fn permits(&self, kind: AnalysisType) -> (r: bool)
        ensures
            r == self.perms@.contains(kind),
    {
        let mut i: usize = 0;
        while i < self.perms.len()
            invariant
                i <= self.perms@.len(),
                forall|k: int| 0 <= k < i ==> self.perms@[k] != kind,
            decreases self.perms.len() - i,
        {
            if self.perms[i] == kind {
                assert(self.perms@[i as int] == kind);
                return true;
            }
            i = i + 1;
        }
        false
    }
}

/// A review of one player over a list of games.
#[derive(Clone, Debug)]
pub struct Report {
    pub id: ReportId,
    pub user_id: UserId,
    /// milliseconds since the epoch
    pub date_requested: i64,
    pub date_completed: Option<i64>,
    pub origin: ReportOrigin,
    pub report_type: ReportType,
    pub games: Vec<GameId>,
    /// set once, when the report is handed downstream
    pub sent_to_irwin: bool,
}

#[derive(Clone, Debug)]
pub struct CreateReport {
    pub user_id: UserId,
    pub origin: ReportOrigin,
    pub report_type: ReportType,
    pub games: Vec<GameId>,
}

impl Report {
    /// A new report: not completed and not yet sent downstream.
    pub fn from_create(create: CreateReport, id: ReportId, now: i64) -> (r: Report)
        ensures
            r.id == id,
            r.user_id == create.user_id,
            r.date_requested == now,
            r.date_completed is None,
            r.origin == create.origin,
            r.report_type == create.report_type,
            r.games@ == create.games@,
            !r.sent_to_irwin,
    {
        Report {
            id,
            user_id: create.user_id,
            date_requested: now,
            date_completed: None,
            origin: create.origin,
            report_type: create.report_type,
            games: create.games,
            sent_to_irwin: false,
        }
    }
}

/// A game as stored: its moves in UCI notation.
#[derive(Clone, Debug)]
pub struct Game {
    pub id: GameId,
    pub emts: Vec<i32>,
    pub pgn: Vec<String>,
    pub black: Option<UserId>,
    pub white: Option<UserId>,
}

/// A game to store: `game_id` becomes its id.
#[derive(Clone, Debug)]
pub struct CreateGame {
    pub game_id: GameId,
    pub emts: Vec<i32>,
    pub pgn: Vec<String>,
    pub black: Option<UserId>,
    pub white: Option<UserId>,
}

impl Game {
    pub fn from_create(create: CreateGame) -> (r: Game)
        ensures
            r.id == create.game_id,
            r.emts@ == create.emts@,
            r.pgn@ == create.pgn@,
            r.black == create.black,
            r.white == create.white,
    {
        Game {
            id: create.game_id,
            emts: create.emts,
            pgn: create.pgn,
            black: create.black,
            white: create.white,
        }
    }
}

/// A unit of engine work for one game.
#[derive(Clone, Debug)]
pub struct Job {
    pub id: JobId,
    pub game_id: GameId,
    pub analysis_type: AnalysisType,
    pub precedence: i32,
    /// the key of the worker that holds the job, if any
    pub owner: Option<Key>,
    /// milliseconds since the epoch
    pub date_last_updated: i64,
    pub report_id: Option<ReportId>,
    pub is_complete: bool,
}

#[derive(Clone, Debug)]
pub struct CreateJob {
    pub game_id: GameId,
    pub report_id: Option<ReportId>,
    pub analysis_type: AnalysisType,
    pub precedence: i32,
}

/// The job that `create` becomes under `id` at time `now`.
pub open spec fn new_job(create: CreateJob, id: JobId, now: i64) -> Job {
    Job {
        id,
        game_id: create.game_id,
        analysis_type: create.analysis_type,
        precedence: create.precedence,
        owner: None,
        date_last_updated: now,
        report_id: create.report_id,
        is_complete: false,
    }
}

impl Job {
    /// A new job: queued, not complete, stamped with `now`.
    pub fn from_create(create: CreateJob, id: JobId, now: i64) -> (r: Job)
        ensures
            r == new_job(create, id, now),
            r.id == id,
            r.game_id == create.game_id,
            r.report_id == create.report_id,
            r.analysis_type == create.analysis_type,
            r.precedence == create.precedence,
            r.owner is None,
            r.date_last_updated == now,
            !r.is_complete,
    {
        Job {
            id,
            game_id: create.game_id,
            analysis_type: create.analysis_type,
            precedence: create.precedence,
            owner: None,
            date_last_updated: now,
            report_id: create.report_id,
            is_complete: false,
        }
    }

    pub fn duplicate(&self) -> (r: Job)
        ensures
            r == *self,
    {
        let owner = match &self.owner {
            Some(k) => Some(k.duplicate()),
            None => None,
        };
        Job {
            id: self.id,
            game_id: self.game_id.duplicate(),
            analysis_type: self.analysis_type,
            precedence: self.precedence,
            owner,
            date_last_updated: self.date_last_updated,
            report_id: self.report_id,
            is_complete: self.is_complete,
        }
    }

    /// Whole seconds from the job's last update to `now` (both in
    /// milliseconds), rounded toward zero.
    pub fn seconds_since_created(&self, now: i64) -> (r: i64)
        requires
            i64::MIN <= now - self.date_last_updated <= i64::MAX,
        ensures
            r == whole_seconds(now - self.date_last_updated),
    {
        let d: i64 = now - self.date_last_updated;
        d / 1000
    }
}

/// `d / 1000` rounded toward zero.
pub open spec fn whole_seconds(d: int) -> int {
    if d >= 0 {
        d / 1000
    } else {
        -((-d) / 1000)
    }
}

/// Engine budget in nodes, by evaluation flavour.
#[derive(Clone, Copy, Debug, PartialEq, Eq, Structural)]
pub struct Nodes {
    pub nnue: i64,
    pub classical: i64,
}

/// An engine score: centipawns or moves to mate.
#[derive(Clone, Copy, Debug, PartialEq, Eq, Structural)]
pub enum Score {
    Cp(i64),
    Mate(i64),
}

#[derive(Clone, Copy, Debug, PartialEq, Eq, Structural)]
pub struct SkippedAnalysis {
    pub skipped: bool,
}

#[derive(Clone, Copy, Debug, PartialEq, Eq, Structural)]
pub struct EmptyAnalysis {
    pub depth: i32,
    pub score: Score,
}

/// A single best line; `pv` holds UCI moves.
#[derive(Clone, Debug)]
pub struct BestMove {
    pub pv: Vec<String>,
    pub depth: i32,
    pub score: Score,
    pub time: i64,
    pub nodes: i64,
    pub nps: Option<i64>,
}

/// The full multi-line grid: `score[line][depth]`.
#[derive(Clone, Debug)]
pub struct MatrixAnalysis {
    pub pv: Vec<Vec<Option<Vec<String>>>>,
    pub score: Vec<Vec<Option<Score>>>,
    pub depth: i32,
    pub nodes: i64,
    pub time: i64,
    pub nps: Option<i64>,
}

/// What a worker reports for one ply.
#[derive(Clone, Debug)]
pub enum PlyAnalysis {
    Matrix(MatrixAnalysis),
    Best(BestMove),
    Skipped(SkippedAnalysis),
    Empty(EmptyAnalysis),
}

/// No ply slot is empty.
pub open spec fn all_plies_present(a: Seq<Option<PlyAnalysis>>) -> bool {
    forall|i: int| 0 <= i < a.len() ==> (#[trigger] a[i]) is Some
}

/// Whether every slot of `a` holds an analysis.
pub fn plies_present(a: &Vec<Option<PlyAnalysis>>) -> (r: bool)
    ensures
        r == all_plies_present(a@),
{
    let mut i: usize = 0;
    while i < a.len()
        invariant
            i <= a.len(),
            forall|k: int| 0 <= k < i ==> (#[trigger] a@[k]) is Some,
        decreases a.len() - i,
    {
        if a[i].is_none() {
            return false;
        }
        i = i + 1;
    }
    true
}

/// The per-ply results stored against a job.
#[derive(Clone, Debug)]
pub struct GameAnalysis {
    pub id: GameAnalysisId,
    pub job_id: JobId,
    pub game_id: GameId,
    /// the API user that sent the analysis
    pub source_id: ApiUserId,
    pub analysis: Vec<Option<PlyAnalysis>>,
    pub requested_pvs: Option<i32>,
    pub requested_depth: Option<i32>,
    pub requested_nodes: Nodes,
}

#[derive(Clone, Debug)]
pub struct CreateGameAnalysis {
    pub job_id: JobId,
    pub game_id: GameId,
    /// the API user that sent the analysis
    pub source_id: ApiUserId,
    pub analysis: Vec<Option<PlyAnalysis>>,
    pub requested_pvs: Option<i32>,
    pub requested_depth: Option<i32>,
    pub requested_nodes: Nodes,
}

impl GameAnalysis {
    pub fn from_create(create: CreateGameAnalysis, id: GameAnalysisId) -> (r: GameAnalysis)
        ensures
            r.id == id,
            r.job_id == create.job_id,
            r.game_id == create.game_id,
            r.source_id == create.source_id,
            r.analysis@ == create.analysis@,
            r.requested_pvs == create.requested_pvs,
            r.requested_depth == create.requested_depth,
            r.requested_nodes == create.requested_nodes,
    {
        GameAnalysis {
            id,
            job_id: create.job_id,
            game_id: create.game_id,
            source_id: create.source_id,
            analysis: create.analysis,
            requested_pvs: create.requested_pvs,
            requested_depth: create.requested_depth,
            requested_nodes: create.requested_nodes,
        }
    }

    /// Complete when no ply slot is empty.
    pub fn is_analysis_complete(&self) -> (r: bool)
        ensures
            r == all_plies_present(self.analysis@),
    {
        plies_present(&self.analysis)
    }
}

} // verus!

//! The worker protocol: credentials, the work handed out with a job, the
//! analyses workers send back, and the queue status.
use vstd::prelude::*;

use crate::error::{Error, HttpError};
use crate::model::{
    all_plies_present, duplicate_user, owned_by, whole_seconds, AnalysisType, ApiUser,
    CreateGameAnalysis, Game, GameId, JobId, Key, Nodes as ModelNodes, PlyAnalysis,
};
use crate::irwin::FishnetMsg;
use crate::model;
use crate::queue::{
    acquired_of, completed, count, is_next_for, is_oldest, queued_of, with_owner, JobTable,
};

verus! {

/// The board every game starts from, in FEN.
pub open spec fn standard_fen() -> Seq<char> {
    "rnbqkbnr/pppppppp/8/8/8/8/PPPPPPPP/RNBQKBNR w KQkq - 0 1"@
}

/// The position a game's moves are played from: the standard one, as no
/// game carries another.
pub fn starting_position(_game: &Game) -> (r: String)
    ensures
        r@ == standard_fen(),
{
    "rnbqkbnr/pppppppp/8/8/8/8/PPPPPPPP/RNBQKBNR w KQkq - 0 1".to_string()
}

#[derive(Clone, Copy, Debug, PartialEq, Eq, Structural)]
pub enum Variant {
    Standard,
}

#[derive(Clone, Copy, Debug, PartialEq, Eq, Structural)]
pub enum WorkType {
    Analysis,
    Move,
}

/// The engine budget handed to a worker.
#[derive(Clone, Copy, Debug, PartialEq, Eq, Structural)]
pub struct Nodes {
    pub nnue: u64,
    pub classical: u64,
}

pub open spec fn nodes_spec(kind: AnalysisType) -> Nodes {
    match kind {
        AnalysisType::Deep => Nodes { nnue: 2_500_000, classical: 4_500_000 },
        _ => Nodes { nnue: 2_250_000, classical: 4_050_000 },
    }
}

pub open spec fn multipv_spec(kind: AnalysisType) -> Option<u8> {
    match kind {
        AnalysisType::Deep => Some(5u8),
        _ => None,
    }
}

pub open spec fn skip_positions_spec(kind: AnalysisType) -> Seq<u8> {
    match kind {
        AnalysisType::Deep => Seq::empty(),
        _ => seq![0u8, 1, 2, 3, 4, 5, 6, 7, 8, 9],
    }
}

pub fn nodes_for_job(job: &model::Job) -> (r: Nodes)
    ensures
        r == nodes_spec(job.analysis_type),
{
    match job.analysis_type {
        AnalysisType::UserAnalysis => Nodes { nnue: 2_250_000, classical: 4_050_000 },
        AnalysisType::SystemAnalysis => Nodes { nnue: 2_250_000, classical: 4_050_000 },
        AnalysisType::Deep => Nodes { nnue: 2_500_000, classical: 4_500_000 },
    }
}

/// How many lines the engine reports; never zero when present.
pub fn multipv_for_job(job: &model::Job) -> (r: Option<u8>)
    ensures
        r == multipv_spec(job.analysis_type),
{
    match job.analysis_type {
        AnalysisType::Deep => Some(5u8),
        _ => None,
    }
}

/// No kind asks for a fixed depth.
pub fn depth_for_job(_job: &model::Job) -> (r: Option<u8>)
    ensures
        r is None,
{
    None
}

/// The plies at the start of the game that the engine may leave out.
pub fn skip_positions_for_job(job: &model::Job) -> (r: Vec<u8>)
    ensures
        r@ == skip_positions_spec(job.analysis_type),
{
    match job.analysis_type {
        AnalysisType::Deep => Vec::new(),
        _ => {
            let v: Vec<u8> = vec![0, 1, 2, 3, 4, 5, 6, 7, 8, 9];
            assert(v@ =~= seq![0u8, 1, 2, 3, 4, 5, 6, 7, 8, 9]);
            v
        },
    }
}

/// The node budget as stored with an analysis; refused when a count does
/// not fit a signed 64-bit integer.
pub fn model_nodes(nodes: Nodes) -> (r: Result<ModelNodes, Error>)
    ensures
        nodes.nnue <= i64::MAX && nodes.classical <= i64::MAX ==> r == Ok::<ModelNodes, Error>(
            ModelNodes { nnue: nodes.nnue as i64, classical: nodes.classical as i64 },
        ),
        !(nodes.nnue <= i64::MAX && nodes.classical <= i64::MAX) ==> r == Err::<ModelNodes, Error>(
            Error::TryFromIntError,
        ),
{
    if nodes.nnue <= i64::MAX as u64 && nodes.classical <= i64::MAX as u64 {
        Ok(ModelNodes { nnue: nodes.nnue as i64, classical: nodes.classical as i64 })
    } else {
        Err(Error::TryFromIntError)
    }
}

#[derive(Clone, Copy, Debug, PartialEq, Eq, Structural)]
pub struct WorkInfo {
    pub work_type: WorkType,
    pub id: JobId,
    pub nodes: Nodes,
    pub depth: Option<u8>,
    pub multipv: Option<u8>,
}

/// The work a worker receives: the game's moves from the starting position.
#[derive(Clone, Debug)]
pub struct Job {
    pub work: WorkInfo,
    pub game_id: String,
    /// in FEN
    pub position: String,
    pub variant: Variant,
    /// in UCI notation
    pub moves: Vec<String>,
    pub skip_positions: Vec<u8>,
}

/// `w` is the work handed out for job `j` on game `g`.
pub open spec fn is_work_for(w: Job, j: model::Job, g: Game) -> bool {
    &&& w.work == WorkInfo {
        work_type: WorkType::Analysis,
        id: j.id,
        nodes: nodes_spec(j.analysis_type),
        depth: None,
        multipv: multipv_spec(j.analysis_type),
    }
    &&& w.game_id@ == j.game_id.0@
    &&& w.position@ == standard_fen()
    &&& w.variant == Variant::Standard
    &&& w.moves@ == g.pgn@
    &&& w.skip_positions@ == skip_positions_spec(j.analysis_type)
}

fn copy_strings(v: &Vec<String>) -> (r: Vec<String>)
    ensures
        r@ == v@,
{
    let mut out: Vec<String> = Vec::new();
    let mut i: usize = 0;
    while i < v.len()
        invariant
            i <= v@.len(),
            out@ == v@.take(i as int),
        decreases v.len() - i,
    {
        out.push(v[i].clone());
        proof {
            assert(v@.take(i + 1) =~= v@.take(i as int).push(v@[i as int]));
        }
        i = i + 1;
    }
    proof {
        assert(v@.take(i as int) =~= v@);
    }
    out
}

/// The work for job `job` on its game `game`.
pub fn work_for(job: &model::Job, game: &Game) -> (r: Job)
    ensures
        is_work_for(r, *job, *game),
{
    Job {
        work: WorkInfo {
            work_type: WorkType::Analysis,
            id: job.id,
            nodes: nodes_for_job(job),
            depth: depth_for_job(job),
            multipv: multipv_for_job(job),
        },
        game_id: job.game_id.0.clone(),
        position: starting_position(game),
        variant: Variant::Standard,
        moves: copy_strings(&game.pgn),
        skip_positions: skip_positions_for_job(job),
    }
}

/// The first index of `games` whose game has id `id`.
pub open spec fn first_game(games: Seq<Game>, id: GameId, i: int) -> bool {
    &&& 0 <= i < games.len()
    &&& games[i].id.0@ == id.0@
    &&& forall|k: int| 0 <= k < i ==> (#[trigger] games[k]).id.0@ != id.0@
}

pub open spec fn has_game(games: Seq<Game>, id: GameId) -> bool {
    exists|i: int| 0 <= i < games.len() && (#[trigger] games[i]).id.0@ == id.0@
}

/// The index of the game with id `id`.
pub fn find_game(games: &Vec<Game>, id: &GameId) -> (r: Option<usize>)
    ensures
        match r {
            Some(i) => first_game(games@, *id, i as int),
            None => !has_game(games@, *id),
        },
{
    let mut i: usize = 0;
    while i < games.len()
        invariant
            i <= games@.len(),
            forall|k: int| 0 <= k < i ==> (#[trigger] games@[k]).id.0@ != id.0@,
        decreases games.len() - i,
    {
        if games[i].id.0 == id.0 {
            return Some(i);
        }
        i = i + 1;
    }
    None
}

/// What follows a claim, once the claimed job's game has been looked up.
#[derive(Clone, Debug)]
pub enum AcquireStep {
    /// hand this work to the worker
    Hand(Job),
    /// the game is missing: delete the job, there is no work
    Delete(JobId),
    /// the lookup failed: release the job and report the failure
    Release(JobId),
}

/// Decides what follows the claim of `job` from the lookup of its game.
pub fn after_claim(job: &model::Job, game: Result<Option<&Game>, Error>) -> (r: AcquireStep)
    ensures
        game is Err ==> r == AcquireStep::Release(job.id),
        game == Ok::<Option<&Game>, Error>(None) ==> r == AcquireStep::Delete(job.id),
        game is Ok && game->Ok_0 is Some ==> r is Hand && is_work_for(
            r->Hand_0,
            *job,
            *game->Ok_0->0,
        ),
{
    match game {
        Err(_) => AcquireStep::Release(job.id),
        Ok(None) => AcquireStep::Delete(job.id),
        Ok(Some(g)) => AcquireStep::Hand(work_for(job, g)),
    }
}

/// The event a step announces: a handed-out job was acquired.
pub fn acquired_event(step: &AcquireStep) -> (r: Option<FishnetMsg>)
    ensures
        r == match step {
            AcquireStep::Hand(w) => Some(FishnetMsg::JobAcquired(w.work.id)),
            _ => None,
        },
{
    match step {
        AcquireStep::Hand(w) => Some(FishnetMsg::JobAcquired(w.work.id)),
        _ => None,
    }
}

/// An abort announces itself only when it released the job.
pub fn abort_event(released: bool, id: JobId) -> (r: Option<FishnetMsg>)
    ensures
        r == if released {
            Some(FishnetMsg::JobAborted(id))
        } else {
            None
        },
{
    if released {
        Some(FishnetMsg::JobAborted(id))
    } else {
        None
    }
}

/// Hands `api_user` the next job (see `JobTable::assign_job`) with its
/// game's moves. A claimed job whose game is missing is deleted, and the
/// answer is then that there is no work.
pub fn acquire_job(table: &mut JobTable, games: &Vec<Game>, api_user: &ApiUser) -> (r: Option<Job>)
    requires
        old(table).wf(),
    ensures
        final(table).wf(),
        final(table).created == old(table).created,
        (forall|k: int|
            0 <= k < old(table).jobs@.len() ==> !crate::queue::is_eligible(
                #[trigger] old(table).jobs@[k],
                api_user.perms@,
            )) ==> r is None && *final(table) == *old(table),
        r is Some ==> exists|i: int, g: int|
            {
                &&& is_next_for(old(table).jobs@, api_user.perms@, i)
                &&& #[trigger] first_game(games@, old(table).jobs@[i].game_id, g)
                &&& final(table).jobs@ == old(table).jobs@.update(
                    i,
                    with_owner(old(table).jobs@[i], Some(api_user.key)),
                )
                &&& is_work_for(r->0, final(table).jobs@[i], games@[g])
            },
        r is None && *final(table) == *old(table) ==> forall|k: int|
            0 <= k < old(table).jobs@.len() ==> !crate::queue::is_eligible(
                #[trigger] old(table).jobs@[k],
                api_user.perms@,
            ),
        r is None && *final(table) != *old(table) ==> exists|i: int|
            {
                &&& is_next_for(old(table).jobs@, api_user.perms@, i)
                &&& !has_game(games@, old(table).jobs@[i].game_id)
                &&& final(table).jobs@ == old(table).jobs@.remove(i)
                &&& final(table).deleted == old(table).deleted + 1
            },
{
    match table.assign_job(api_user) {
        None => None,
        Some(job) => {
            let ghost claimed = table.jobs@;
            let found = find_game(games, &job.game_id);
            let lookup: Result<Option<&Game>, Error> = match found {
                Some(g) => Ok(Some(&games[g])),
                None => Ok(None),
            };
            match after_claim(&job, lookup) {
                AcquireStep::Hand(w) => {
                    proof {
                        let g = found->0 as int;
                        let i = choose|i: int|
                            is_next_for(old(table).jobs@, api_user.perms@, i) && claimed
                                == old(table).jobs@.update(
                                i,
                                with_owner(old(table).jobs@[i], Some(api_user.key)),
                            ) && job == claimed[i];
                        assert(first_game(games@, old(table).jobs@[i].game_id, g));
                        assert(table.jobs@ == old(table).jobs@.update(
                            i,
                            with_owner(old(table).jobs@[i], Some(api_user.key)),
                        ));
                        assert(is_next_for(old(table).jobs@, api_user.perms@, i));
                    }
                    Some(w)
                },
                AcquireStep::Delete(id) => {
                    table.delete_job(id);
                    proof {
                        let i = choose|i: int|
                            is_next_for(old(table).jobs@, api_user.perms@, i) && claimed
                                == old(table).jobs@.update(
                                i,
                                with_owner(old(table).jobs@[i], Some(api_user.key)),
                            ) && job == claimed[i];
                        assert(claimed[i].id == job.id);
                        let x = choose|x: int|
                            0 <= x < claimed.len() && (#[trigger] claimed[x]).id == job.id
                                && table.jobs@ == claimed.remove(x);
                        assert(x == i);
                        assert(table.jobs@ =~= old(table).jobs@.remove(i));
                        assert(table.jobs@.len() < old(table).jobs@.len());
                    }
                    None
                },
                AcquireStep::Release(_) => None,
            }
        },
    }
}

/// The part of a request that names the worker.
#[derive(Clone, Debug)]
pub struct RequestInfo {
    pub version: String,
    pub api_key: Key,
}

#[derive(Clone, Debug)]
pub struct FishnetRequest {
    pub fishnet: RequestInfo,
}

#[derive(Clone, Debug)]
pub struct AcquireRequest {
    pub fishnet: RequestInfo,
}

#[derive(Clone, Copy, Debug, PartialEq, Eq, Structural)]
pub enum StockfishFlavor {
    Nnue,
    Classical,
}

#[derive(Clone, Copy, Debug, PartialEq, Eq, Structural)]
pub struct StockfishType {
    pub flavor: StockfishFlavor,
}

/// A score in the worker's reply: centipawns or mate, either may be absent.
#[derive(Clone, Copy, Debug, PartialEq, Eq, Structural)]
pub struct PlyScore {
    pub cp: Option<i32>,
    pub mate: Option<i32>,
}

/// One searched line in the worker's single-line reply format.
#[derive(Clone, Debug)]
pub struct FullAnalysis {
    pub pv: String,
    pub depth: i32,
    pub score: PlyScore,
    pub time: i32,
    pub nodes: i32,
    pub nps: i32,
}

/// A worker's reply for a job: one slot per ply, empty where not analysed.
#[derive(Clone, Debug)]
pub struct AnalysisReport {
    pub fishnet: RequestInfo,
    pub stockfish: StockfishType,
    pub analysis: Vec<Option<PlyAnalysis>>,
}

impl AnalysisReport {
    /// Complete when no slot is empty.
    pub fn is_complete(&self) -> (r: bool)
        ensures
            r == all_plies_present(self.analysis@),
    {
        model::plies_present(&self.analysis)
    }
}

/// A worker's key taken from an `Authorization` header.
#[derive(Clone, Debug)]
pub struct HeaderKey(pub Key);

pub open spec fn key_text(h: HeaderKey) -> Seq<char> {
    match h {
        HeaderKey(Key(s)) => s@,
    }
}

pub open spec fn bearer() -> Seq<char> {
    "Bearer "@
}

/// Relies on `str::strip_prefix`: `Some(rest)` exactly when `s` starts
/// with `prefix`, `rest` being what follows it.
#[verifier::external_body]
fn strip_prefix(s: &str, prefix: &str) -> (r: Option<String>)
    ensures
        match r {
            Some(rest) => s@ == prefix@ + rest@,
            None => !prefix@.is_prefix_of(s@),
        },
{
    s.strip_prefix(prefix).map(|rest| rest.to_string())
}

impl HeaderKey {
    /// Reads `Bearer <key>`; anything else is a malformed header.
    pub fn parse(s: &str) -> (r: Result<HeaderKey, Error>)
        ensures
            bearer().is_prefix_of(s@) <==> r is Ok,
            r is Ok ==> s@ == bearer() + key_text(r->Ok_0),
            r is Err ==> r == Err::<HeaderKey, Error>(Error::HttpError(HttpError::MalformedHeader)),
    {
        match strip_prefix(s, "Bearer ") {
            Some(rest) => {
                proof {
                    assert(bearer().is_prefix_of(s@)) by {
                        assert(s@.subrange(0, bearer().len() as int) =~= bearer());
                    }
                }
                Ok(HeaderKey(Key(rest)))
            },
            None => Err(Error::HttpError(HttpError::MalformedHeader)),
        }
    }
}

impl std::str::FromStr for HeaderKey {
    type Err = Error;

    fn from_str(s: &str) -> Result<HeaderKey, Error> {
        HeaderKey::parse(s)
    }
}

/// A value that came with a request, and the API user its key belongs to.
pub struct Authorized<T> {
    val: T,
    api_user: ApiUser,
}

fn duplicate_api_user(u: &ApiUser) -> (r: ApiUser)
    ensures
        r.id == u.id,
        r.key == u.key,
        r.user == u.user,
        r.name@ == u.name@,
        r.perms@ == u.perms@,
{
    let mut perms: Vec<AnalysisType> = Vec::new();
    let mut i: usize = 0;
    while i < u.perms.len()
        invariant
            i <= u.perms@.len(),
            perms@ == u.perms@.take(i as int),
        decreases u.perms.len() - i,
    {
        perms.push(u.perms[i]);
        proof {
            assert(u.perms@.take(i + 1) =~= u.perms@.take(i as int).push(u.perms@[i as int]));
        }
        i = i + 1;
    }
    proof {
        assert(u.perms@.take(i as int) =~= u.perms@);
    }
    ApiUser {
        id: u.id,
        key: u.key.duplicate(),
        user: duplicate_user(&u.user),
        name: u.name.clone(),
        perms,
    }
}

impl<T> Authorized<T> {
    pub closed spec fn value(&self) -> T {
        self.val
    }

    pub closed spec fn user(&self) -> ApiUser {
        self.api_user
    }

    /// Binds `val` to the user its key resolved to; a key that resolves to
    /// nobody is unauthorized.
    pub fn new(val: T, api_user: Option<ApiUser>) -> (r: Result<Authorized<T>, HttpError>)
        ensures
            api_user is None ==> r == Err::<Authorized<T>, HttpError>(HttpError::Unauthorized),
            api_user is Some ==> r is Ok && r->Ok_0.value() == val && r->Ok_0.user()
                == api_user->0,
    {
        match api_user {
            Some(u) => Ok(Authorized { val, api_user: u }),
            None => Err(HttpError::Unauthorized),
        }
    }

    pub fn val(self) -> (r: T)
        ensures
            r == self.value(),
    {
        self.val
    }

    pub fn api_user(&self) -> (r: ApiUser)
        ensures
            r.id == self.user().id,
            r.key == self.user().key,
            r.user == self.user().user,
            r.name@ == self.user().name@,
            r.perms@ == self.user().perms@,
    {
        duplicate_api_user(&self.api_user)
    }

    /// Applies `f` to the value, keeping the user.
    pub fn map<T2, F: Fn(T) -> T2>(self, f: F) -> (r: Authorized<T2>)
        requires
            f.requires((self.value(),)),
        ensures
            f.ensures((self.value(),), r.value()),
            r.user() == self.user(),
    {
        Authorized { val: f(self.val), api_user: self.api_user }
    }
}

/// The API user whose key has the same text as `key`.
pub fn get_api_user(users: &Vec<ApiUser>, key: &Key) -> (r: Option<usize>)
    ensures
        match r {
            Some(i) => i < users@.len() && users@[i as int].key.0@ == key.0@,
            None => forall|k: int| 0 <= k < users@.len() ==> (#[trigger] users@[k]).key.0@ != key.0@,
        },
{
    let mut i: usize = 0;
    while i < users.len()
        invariant
            i <= users@.len(),
            forall|k: int| 0 <= k < i ==> (#[trigger] users@[k]).key.0@ != key.0@,
        decreases users.len() - i,
    {
        if users[i].key.0 == key.0 {
            return Some(i);
        }
        i = i + 1;
    }
    None
}

/// The answer to a key check: an empty body when the key resolved, else
/// not found.
pub fn check_key_validity(found: &Option<ApiUser>) -> (r: Result<String, Error>)
    ensures
        found is Some ==> r is Ok && r->Ok_0@.len() == 0,
        found is None ==> r == Err::<String, Error>(Error::NotFound),
{
    match found {
        Some(_) => Ok(String::new()),
        None => Err(Error::NotFound),
    }
}

/// The API user a request must carry: none means unauthorized.
pub fn required_or_unauthenticated(api_user: Option<ApiUser>) -> (r: Result<ApiUser, HttpError>)
    ensures
        api_user is None ==> r == Err::<ApiUser, HttpError>(HttpError::Unauthorized),
        api_user is Some ==> r == Ok::<ApiUser, HttpError>(api_user->0),
{
    match api_user {
        Some(u) => Ok(u),
        None => Err(HttpError::Unauthorized),
    }
}

/// The API user a request must carry: none means forbidden.
pub fn required_or_forbidden(api_user: Option<ApiUser>) -> (r: Result<ApiUser, HttpError>)
    ensures
        api_user is None ==> r == Err::<ApiUser, HttpError>(HttpError::Forbidden),
        api_user is Some ==> r == Ok::<ApiUser, HttpError>(api_user->0),
{
    match api_user {
        Some(u) => Ok(u),
        None => Err(HttpError::Forbidden),
    }
}

/// What an accepted analysis leads to: the record to store, and whether the
/// job is now complete.
pub struct SavedAnalysis {
    pub record: CreateGameAnalysis,
    pub completed: bool,
}

/// `r` is what `analysis` from `api_user` on job `job` becomes: a record
/// of the analysis with the engine settings of the job's kind, and whether
/// it completes the job (no slot empty).
pub open spec fn is_record_for(r: SavedAnalysis, job: model::Job, api_user: ApiUser, analysis: Seq<Option<PlyAnalysis>>) -> bool {
    &&& r.record.job_id == job.id
    &&& r.record.game_id == job.game_id
    &&& r.record.source_id == api_user.id
    &&& r.record.analysis@ == analysis
    &&& r.record.requested_pvs == match multipv_spec(job.analysis_type) {
        Some(m) => Some(m as i32),
        None => None::<i32>,
    }
    &&& r.record.requested_depth is None
    &&& r.record.requested_nodes == ModelNodes {
        nnue: nodes_spec(job.analysis_type).nnue as i64,
        classical: nodes_spec(job.analysis_type).classical as i64,
    }
    &&& r.completed == all_plies_present(analysis)
}

/// The record to store for `report` on job `job` from `api_user`.
pub fn analysis_record(job: &model::Job, api_user: &ApiUser, report: AnalysisReport) -> (r: SavedAnalysis)
    ensures
        is_record_for(r, *job, *api_user, report.analysis@),
{
    let budget = nodes_for_job(job);
    let requested_pvs = match multipv_for_job(job) {
        Some(m) => Some(m as i32),
        None => None,
    };
    let completed = report.is_complete();
    let record = CreateGameAnalysis {
        job_id: job.id,
        game_id: job.game_id.duplicate(),
        source_id: api_user.id,
        analysis: report.analysis,
        requested_pvs,
        requested_depth: None,
        requested_nodes: ModelNodes { nnue: budget.nnue as i64, classical: budget.classical as i64 },
    };
    SavedAnalysis { record, completed }
}

/// Accepts `report` for job `job_id` from `api_user`. Only the worker that
/// holds the job may report on it: otherwise `NotFound`. A report with no
/// empty slot completes the job.
pub fn save_job_analysis(
    table: &mut JobTable,
    api_user: &ApiUser,
    job_id: JobId,
    report: AnalysisReport,
) -> (r: Result<SavedAnalysis, Error>)
    requires
        old(table).wf(),
    ensures
        final(table).wf(),
        final(table).created == old(table).created,
        final(table).deleted == old(table).deleted,
        (exists|i: int|
            0 <= i < old(table).jobs@.len() && (#[trigger] old(table).jobs@[i]).id == job_id
                && owned_by(old(table).jobs@[i].owner, api_user.key)) <==> r is Ok,
        r is Err ==> r == Err::<SavedAnalysis, Error>(Error::NotFound) && *final(table) == *old(
            table,
        ),
        r is Ok ==> exists|i: int|
            {
                &&& 0 <= i < old(table).jobs@.len()
                &&& #[trigger] old(table).jobs@[i].id == job_id
                &&& is_record_for(r->Ok_0, old(table).jobs@[i], *api_user, report.analysis@)
                &&& r->Ok_0.completed ==> final(table).jobs@ == old(table).jobs@.update(
                    i,
                    completed(old(table).jobs@[i]),
                )
                &&& !r->Ok_0.completed ==> *final(table) == *old(table)
            },
{
    let job = match table.get_user_job(job_id, &api_user.key) {
        Some(j) => j,
        None => {
            return Err(Error::NotFound);
        },
    };
    let saved = analysis_record(&job, api_user, report);
    if saved.completed {
        table.set_complete(job_id);
    }
    Ok(saved)
}

/// An accepted analysis announces the job's completion when it completes it.
pub fn completion_event(saved: &SavedAnalysis) -> (r: Option<FishnetMsg>)
    ensures
        r == if saved.completed {
            Some(FishnetMsg::JobCompleted(saved.record.job_id))
        } else {
            None
        },
{
    if saved.completed {
        Some(FishnetMsg::JobCompleted(saved.record.job_id))
    } else {
        None
    }
}

/// Queue depth for one kind of work.
#[derive(Clone, Copy, Debug, PartialEq, Eq, Structural)]
pub struct QStatus {
    pub acquired: u64,
    pub queued: u64,
    /// seconds since the reported queued job was last updated
    pub oldest: u64,
}

#[derive(Clone, Copy, Debug, PartialEq, Eq, Structural)]
pub enum KeyStatus {
    Unknown,
    Active,
    Inactive,
}

/// A key that resolves is active: keys are never deactivated.
pub fn key_status(api_user: &Option<ApiUser>) -> (r: Option<KeyStatus>)
    ensures
        api_user is Some ==> r == Some(KeyStatus::Active),
        api_user is None ==> r is None,
{
    match api_user {
        Some(_) => Some(KeyStatus::Active),
        None => None,
    }
}

/// The status built from the held and queued counts and the oldest queued
/// job: its age in whole seconds at `now` (milliseconds), 0 when there is
/// none. An age that is negative or does not fit is an integer-range error.
pub open spec fn status_from(acquired: u64, queued: u64, oldest: Option<model::Job>, now: i64) -> Result<QStatus, Error> {
    match oldest {
        None => Ok(QStatus { acquired, queued, oldest: 0 }),
        Some(j) => {
            let d = now - j.date_last_updated;
            if i64::MIN <= d <= i64::MAX && whole_seconds(d) >= 0 {
                Ok(QStatus { acquired, queued, oldest: whole_seconds(d) as u64 })
            } else {
                Err(Error::TryFromIntError)
            }
        },
    }
}

/// The status from counts already taken and the oldest queued job.
pub fn q_status_of(acquired: u64, queued: u64, oldest: &Option<model::Job>, now: i64) -> (r: Result<QStatus, Error>)
    ensures
        r == status_from(acquired, queued, *oldest, now),
{
    let age: u64 = match oldest {
        None => 0,
        Some(job) => {
            let d: i128 = now as i128 - job.date_last_updated as i128;
            if d < i64::MIN as i128 || d > i64::MAX as i128 {
                return Err(Error::TryFromIntError);
            }
            let secs = job.seconds_since_created(now);
            if secs < 0 {
                return Err(Error::TryFromIntError);
            }
            secs as u64
        },
    };
    Ok(QStatus { acquired, queued, oldest: age })
}

/// `r` is the status of the queue of `kind` in `table` at `now`.
pub open spec fn is_status_of(table: JobTable, kind: AnalysisType, now: i64, r: Result<QStatus, Error>) -> bool {
    exists|o: Option<model::Job>|
        #[trigger] is_oldest(table.jobs@, kind, o) && r == status_from(
            count(table.jobs@, acquired_of(kind)) as u64,
            count(table.jobs@, queued_of(kind)) as u64,
            o,
            now,
        )
}

/// The status of the queue of `kind` at time `now`.
pub fn q_status(table: &JobTable, kind: AnalysisType, now: i64) -> (r: Result<QStatus, Error>)
    ensures
        is_status_of(*table, kind, now, r),
{
    let acquired = table.acquired_jobs(kind);
    let queued = table.queued_jobs(kind);
    let oldest = table.oldest_job(kind);
    let r = q_status_of(acquired, queued, &oldest, now);
    assert(is_oldest(table.jobs@, kind, oldest));
    r
}

#[derive(Clone, Copy, Debug, PartialEq, Eq, Structural)]
pub struct FishnetAnalysisStatus {
    pub user: QStatus,
    pub system: QStatus,
    pub deep: QStatus,
}

#[derive(Clone, Copy, Debug, PartialEq, Eq, Structural)]
pub struct FishnetStatus {
    pub analysis: FishnetAnalysisStatus,
    pub key: Option<KeyStatus>,
}

/// The status built from the three queues' statuses, in order, and the
/// caller's key; the first queue that failed fails it.
pub fn status_report(
    user: Result<QStatus, Error>,
    system: Result<QStatus, Error>,
    deep: Result<QStatus, Error>,
    api_user: &Option<ApiUser>,
) -> (r: Result<FishnetStatus, Error>)
    ensures
        user is Err ==> r == Err::<FishnetStatus, Error>(user->Err_0),
        user is Ok && system is Err ==> r == Err::<FishnetStatus, Error>(system->Err_0),
        user is Ok && system is Ok && deep is Err ==> r == Err::<FishnetStatus, Error>(deep->Err_0),
        user is Ok && system is Ok && deep is Ok ==> r == Ok::<FishnetStatus, Error>(
            FishnetStatus {
                analysis: FishnetAnalysisStatus {
                    user: user->Ok_0,
                    system: system->Ok_0,
                    deep: deep->Ok_0,
                },
                key: if api_user is Some {
                    Some(KeyStatus::Active)
                } else {
                    None
                },
            },
        ),
{
    let user = match user {
        Ok(s) => s,
        Err(e) => return Err(e),
    };
    let system = match system {
        Ok(s) => s,
        Err(e) => return Err(e),
    };
    let deep = match deep {
        Ok(s) => s,
        Err(e) => return Err(e),
    };
    Ok(FishnetStatus { analysis: FishnetAnalysisStatus { user, system, deep }, key: key_status(api_user) })
}

/// The status of the three queues, and of the caller's key when it resolved.
pub fn fishnet_status(table: &JobTable, api_user: &Option<ApiUser>, now: i64) -> (r: Result<
    FishnetStatus,
    Error,
>)
    ensures
        r is Ok ==> {
            &&& is_status_of(*table, AnalysisType::UserAnalysis, now, Ok(r->Ok_0.analysis.user))
            &&& is_status_of(*table, AnalysisType::SystemAnalysis, now, Ok(r->Ok_0.analysis.system))
            &&& is_status_of(*table, AnalysisType::Deep, now, Ok(r->Ok_0.analysis.deep))
            &&& r->Ok_0.key == if api_user is Some {
                Some(KeyStatus::Active)
            } else {
                None
            }
        },
        r is Err ==> r == Err::<FishnetStatus, Error>(Error::TryFromIntError) && (is_status_of(
            *table,
            AnalysisType::UserAnalysis,
            now,
            Err(Error::TryFromIntError),
        ) || is_status_of(*table, AnalysisType::SystemAnalysis, now, Err(Error::TryFromIntError))
            || is_status_of(*table, AnalysisType::Deep, now, Err(Error::TryFromIntError))),
{
    let user = q_status(table, AnalysisType::UserAnalysis, now);
    let system = q_status(table, AnalysisType::SystemAnalysis, now);
    let deep = q_status(table, AnalysisType::Deep, now);
    status_report(user, system, deep, api_user)
}

} // verus!

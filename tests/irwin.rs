use lila_deepq::fishnet::{
    acquire_job, save_job_analysis, AnalysisReport, RequestInfo, StockfishFlavor, StockfishType,
};
use lila_deepq::chess::{san_from_uci, uci_from_san};
use lila_deepq::crypto::random_alphanumeric_string;
use lila_deepq::error::Error;
use lila_deepq::irwin::{
    add_to_queue, fishnet_listener_step, handle_job_completed, irwin_game, irwin_job_from_report,
    report_to_check,
    update_report_completeness, Analysis, AnalysedGame, Completion, EngineEval, FishnetMsg,
    IrwinGame, ListenerAction, Received, Request, RequestGame, User,
};
use lila_deepq::model::{
    precedence_for_origin, AnalysisType, ApiUser, ApiUserId, BestMove, CreateApiUser,
    CreateReport, EmptyAnalysis, Game, GameAnalysis, GameAnalysisId, GameId, Job, JobId, Key,
    MatrixAnalysis, Nodes, ObjectId, PlyAnalysis, Report, ReportId, ReportOrigin, ReportType,
    Score, SkippedAnalysis, UserId,
};
use lila_deepq::queue::JobTable;

fn oid(n: u64) -> ObjectId {
    ObjectId { stamp: 3, rest: n }
}

fn strings(v: &[&str]) -> Vec<String> {
    v.iter().map(|s| s.to_string()).collect()
}

fn request_game(id: &str, pgn: &[&str]) -> RequestGame {
    RequestGame {
        id: GameId(id.to_string()),
        white: UserId("alice".to_string()),
        black: UserId("bob".to_string()),
        emts: Some(vec![5, 6, 7, 8]),
        pgn: strings(pgn),
        analysis: None,
    }
}

fn request(origin: ReportOrigin, games: Vec<RequestGame>) -> Request {
    Request {
        t: "request".to_string(),
        origin,
        user: User { id: UserId("alice".to_string()), titled: false, engine: false, games: 10 },
        games,
    }
}

fn best(score: Score) -> PlyAnalysis {
    PlyAnalysis::Best(BestMove { pv: vec![], depth: 18, score, time: 1, nodes: 1, nps: None })
}

fn grid(score: Vec<Vec<Option<Score>>>) -> PlyAnalysis {
    PlyAnalysis::Matrix(MatrixAnalysis { pv: vec![], score, depth: 20, nodes: 1, time: 1, nps: None })
}

fn analysis_of(job: u64, game: &str, plies: Vec<Option<PlyAnalysis>>) -> GameAnalysis {
    GameAnalysis {
        id: GameAnalysisId(oid(800 + job)),
        job_id: JobId(oid(job)),
        game_id: GameId(game.to_string()),
        source_id: ApiUserId(oid(1)),
        analysis: plies,
        requested_pvs: Some(5),
        requested_depth: None,
        requested_nodes: Nodes { nnue: 2_500_000, classical: 4_500_000 },
    }
}

fn stored_game(id: &str, moves: &[&str]) -> Game {
    Game {
        id: GameId(id.to_string()),
        emts: vec![5, 6, 7, 8],
        pgn: strings(moves),
        black: Some(UserId("bob".to_string())),
        white: None,
    }
}

fn report(id: u64, sent: bool) -> Report {
    let mut r = Report::from_create(
        CreateReport {
            user_id: UserId("alice".to_string()),
            origin: ReportOrigin::Moderator,
            report_type: ReportType::Irwin,
            games: vec![GameId("g1".to_string())],
        },
        ReportId(oid(id)),
        100,
    );
    r.sent_to_irwin = sent;
    r
}

fn job(id: u64, report: u64, complete: bool) -> Job {
    Job {
        id: JobId(oid(id)),
        game_id: GameId(format!("g{}", id)),
        analysis_type: AnalysisType::Deep,
        precedence: 1_000_000,
        owner: Some(Key("w".to_string())),
        date_last_updated: 1,
        report_id: Some(ReportId(oid(report))),
        is_complete: complete,
    }
}

#[test]
fn precedence_mapping() {
    assert_eq!(precedence_for_origin(ReportOrigin::Moderator), 1_000_000);
    assert_eq!(precedence_for_origin(ReportOrigin::Leaderboard), 1_000);
    assert_eq!(precedence_for_origin(ReportOrigin::Tournament), 100);
    assert_eq!(precedence_for_origin(ReportOrigin::Random), 10);
}

#[test]
fn ingestion_converts_moves_and_plans_jobs() {
    let r = request(ReportOrigin::Moderator, vec![request_game("G1", &["e4", "e5", "Nf3", "Nc6"])]);
    let plan = add_to_queue(&r, ReportId(oid(9))).unwrap_or_else(|_| panic!("legal moves"));
    assert_eq!(plan.games.len(), 1);
    assert_eq!(plan.games[0].game_id.0, "G1");
    assert_eq!(plan.games[0].pgn, vec!["e2e4", "e7e5", "g1f3", "b8c6"]);
    assert_eq!(plan.games[0].emts, vec![5, 6, 7, 8]);
    assert_eq!(plan.games[0].white.as_ref().map(|u| u.0.as_str()), Some("alice"));
    assert_eq!(plan.report.user_id.0, "alice");
    assert_eq!(plan.report.origin, ReportOrigin::Moderator);
    assert_eq!(plan.report.report_type, ReportType::Irwin);
    assert_eq!(plan.report.games.len(), 1);
    assert_eq!(plan.jobs.len(), 1);
    assert_eq!(plan.jobs[0].precedence, 1_000_000);
    assert_eq!(plan.jobs[0].analysis_type, AnalysisType::Deep);
    assert_eq!(plan.jobs[0].report_id, Some(ReportId(oid(9))));
    let stored = Report::from_create(plan.report, ReportId(oid(9)), 55);
    assert!(!stored.sent_to_irwin);
    assert!(stored.date_completed.is_none());
}

#[test]
fn illegal_move_fails_the_whole_request() {
    let r = request(
        ReportOrigin::Random,
        vec![request_game("ok", &["d4"]), request_game("bad", &["e4", "Ke3"])],
    );
    assert!(matches!(add_to_queue(&r, ReportId(oid(1))), Err(Error::PositionError)));
    assert!(matches!(uci_from_san(&strings(&["e5"])), Err(Error::PositionError)));
    assert!(matches!(san_from_uci(&strings(&["e2e5"])), Err(Error::PositionError)));
}

#[test]
fn empty_request_is_accepted() {
    let r = request(ReportOrigin::Tournament, vec![]);
    let plan = add_to_queue(&r, ReportId(oid(2))).unwrap_or_else(|_| panic!("empty"));
    assert!(plan.games.is_empty() && plan.jobs.is_empty() && plan.report.games.is_empty());
}

#[test]
fn san_uci_round_trip() {
    let sans = strings(&["e4", "e5", "Nf3", "Nc6", "Bb5", "a6", "Bxc6", "dxc6", "O-O", "f6"]);
    let ucis = uci_from_san(&sans).unwrap_or_else(|_| panic!("legal"));
    assert_eq!(ucis[8], "e1g1");
    let back = san_from_uci(&ucis).unwrap_or_else(|_| panic!("legal"));
    assert_eq!(back, sans);
}

#[test]
fn flip_negates_both_values() {
    let e = EngineEval { cp: Some(35), mate: None };
    assert_eq!(e.flip(), EngineEval { cp: Some(-35), mate: None });
    let m = EngineEval::from_score(Score::Mate(-3));
    assert_eq!(m, EngineEval { cp: None, mate: Some(-3) });
    assert_eq!(m.flip(), EngineEval { cp: None, mate: Some(3) });
}

#[test]
fn ply_scores_downstream() {
    let uci = "e2e4".to_string();
    let a = Analysis::from_ply_analysis(&uci, &best(Score::Cp(12)), false).unwrap_or_else(|_| panic!("score"));
    assert_eq!(a.engine_eval, EngineEval { cp: Some(12), mate: None });
    assert_eq!(a.uci, "e2e4");
    let flipped = Analysis::from_ply_analysis(&uci, &best(Score::Cp(12)), true).unwrap_or_else(|_| panic!("score"));
    assert_eq!(flipped.engine_eval, EngineEval { cp: Some(-12), mate: None });
    // the first line that has a score, at its deepest
    let g = grid(vec![
        vec![None, None],
        vec![Some(Score::Cp(5)), Some(Score::Mate(2)), None],
        vec![Some(Score::Cp(99))],
    ]);
    let a = Analysis::from_ply_analysis(&uci, &g, false).unwrap_or_else(|_| panic!("score"));
    assert_eq!(a.engine_eval, EngineEval { cp: None, mate: Some(2) });
    let a = Analysis::from_ply_analysis(&uci, &g, true).unwrap_or_else(|_| panic!("score"));
    assert_eq!(a.engine_eval, EngineEval { cp: None, mate: Some(-2) });
    let none = grid(vec![vec![None]]);
    assert!(matches!(Analysis::from_ply_analysis(&uci, &none, false), Err(Error::IncompleteIrwinAnalysis)));
    let skipped = PlyAnalysis::Skipped(SkippedAnalysis { skipped: true });
    assert!(matches!(Analysis::from_ply_analysis(&uci, &skipped, false), Err(Error::IncompleteIrwinAnalysis)));
    let empty = PlyAnalysis::Empty(EmptyAnalysis { depth: 0, score: Score::Cp(0) });
    assert!(matches!(Analysis::from_ply_analysis(&uci, &empty, false), Err(Error::IncompleteIrwinAnalysis)));
    assert!(matches!(
        Analysis::from_ply_analysis(&uci, &best(Score::Cp(i64::MIN)), true),
        Err(Error::TryFromIntError)
    ));
}

#[test]
fn downstream_game_has_white_point_of_view() {
    let game = stored_game("g1", &["e2e4", "e7e5", "g1f3", "b8c6"]);
    let a = analysis_of(1, "g1", vec![
        Some(best(Score::Cp(30))),
        Some(best(Score::Cp(-25))),
        Some(grid(vec![vec![Some(Score::Cp(40))]])),
        Some(best(Score::Mate(4))),
    ]);
    let g = irwin_game(&game, &a).unwrap_or_else(|_| panic!("complete"));
    assert_eq!(g.pgn, vec!["e4", "e5", "Nf3", "Nc6"]);
    assert_eq!(g.white, "Unknown (white)");
    assert_eq!(g.black, "bob");
    assert!(g.analysed);
    assert_eq!(g.emts, Some(vec![5, 6, 7, 8]));
    assert_eq!(
        g.analysis.unwrap(),
        vec![
            EngineEval { cp: Some(30), mate: None },
            EngineEval { cp: Some(25), mate: None },
            EngineEval { cp: Some(40), mate: None },
            EngineEval { cp: None, mate: Some(-4) },
        ]
    );
    let plain = IrwinGame::from_game(&game).unwrap_or_else(|_| panic!("legal"));
    assert!(!plain.analysed && plain.analysis.is_none());
}

#[test]
fn incomplete_analysis_is_refused() {
    let game = stored_game("g1", &["e2e4", "e7e5"]);
    let a = analysis_of(1, "g1", vec![Some(best(Score::Cp(30))), None]);
    assert!(matches!(irwin_game(&game, &a), Err(Error::IncompleteIrwinAnalysis)));
}

#[test]
fn payload_skips_missing_games() {
    let r = report(5, true);
    let analysed = vec![
        AnalysedGame { analysis: analysis_of(1, "g1", vec![Some(best(Score::Cp(1)))]), game: Some(stored_game("g1", &["d2d4"])) },
        AnalysedGame { analysis: analysis_of(2, "g2", vec![]), game: None },
    ];
    let job = irwin_job_from_report(&r, &analysed).unwrap_or_else(|_| panic!("payload"));
    assert_eq!(job.player_id, "alice");
    assert_eq!(job.games.len(), 1);
    assert_eq!(job.games[0].pgn, vec!["d4"]);
    assert!(job.analyzed_positions.is_empty());
}

#[test]
fn report_ships_only_when_every_job_is_complete() {
    let mut r = report(5, false);
    let partial = vec![job(1, 5, true), job(2, 5, false)];
    assert_eq!(update_report_completeness(&mut r, &partial, 7), Completion::InProgress { complete: 1, total: 2 });
    assert!(!r.sent_to_irwin);
    assert_eq!(update_report_completeness(&mut r, &vec![], 7), Completion::InProgress { complete: 0, total: 0 });
    let done = vec![job(1, 5, true), job(2, 5, true)];
    assert_eq!(update_report_completeness(&mut r, &done, 7), Completion::Shipped);
    assert!(r.sent_to_irwin);
    assert_eq!(r.date_completed, Some(7));
    assert_eq!(update_report_completeness(&mut r, &done, 8), Completion::AlreadyShipped);
    assert_eq!(r.date_completed, Some(7));
}

#[test]
fn repeated_completion_events_ship_once() {
    let mut table = JobTable::new();
    for (id, game) in [(1u64, "a"), (2, "b"), (3, "c")] {
        let c = lila_deepq::model::CreateJob {
            game_id: GameId(game.to_string()),
            report_id: Some(ReportId(oid(5))),
            analysis_type: AnalysisType::Deep,
            precedence: 10,
        };
        assert!(table.insert_job(c, JobId(oid(id)), 1));
    }
    let mut reports = vec![report(4, false), report(5, false)];
    let mut shipped = 0;
    for id in [1u64, 2, 3] {
        assert!(table.set_complete(JobId(oid(id))));
        for _ in 0..3 {
            if handle_job_completed(&table, &mut reports, JobId(oid(id)), 50) == Completion::Shipped {
                shipped += 1;
            }
        }
    }
    assert_eq!(shipped, 1);
    assert!(reports[1].sent_to_irwin);
    assert!(!reports[0].sent_to_irwin);
    assert_eq!(handle_job_completed(&table, &mut reports, JobId(oid(99)), 50), Completion::Ignored);
}

#[test]
fn listener_reacts_to_each_message() {
    let id = JobId(oid(1));
    assert_eq!(fishnet_listener_step(Received::Msg(FishnetMsg::JobCompleted(id))), ListenerAction::CheckReport(id));
    assert_eq!(
        fishnet_listener_step(Received::Msg(FishnetMsg::JobAcquired(id))),
        ListenerAction::Note(FishnetMsg::JobAcquired(id))
    );
    assert_eq!(
        fishnet_listener_step(Received::Msg(FishnetMsg::JobAborted(id))),
        ListenerAction::Note(FishnetMsg::JobAborted(id))
    );
    assert_eq!(fishnet_listener_step(Received::Lagged(48)), ListenerAction::NoteLag(48));
    assert_eq!(fishnet_listener_step(Received::Closed), ListenerAction::Stop);
}

#[test]
fn new_keys_are_seven_alphanumerics() {
    let s = random_alphanumeric_string(32);
    assert_eq!(s.chars().count(), 32);
    assert!(s.chars().all(|c| c.is_ascii_alphanumeric()));
    assert_eq!(random_alphanumeric_string(0), "");
    let u = ApiUser::from_create(
        CreateApiUser { user: None, name: "laptop".to_string(), perms: vec![AnalysisType::Deep] },
        ApiUserId(oid(3)),
    );
    assert_eq!(u.key.0.len(), 7);
    assert!(u.key.0.chars().all(|c| c.is_ascii_alphanumeric()));
    assert_eq!(u.name, "laptop");
    assert!(u.permits(AnalysisType::Deep));
    assert!(!u.permits(AnalysisType::UserAnalysis));
}

#[test]
fn single_report_happy_path() {
    let request = request(ReportOrigin::Moderator, vec![request_game("G1", &["e4", "e5", "Nf3", "Nc6"])]);
    let report_id = ReportId(oid(70));
    let plan = add_to_queue(&request, report_id).unwrap_or_else(|_| panic!("legal"));
    let games: Vec<Game> = plan.games.into_iter().map(Game::from_create).collect();
    let mut reports = vec![Report::from_create(plan.report, report_id, 1)];
    let mut table = JobTable::new();
    for (n, j) in plan.jobs.into_iter().enumerate() {
        assert!(table.insert_job(j, JobId(oid(100 + n as u64)), 1));
    }
    assert_eq!(table.jobs[0].precedence, 1_000_000);
    assert!(table.jobs[0].owner.is_none());
    let worker = ApiUser {
        id: ApiUserId(oid(5)),
        key: Key("abcdefg".to_string()),
        user: None,
        name: "deep".to_string(),
        perms: vec![AnalysisType::Deep],
    };
    let work = acquire_job(&mut table, &games, &worker).expect("work");
    assert_eq!(work.work.multipv, Some(5));
    assert_eq!(work.moves, vec!["e2e4", "e7e5", "g1f3", "b8c6"]);
    let plies: Vec<Option<PlyAnalysis>> =
        [20, -15, 30, -5].iter().map(|c| Some(grid(vec![vec![Some(Score::Cp(*c))]]))).collect();
    let body = AnalysisReport {
        fishnet: RequestInfo { version: "2".to_string(), api_key: Key("abcdefg".to_string()) },
        stockfish: StockfishType { flavor: StockfishFlavor::Nnue },
        analysis: plies,
    };
    let saved = save_job_analysis(&mut table, &worker, work.work.id, body).unwrap_or_else(|_| panic!("owner"));
    assert!(saved.completed);
    assert_eq!(report_to_check(&table.get_job(work.work.id)), Some(report_id));
    assert_eq!(handle_job_completed(&table, &mut reports, work.work.id, 9), Completion::Shipped);
    assert!(reports[0].sent_to_irwin);
    assert_eq!(handle_job_completed(&table, &mut reports, work.work.id, 9), Completion::AlreadyShipped);
    let analysis = GameAnalysis::from_create(saved.record, GameAnalysisId(oid(900)));
    let analysed = vec![AnalysedGame { analysis, game: Some(games[0].clone()) }];
    let payload = irwin_job_from_report(&reports[0], &analysed).unwrap_or_else(|_| panic!("complete"));
    assert_eq!(payload.player_id, "alice");
    assert_eq!(payload.games.len(), 1);
    assert_eq!(payload.games[0].id, "G1");
    assert_eq!(payload.games[0].pgn, vec!["e4", "e5", "Nf3", "Nc6"]);
    assert!(payload.games[0].analysed);
    assert_eq!(
        payload.games[0].analysis.as_ref().unwrap().iter().map(|e| e.cp.unwrap()).collect::<Vec<_>>(),
        vec![20, 15, 30, 5]
    );
    assert!(payload.analyzed_positions.is_empty());
    assert_eq!(report_to_check(&None), None);
}

#[test]
fn incomplete_analysis_wins_over_notation() {
    let game = stored_game("g1", &["e2e4", "zzzz"]);
    let a = analysis_of(1, "g1", vec![Some(best(Score::Cp(30))), None]);
    assert!(matches!(irwin_game(&game, &a), Err(Error::IncompleteIrwinAnalysis)));
    let a = analysis_of(1, "g1", vec![Some(best(Score::Cp(30))), Some(best(Score::Cp(1)))]);
    assert!(matches!(irwin_game(&game, &a), Err(Error::PositionError)));
}

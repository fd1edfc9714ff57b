use lila_deepq::model::{
    precedence_for_origin, AnalysisType, ApiUser, ApiUserId, CreateJob, GameId, JobId, Key,
    ObjectId, ReportId, ReportOrigin,
};
use lila_deepq::queue::JobTable;

fn oid(n: u64) -> ObjectId {
    ObjectId { stamp: 1, rest: n }
}

fn worker(key: &str, perms: Vec<AnalysisType>) -> ApiUser {
    ApiUser {
        id: ApiUserId(oid(900)),
        key: Key(key.to_string()),
        user: None,
        name: format!("worker {}", key),
        perms,
    }
}

fn job(game: &str, kind: AnalysisType, precedence: i32) -> CreateJob {
    CreateJob {
        game_id: GameId(game.to_string()),
        report_id: Some(ReportId(oid(500))),
        analysis_type: kind,
        precedence,
    }
}

fn table_with(jobs: Vec<(u64, CreateJob, i64)>) -> JobTable {
    let mut t = JobTable::new();
    for (id, j, now) in jobs {
        assert!(t.insert_job(j, JobId(oid(id)), now));
    }
    t
}

#[test]
fn acquire_prefers_higher_precedence() {
    let random = precedence_for_origin(ReportOrigin::Random);
    let moderator = precedence_for_origin(ReportOrigin::Moderator);
    let mut t = table_with(vec![
        (1, job("gr", AnalysisType::Deep, random), 1_000),
        (2, job("gm", AnalysisType::Deep, moderator), 2_000),
    ]);
    let u = worker("abcdefg", vec![AnalysisType::Deep]);
    let got = t.assign_job(&u).expect("a job");
    assert_eq!(got.game_id.0, "gm");
    assert_eq!(got.owner.as_ref().map(|k| k.0.as_str()), Some("abcdefg"));
    let second = t.assign_job(&u).expect("a second job");
    assert_eq!(second.game_id.0, "gr");
    assert!(t.assign_job(&u).is_none());
}

#[test]
fn acquire_takes_oldest_among_equal_precedence() {
    let mut t = table_with(vec![
        (1, job("newer", AnalysisType::Deep, 100), 5_000),
        (2, job("oldest", AnalysisType::Deep, 100), 1_000),
        (3, job("middle", AnalysisType::Deep, 100), 3_000),
    ]);
    let u = worker("k1", vec![AnalysisType::Deep]);
    let order: Vec<String> =
        (0..3).map(|_| t.assign_job(&u).expect("job").game_id.0).collect();
    assert_eq!(order, vec!["oldest", "middle", "newer"]);
}

#[test]
fn acquire_respects_permissions() {
    let mut t = table_with(vec![
        (1, job("user", AnalysisType::UserAnalysis, 1_000_000), 1),
        (2, job("deep", AnalysisType::Deep, 10), 2),
    ]);
    let deep_only = worker("deep", vec![AnalysisType::Deep]);
    assert_eq!(t.assign_job(&deep_only).expect("job").game_id.0, "deep");
    assert!(t.assign_job(&deep_only).is_none());
    let nobody = worker("none", vec![]);
    assert!(t.assign_job(&nobody).is_none());
}

#[test]
fn acquisitions_never_exceed_queued_jobs() {
    let mut t = table_with(vec![
        (1, job("a", AnalysisType::Deep, 10), 1),
        (2, job("b", AnalysisType::Deep, 10), 2),
    ]);
    let workers = vec![
        worker("w1", vec![AnalysisType::Deep]),
        worker("w2", vec![AnalysisType::Deep]),
        worker("w3", vec![AnalysisType::Deep]),
    ];
    let mut claimed = Vec::new();
    for w in &workers {
        if let Some(j) = t.assign_job(w) {
            claimed.push((j.id, j.owner.unwrap().0));
        }
    }
    assert_eq!(claimed.len(), 2);
    assert_ne!(claimed[0].0, claimed[1].0);
    assert_eq!(claimed[0].1, "w1");
    assert_eq!(claimed[1].1, "w2");
    assert_eq!(t.queued_jobs(AnalysisType::Deep), 0);
    assert_eq!(t.acquired_jobs(AnalysisType::Deep), 2);
}

#[test]
fn foreign_abort_is_a_no_op() {
    let mut t = table_with(vec![(1, job("g", AnalysisType::Deep, 10), 1)]);
    let u1 = worker("owner1", vec![AnalysisType::Deep]);
    let u2 = worker("other2", vec![AnalysisType::Deep]);
    let j = t.assign_job(&u1).expect("job");
    assert!(!t.unassign_job(&u2.key, j.id));
    let after = t.get_job(j.id).expect("still there");
    assert_eq!(after.owner.map(|k| k.0), Some("owner1".to_string()));
    assert!(t.unassign_job(&u1.key, j.id));
    assert!(t.get_job(j.id).expect("still there").owner.is_none());
    assert!(!t.unassign_job(&u1.key, JobId(oid(77))));
}

#[test]
fn aborted_job_is_queued_again() {
    let mut t = table_with(vec![(1, job("g", AnalysisType::Deep, 10), 1)]);
    let u1 = worker("first", vec![AnalysisType::Deep]);
    let u2 = worker("second", vec![AnalysisType::Deep]);
    let j = t.assign_job(&u1).expect("job");
    assert!(t.assign_job(&u2).is_none());
    assert!(t.unassign_job(&u1.key, j.id));
    let again = t.assign_job(&u2).expect("job again");
    assert_eq!(again.id, j.id);
    assert_eq!(again.owner.map(|k| k.0), Some("second".to_string()));
}

#[test]
fn duplicate_job_id_is_refused() {
    let mut t = table_with(vec![(1, job("g", AnalysisType::Deep, 10), 1)]);
    assert!(!t.insert_job(job("h", AnalysisType::Deep, 10), JobId(oid(1)), 2));
    assert_eq!(t.jobs.len(), 1);
    assert_eq!(t.created, 1);
}

#[test]
fn status_counts_add_up() {
    let mut t = table_with(vec![
        (1, job("a", AnalysisType::Deep, 10), 1),
        (2, job("b", AnalysisType::Deep, 10), 2),
        (3, job("c", AnalysisType::Deep, 10), 3),
        (4, job("d", AnalysisType::SystemAnalysis, 10), 4),
    ]);
    let u = worker("w", vec![AnalysisType::Deep]);
    let a = t.assign_job(&u).expect("job");
    let b = t.assign_job(&u).expect("job");
    assert!(t.set_complete(a.id));
    assert!(t.delete_job(b.id));
    assert!(!t.delete_job(b.id));
    let waiting = t.jobs.iter().filter(|j| j.owner.is_none() && !j.is_complete).count() as u64;
    let in_flight = t.jobs.iter().filter(|j| j.owner.is_some() && !j.is_complete).count() as u64;
    let finished = t.jobs.iter().filter(|j| j.is_complete).count() as u64;
    assert_eq!((waiting, in_flight, finished, t.deleted), (2, 0, 1, 1));
    assert_eq!(waiting + in_flight + finished + t.deleted, t.created);
    assert_eq!(t.created, 4);
    assert_eq!(t.acquired_jobs(AnalysisType::Deep), 1);
    assert_eq!(t.queued_jobs(AnalysisType::Deep), 1);
    assert_eq!(t.queued_jobs(AnalysisType::SystemAnalysis), 1);
    assert_eq!(t.acquired_jobs(AnalysisType::UserAnalysis), 0);
}

#[test]
fn oldest_job_reports_the_latest_update() {
    let t = table_with(vec![
        (1, job("a", AnalysisType::Deep, 10), 1_000),
        (2, job("b", AnalysisType::Deep, 10), 9_000),
        (3, job("c", AnalysisType::Deep, 10), 4_000),
    ]);
    assert_eq!(t.oldest_job(AnalysisType::Deep).expect("job").game_id.0, "b");
    assert!(t.oldest_job(AnalysisType::UserAnalysis).is_none());
}

#[test]
fn find_by_report_keeps_table_order() {
    let mut other = job("x", AnalysisType::Deep, 10);
    other.report_id = Some(ReportId(oid(501)));
    let t = table_with(vec![
        (1, job("a", AnalysisType::Deep, 10), 1),
        (2, other, 2),
        (3, job("b", AnalysisType::Deep, 10), 3),
    ]);
    let found: Vec<String> =
        t.find_by_report(ReportId(oid(500))).into_iter().map(|j| j.game_id.0).collect();
    assert_eq!(found, vec!["a", "b"]);
    assert!(t.find_by_report(ReportId(oid(502))).is_empty());
}

#[test]
fn user_job_requires_the_owner() {
    let mut t = table_with(vec![(1, job("g", AnalysisType::Deep, 10), 1)]);
    let u = worker("mine", vec![AnalysisType::Deep]);
    assert!(t.get_user_job(JobId(oid(1)), &u.key).is_none());
    t.assign_job(&u).expect("job");
    assert!(t.get_user_job(JobId(oid(1)), &u.key).is_some());
    assert!(t.get_user_job(JobId(oid(1)), &Key("theirs".to_string())).is_none());
}

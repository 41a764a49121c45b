use betteruptime::config::{worker_config, Config, ConfigError};
use betteruptime::job::{job_fields, parse_job, EntryError, WebsiteEvent};
use betteruptime::producer::jobs_for_tick;
use betteruptime::stream::{settle_group_creation, CreateGroupError, ReadError, StreamLog};
use betteruptime::worker::{
    classify, latency_ms, record_probe, tick_for, worker_step, CheckStatus, ProbeOutcome, ReadOutcome,
    WorkerAction, WorkerEvent, WorkerPhase,
};

fn site(url: &str, id: &str, enabled: bool) -> WebsiteEvent {
    WebsiteEvent { url: url.to_string(), id: id.to_string(), users_id: "u1".to_string(), is_snipp_added: enabled }
}

fn pair(a: &str, b: &str) -> (String, String) {
    (a.to_string(), b.to_string())
}

#[test]
fn classify_ok_status_is_up() {
    assert_eq!(classify(ProbeOutcome::Response(200)), CheckStatus::Up);
}

#[test]
fn classify_unavailable_is_down() {
    assert_eq!(classify(ProbeOutcome::Response(503)), CheckStatus::Down);
    assert_eq!(classify(ProbeOutcome::Response(404)), CheckStatus::Down);
    assert_eq!(classify(ProbeOutcome::Response(201)), CheckStatus::Down);
}

#[test]
fn classify_transport_error_is_unknown() {
    assert_eq!(classify(ProbeOutcome::TransportError), CheckStatus::Unknown);
}

#[test]
fn status_labels() {
    assert_eq!(CheckStatus::Up.label(), "Up");
    assert_eq!(CheckStatus::Down.label(), "Down");
    assert_eq!(CheckStatus::Unknown.label(), "Unknown");
}

#[test]
fn latency_is_kept_and_capped() {
    assert_eq!(latency_ms(0), 0);
    assert_eq!(latency_ms(120), 120);
    assert_eq!(latency_ms(i32::MAX as u128), i32::MAX);
    assert_eq!(latency_ms(i32::MAX as u128 + 1), i32::MAX);
    assert_eq!(latency_ms(u128::MAX), i32::MAX);
}

#[test]
fn probe_table_records_non_negative_latency() {
    let job = parse_job(&vec![pair("url", "example.com"), pair("id", "w1")]).unwrap();
    let region = "eu".to_string();
    let up = record_probe(&region, &job, ProbeOutcome::Response(200), 35);
    let down = record_probe(&region, &job, ProbeOutcome::Response(503), 12);
    let unknown = record_probe(&region, &job, ProbeOutcome::TransportError, 5000);
    assert_eq!(up.status, CheckStatus::Up);
    assert_eq!(down.status, CheckStatus::Down);
    assert_eq!(unknown.status, CheckStatus::Unknown);
    assert_eq!(up.response_time_ms, 35);
    assert_eq!(down.response_time_ms, 12);
    assert_eq!(unknown.response_time_ms, 5000);
    for t in [&up, &down, &unknown] {
        assert!(t.response_time_ms >= 0);
    }
}

#[test]
fn tick_ids_are_fresh_hyphenated_uuids() {
    let job = parse_job(&vec![pair("url", "example.com"), pair("id", "w1")]).unwrap();
    let region = "eu".to_string();
    let a = record_probe(&region, &job, ProbeOutcome::Response(200), 1);
    let b = record_probe(&region, &job, ProbeOutcome::Response(200), 1);
    assert_eq!(a.id.len(), 36);
    for (i, c) in a.id.chars().enumerate() {
        if i == 8 || i == 13 || i == 18 || i == 23 {
            assert_eq!(c, '-');
        } else {
            assert!(c.is_ascii_hexdigit());
        }
    }
    assert_ne!(a.id, b.id);
}

#[test]
fn tick_for_keeps_given_id() {
    let job = parse_job(&vec![pair("url", "example.com"), pair("id", "w1")]).unwrap();
    let t = tick_for("tick-7".to_string(), &"ap".to_string(), &job, ProbeOutcome::Response(302), 99);
    assert_eq!(t.id, "tick-7");
    assert_eq!(t.region, "ap");
    assert_eq!(t.website_url, "example.com");
    assert_eq!(t.website_id, "w1");
    assert_eq!(t.status, CheckStatus::Down);
    assert_eq!(t.response_time_ms, 99);
}

#[test]
fn job_fields_carry_url_and_id() {
    let f = job_fields(&site("example.com", "w1", true));
    assert_eq!(f, vec![pair("url", "example.com"), pair("id", "w1")]);
    let job = parse_job(&f).unwrap();
    assert_eq!(job.url, "example.com");
    assert_eq!(job.site_id, "w1");
}

#[test]
fn parse_job_takes_first_of_repeated_fields() {
    let job = parse_job(&vec![pair("id", "w2"), pair("url", "a.org"), pair("url", "b.org"), pair("id", "w3")]).unwrap();
    assert_eq!(job.url, "a.org");
    assert_eq!(job.site_id, "w2");
}

#[test]
fn parse_job_without_url_is_malformed() {
    let r = parse_job(&vec![pair("id", "w1")]);
    assert!(matches!(r, Err(EntryError::MissingUrl)));
    let r = parse_job(&vec![]);
    assert!(matches!(r, Err(EntryError::MissingUrl)));
}

#[test]
fn parse_job_without_id_is_malformed() {
    let r = parse_job(&vec![pair("url", "example.com"), pair("owner", "u1")]);
    assert!(matches!(r, Err(EntryError::MissingId)));
}

#[test]
fn tick_jobs_cover_exactly_enabled_sites() {
    let sites = vec![site("a.com", "1", true), site("b.com", "2", false), site("c.com", "3", true)];
    let jobs = jobs_for_tick(&sites);
    assert_eq!(jobs, vec![vec![pair("url", "a.com"), pair("id", "1")], vec![pair("url", "c.com"), pair("id", "3")]]);
    assert!(jobs_for_tick(&vec![]).is_empty());
}

#[test]
fn publish_tick_appends_every_enabled_site() {
    let mut log = StreamLog::new();
    let g = "us-east".to_string();
    log.ensure_group(&g).unwrap();
    let sites = vec![site("a.com", "1", true), site("b.com", "2", false), site("c.com", "3", true)];
    assert_eq!(log.publish_tick(&sites), 2);
    assert_eq!(log.len(), 2);
    let got = log.read_group(&g, &"w".to_string()).unwrap();
    let ids: Vec<String> = got.iter().map(|e| parse_job(&e.fields).unwrap().site_id).collect();
    assert_eq!(ids, vec!["1".to_string(), "3".to_string()]);
}

#[test]
fn group_bootstrap_twice_is_not_an_error() {
    let mut log = StreamLog::new();
    let g = "eu".to_string();
    assert!(log.ensure_group(&g).is_ok());
    assert!(log.ensure_group(&g).is_ok());
    assert!(matches!(log.create_group(&g), Err(CreateGroupError::AlreadyExists)));
}

#[test]
fn settle_group_creation_cases() {
    assert!(settle_group_creation(Ok(())).is_ok());
    assert!(settle_group_creation(Err(CreateGroupError::AlreadyExists)).is_ok());
    assert!(matches!(settle_group_creation(Err(CreateGroupError::Connection)), Err(CreateGroupError::Connection)));
}

#[test]
fn new_group_starts_at_the_tail() {
    let mut log = StreamLog::new();
    log.append(vec![pair("url", "old.com"), pair("id", "0")]);
    let g = "eu".to_string();
    log.ensure_group(&g).unwrap();
    assert!(log.read_group(&g, &"w".to_string()).unwrap().is_empty());
    let id = log.append(vec![pair("url", "new.com"), pair("id", "1")]);
    let got = log.read_group(&g, &"w".to_string()).unwrap();
    assert_eq!(got.len(), 1);
    assert_eq!(got[0].id, id);
}

#[test]
fn read_in_missing_group_fails() {
    let mut log = StreamLog::new();
    let r = log.read_group(&"nowhere".to_string(), &"w".to_string());
    assert!(matches!(r, Err(ReadError::GroupMissing)));
}

#[test]
fn competing_consumers_get_disjoint_entries() {
    let mut log = StreamLog::new();
    let g = "eu".to_string();
    log.ensure_group(&g).unwrap();
    log.append(vec![pair("url", "a.com"), pair("id", "1")]);
    let first = log.read_group(&g, &"w1".to_string()).unwrap();
    log.append(vec![pair("url", "b.com"), pair("id", "2")]);
    let second = log.read_group(&g, &"w2".to_string()).unwrap();
    assert_eq!(first.iter().map(|e| e.id).collect::<Vec<_>>(), vec![1]);
    assert_eq!(second.iter().map(|e| e.id).collect::<Vec<_>>(), vec![2]);
}

#[test]
fn every_group_gets_its_own_copy() {
    let mut log = StreamLog::new();
    let (us, eu) = ("us".to_string(), "eu".to_string());
    log.ensure_group(&us).unwrap();
    log.ensure_group(&eu).unwrap();
    log.append(vec![pair("url", "a.com"), pair("id", "1")]);
    assert_eq!(log.read_group(&us, &"w".to_string()).unwrap().len(), 1);
    assert_eq!(log.read_group(&eu, &"w".to_string()).unwrap().len(), 1);
}

#[test]
fn acked_entry_is_never_handed_out_again() {
    let mut log = StreamLog::new();
    let g = "eu".to_string();
    log.ensure_group(&g).unwrap();
    let id = log.append(vec![pair("url", "a.com"), pair("id", "1")]);
    let got = log.read_group(&g, &"w1".to_string()).unwrap();
    assert_eq!(got[0].id, id);
    assert_eq!(log.ack(&g, &vec![id]), 1);
    assert_eq!(log.ack(&g, &vec![id]), 0);
    assert!(log.read_group(&g, &"w1".to_string()).unwrap().is_empty());
    assert!(log.read_group(&g, &"w2".to_string()).unwrap().is_empty());
    // even after the group is deleted and bootstrapped again
    assert!(log.delete_group(&g));
    log.ensure_group(&g).unwrap();
    assert!(log.read_group(&g, &"w2".to_string()).unwrap().is_empty());
}

#[test]
fn ack_in_missing_group_is_ignored() {
    let mut log = StreamLog::new();
    assert_eq!(log.ack(&"eu".to_string(), &vec![1, 2]), 0);
}

#[test]
fn deleted_group_is_recovered_by_the_worker() {
    let mut log = StreamLog::new();
    let g = "eu".to_string();
    let w = "w1".to_string();
    log.ensure_group(&g).unwrap();
    assert!(log.delete_group(&g));
    assert!(!log.delete_group(&g));
    let read = log.read_group(&g, &w);
    assert!(matches!(read, Err(ReadError::GroupMissing)));
    let (phase, action) = worker_step(WorkerPhase::Reading, WorkerEvent::ReadDone(ReadOutcome::GroupMissing));
    assert_eq!((phase, action), (WorkerPhase::Bootstrapping, WorkerAction::EnsureGroup));
    let created = log.create_group(&g);
    let (phase, action) = worker_step(phase, WorkerEvent::GroupCreation(created));
    assert_eq!((phase, action), (WorkerPhase::Reading, WorkerAction::ReadGroup));
    log.append(vec![pair("url", "a.com"), pair("id", "1")]);
    assert_eq!(log.read_group(&g, &w).unwrap().len(), 1);
}

#[test]
fn duplicate_publish_gives_two_independent_ticks() {
    let mut log = StreamLog::new();
    let g = "eu".to_string();
    log.ensure_group(&g).unwrap();
    let sites = vec![site("a.com", "1", true), site("a.com", "1", true)];
    assert_eq!(log.publish_tick(&sites), 2);
    let got = log.read_group(&g, &"w".to_string()).unwrap();
    assert_eq!(got.len(), 2);
    assert_ne!(got[0].id, got[1].id);
    let ticks: Vec<_> = got
        .iter()
        .map(|e| record_probe(&g, &parse_job(&e.fields).unwrap(), ProbeOutcome::Response(200), 10))
        .collect();
    assert_eq!(ticks.len(), 2);
    assert_ne!(ticks[0].id, ticks[1].id);
    for t in &ticks {
        assert_eq!(t.website_id, "1");
        assert_eq!(t.status, CheckStatus::Up);
    }
    let ids: Vec<u64> = got.iter().map(|e| e.id).collect();
    assert_eq!(log.ack(&g, &ids), 2);
}

#[test]
fn end_to_end_single_job() {
    let mut log = StreamLog::new();
    let region = "us-east".to_string();
    let worker = "worker-1".to_string();
    log.ensure_group(&region).unwrap();
    let sites = vec![WebsiteEvent {
        url: "example.com".to_string(),
        id: "w1".to_string(),
        users_id: "u1".to_string(),
        is_snipp_added: true,
    }];
    log.publish_tick(&sites);
    let got = log.read_group(&region, &worker).unwrap();
    assert_eq!(got.len(), 1);
    let job = parse_job(&got[0].fields).unwrap();
    let tick = record_probe(&region, &job, ProbeOutcome::Response(200), 120);
    assert_eq!(tick.website_id, "w1");
    assert_eq!(tick.website_url, "example.com");
    assert_eq!(tick.region, "us-east");
    assert_eq!(tick.status.label(), "Up");
    assert_eq!(tick.response_time_ms, 120);
    assert_eq!(log.ack(&region, &vec![got[0].id]), 1);
    let again = log.read_group(&region, &worker).unwrap();
    assert!(again.iter().all(|e| e.id != got[0].id));
}

#[test]
fn worker_loop_transitions() {
    assert_eq!(worker_step(WorkerPhase::Idle, WorkerEvent::Started), (WorkerPhase::Bootstrapping, WorkerAction::EnsureGroup));
    assert_eq!(worker_step(WorkerPhase::Bootstrapping, WorkerEvent::GroupCreation(Ok(()))), (WorkerPhase::Reading, WorkerAction::ReadGroup));
    assert_eq!(
        worker_step(WorkerPhase::Bootstrapping, WorkerEvent::GroupCreation(Err(CreateGroupError::AlreadyExists))),
        (WorkerPhase::Reading, WorkerAction::ReadGroup)
    );
    assert_eq!(
        worker_step(WorkerPhase::Bootstrapping, WorkerEvent::GroupCreation(Err(CreateGroupError::Connection))),
        (WorkerPhase::Stopped, WorkerAction::Exit)
    );
    assert_eq!(worker_step(WorkerPhase::Reading, WorkerEvent::ReadDone(ReadOutcome::Entries(3))), (WorkerPhase::Processing, WorkerAction::ProcessEntries));
    assert_eq!(worker_step(WorkerPhase::Reading, WorkerEvent::ReadDone(ReadOutcome::Entries(0))), (WorkerPhase::Sleeping, WorkerAction::Sleep));
    assert_eq!(worker_step(WorkerPhase::Reading, WorkerEvent::ReadDone(ReadOutcome::ConnectionFailed)), (WorkerPhase::Stopped, WorkerAction::Exit));
    assert_eq!(worker_step(WorkerPhase::Processing, WorkerEvent::BatchDone), (WorkerPhase::Sleeping, WorkerAction::Sleep));
    assert_eq!(worker_step(WorkerPhase::Sleeping, WorkerEvent::Woke), (WorkerPhase::Reading, WorkerAction::ReadGroup));
    assert_eq!(worker_step(WorkerPhase::Sleeping, WorkerEvent::BatchDone), (WorkerPhase::Stopped, WorkerAction::Exit));
    assert_eq!(worker_step(WorkerPhase::Stopped, WorkerEvent::Woke), (WorkerPhase::Stopped, WorkerAction::Exit));
}

#[test]
fn broker_url_is_required() {
    assert!(matches!(Config::from_setting(None), Err(ConfigError::MissingRedisUrl)));
    let c = Config::from_setting(Some("redis://localhost:6379".to_string())).ok().unwrap();
    assert_eq!(c.redis_url, "redis://localhost:6379");
}

#[test]
fn worker_settings_are_checked() {
    let s = |v: &str| Some(v.to_string());
    assert!(matches!(worker_config(None, s("w1")), Err(ConfigError::MissingRegion)));
    assert!(matches!(worker_config(s("eu"), None), Err(ConfigError::MissingWorkerId)));
    assert!(matches!(worker_config(s(""), s("w1")), Err(ConfigError::EmptyValue)));
    assert!(matches!(worker_config(s("eu"), s("")), Err(ConfigError::EmptyValue)));
    let c = worker_config(s("eu"), s("w1")).ok().unwrap();
    assert_eq!((c.region.as_str(), c.worker_id.as_str()), ("eu", "w1"));
}

#[test]
fn worker_loop_against_memory_stream() {
    let mut log = StreamLog::new();
    let region = "us-east".to_string();
    let me = "worker-1".to_string();
    let mut ticks = Vec::new();
    let mut phase = WorkerPhase::Idle;
    let mut event = WorkerEvent::Started;
    let mut batch = Vec::new();
    let mut published = false;
    for _ in 0..12 {
        let (next, action) = worker_step(phase, event);
        phase = next;
        event = match action {
            WorkerAction::EnsureGroup => WorkerEvent::GroupCreation(log.create_group(&region)),
            WorkerAction::ReadGroup => match log.read_group(&region, &me) {
                Ok(entries) => {
                    batch = entries;
                    WorkerEvent::ReadDone(ReadOutcome::Entries(batch.len()))
                }
                Err(ReadError::GroupMissing) => WorkerEvent::ReadDone(ReadOutcome::GroupMissing),
            },
            WorkerAction::ProcessEntries => {
                for entry in batch.drain(..) {
                    if let Ok(job) = parse_job(&entry.fields) {
                        ticks.push(record_probe(&region, &job, ProbeOutcome::Response(200), 120));
                    }
                    log.ack(&region, &vec![entry.id]);
                }
                WorkerEvent::BatchDone
            }
            WorkerAction::Sleep => {
                if !published {
                    log.publish_tick(&vec![site("example.com", "w1", true)]);
                    log.append(vec![pair("id", "broken")]);
                    published = true;
                } else {
                    // the group disappears while the worker sleeps
                    log.delete_group(&region);
                }
                WorkerEvent::Woke
            }
            WorkerAction::Exit => panic!("worker stopped"),
        };
    }
    assert_eq!(ticks.len(), 1);
    assert_eq!(ticks[0].website_id, "w1");
    assert_eq!(ticks[0].region, "us-east");
    assert_eq!(ticks[0].status, CheckStatus::Up);
    assert_eq!(ticks[0].response_time_ms, 120);
    assert_ne!(phase, WorkerPhase::Stopped);
}

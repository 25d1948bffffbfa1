use symbol_lookup::error::LookupError;
use symbol_lookup::fetch::{Completion, Failures, Found, Policy, Selection};
use symbol_lookup::jobs::Job;
use symbol_lookup::lookup::{Event, Lookup, Outcome, Phase};
use symbol_lookup::search_symbol_file;

const STRICT: Policy = Policy { failures: Failures::Abort, selection: Selection::LastCompleted };
const TOLERANT: Policy = Policy { failures: Failures::Isolate, selection: Selection::FirstJob };

fn job(cache: Option<&str>, url: &str) -> Job {
    Job { cache: cache.map(|c| c.to_string()), url: url.to_string() }
}

fn ok(job: usize, body: &[u8]) -> Completion {
    Completion { job, response: Ok(body.to_vec()) }
}

fn err(job: usize, reason: &str) -> Completion {
    Completion { job, response: Err(reason.to_string()) }
}

fn start(file_name: &str, sympath: &str, policy: Policy) -> Lookup {
    Lookup::start(file_name.to_string(), "ABC123", Some(sympath), Some("/home/u"), policy)
}

#[test]
fn empty_file_name_is_absent_at_once() {
    let lookup = search_symbol_file(String::new(), "ABC123", Some("srv*/c*https://a"), STRICT);
    assert_eq!(
        *lookup.phase(), Phase::Done(Outcome::Absent));
    assert_eq!(lookup.finish(), (Some(Outcome::Absent), String::new()));
    let lookup = search_symbol_file(String::new(), "", None, TOLERANT);
    assert_eq!(lookup.finish(), (Some(Outcome::Absent), String::new()));
}

#[test]
fn no_configuration_is_told_apart() {
    let lookup = search_symbol_file("a.pdb".to_string(), "ABC123", Some("foo;bar"), STRICT);
    assert_eq!(lookup.finish(), (Some(Outcome::Unconfigured), "a.pdb".to_string()));
    let lookup = search_symbol_file("a.pdb".to_string(), "ABC123", Some(""), STRICT);
    assert_eq!(lookup.finish(), (Some(Outcome::Unconfigured), "a.pdb".to_string()));
    let lookup = Lookup::start("a.pdb".to_string(), "ABC123", None, None, STRICT);
    assert_eq!(lookup.finish(), (Some(Outcome::Unconfigured), "a.pdb".to_string()));
}

#[test]
fn policies() {
    assert_eq!(Policy::strict(), STRICT);
    assert_eq!(Policy::tolerant(), TOLERANT);
    assert_eq!(Policy::default(), TOLERANT);
}

#[test]
fn configuration_file_is_asked_for() {
    let lookup = Lookup::start("a.pdb".to_string(), "ABC123", None, Some("/home/u"), STRICT);
    assert_eq!(
        *lookup.phase(), Phase::Config { path: "/home/u/.dump_syms/config".to_string() });
    let lookup = lookup.step(Event::Config(Some("srv*~/sym*https://a".to_string())));
    assert_eq!(
        *lookup.phase(),
        Phase::Probe { at: 0, path: "/home/u/sym/ABC123/a.pdb".to_string() }
    );
    let lookup = Lookup::start("a.pdb".to_string(), "ABC123", None, Some("/home/u"), STRICT);
    let lookup = lookup.step(Event::Config(None));
    assert_eq!(lookup.finish(), (Some(Outcome::Unconfigured), "a.pdb".to_string()));
    let lookup = Lookup::start("a.pdb".to_string(), "ABC123", None, Some("/home/u"), STRICT);
    let lookup = lookup.step(Event::Config(Some("nothing here".to_string())));
    assert_eq!(lookup.finish(), (Some(Outcome::Unconfigured), "a.pdb".to_string()));
}

#[test]
fn first_cache_in_order_wins() {
    let lookup = start("name", "srv*/d1*https://one;srv*/d2*https://two", STRICT);
    assert_eq!(
        *lookup.phase(), Phase::Probe { at: 0, path: "/d1/ABC123/name".to_string() });
    let lookup = lookup.step(Event::Probed(true));
    assert_eq!(
        *lookup.phase(), Phase::Load { path: "/d1/ABC123/name".to_string() });
    let lookup = lookup.step(Event::Loaded(Some(b"cached".to_vec())));
    assert_eq!(
        lookup.finish(),
        (Some(Outcome::Found(b"cached".to_vec())), "name".to_string())
    );
}

#[test]
fn second_cache_is_probed_after_a_miss() {
    let lookup = start("name", "srv*/d1*https://one;srv*https://none;srv*/d2*https://two", STRICT);
    let lookup = lookup.step(Event::Probed(false));
    assert_eq!(
        *lookup.phase(), Phase::Probe { at: 2, path: "/d2/ABC123/name".to_string() });
    let lookup = lookup.step(Event::Probed(true)).step(Event::Loaded(Some(vec![1, 2, 3])));
    assert_eq!(lookup.finish(), (Some(Outcome::Found(vec![1, 2, 3])), "name".to_string()));
}

#[test]
fn unreadable_cache_entry_is_an_error() {
    let lookup = start("name", "srv*/d1*https://one", STRICT);
    let lookup = lookup.step(Event::Probed(true)).step(Event::Loaded(None));
    let error = LookupError::CacheRead("/d1/ABC123/name".to_string());
    assert_eq!(error.message(), "Unable to read the file /d1/ABC123/name");
    assert_eq!(lookup.finish(), (Some(Outcome::Failed(error)), "name".to_string()));
}

#[test]
fn all_caches_missed_goes_to_the_servers() {
    let lookup = start("a.pdb", "srv*/d1*https://one;srv*https://two", STRICT);
    let lookup = lookup.step(Event::Probed(false));
    assert_eq!(
        *lookup.phase(),
        Phase::Fetch {
            jobs: vec![
                job(Some("/d1/ABC123/a.pdb"), "https://one/a.pdb/ABC123/a.pdb"),
                job(Some("/d1/ABC123/a.pdb"), "https://one/a.pdb/ABC123/a.pd_"),
                job(None, "https://two/a.pdb/ABC123/a.pdb"),
                job(None, "https://two/a.pdb/ABC123/a.pd_"),
            ]
        }
    );
}

#[test]
fn servers_without_cache_are_asked_at_once() {
    let lookup = start("lib.so", "srv*https://one", STRICT);
    assert_eq!(
        *lookup.phase(),
        Phase::Fetch { jobs: vec![job(None, "https://one/lib.so/ABC123/lib.so")] }
    );
}

#[test]
fn invalid_url_ends_the_lookup() {
    let lookup = start("lib.so", "srv*not a url", STRICT);
    let error = LookupError::InvalidUrl("not a url/lib.so/ABC123/lib.so".to_string());
    assert_eq!(error.message(), "Invalid url: not a url/lib.so/ABC123/lib.so");
    assert_eq!(lookup.finish(), (Some(Outcome::Failed(error)), "lib.so".to_string()));
}

#[test]
fn notice_is_neither_stored_nor_a_result() {
    let lookup = start("lib.so", "srv*/d1*https://one", STRICT).step(Event::Probed(false));
    let lookup = lookup.step(Event::Fetched(vec![ok(0, b"Symbol Not Found...")]));
    assert_eq!(lookup.finish(), (Some(Outcome::Absent), "lib.so".to_string()));
    let lookup = start("lib.so", "srv*/d1*https://one", TOLERANT).step(Event::Probed(false));
    let lookup = lookup.step(Event::Fetched(vec![ok(0, b"")]));
    assert_eq!(lookup.finish(), (Some(Outcome::Absent), "lib.so".to_string()));
}

#[test]
fn response_is_stored_then_unpacked() {
    let lookup = start("lib.so", "srv*/d1*https://one", STRICT).step(Event::Probed(false));
    let lookup = lookup.step(Event::Fetched(vec![ok(0, b"raw")]));
    assert_eq!(
        *lookup.phase(),
        Phase::Store {
            found: vec![Found {
                job: 0,
                cache: Some("/d1/ABC123/lib.so".to_string()),
                data: b"raw".to_vec()
            }],
            next: 0,
            failure: None,
        }
    );
    assert_eq!(lookup.pending_entry(), Some(("/d1/ABC123/lib.so", &b"raw"[..])));
    let lookup = lookup.step(Event::Stored(true));
    assert_eq!(
        *lookup.phase(), Phase::Unpack { data: b"raw".to_vec() });
    assert_eq!(lookup.pending_entry(), None);
    let lookup = lookup.step(Event::Unpacked(Some(b"unpacked".to_vec())));
    assert_eq!(
        lookup.finish(),
        (Some(Outcome::Found(b"unpacked".to_vec())), "lib.so".to_string())
    );
}

#[test]
fn written_entry_is_read_back_by_the_next_lookup() {
    let sympath = "srv*/d1*https://one";
    let first = start("lib.so", sympath, STRICT).step(Event::Probed(false));
    let first = first.step(Event::Fetched(vec![ok(0, b"raw bytes")]));
    let (path, data) = match first.pending_entry() {
        Some((path, data)) => (path.to_string(), data.to_vec()),
        None => panic!("nothing to store"),
    };
    let second = start("lib.so", sympath, STRICT);
    assert_eq!(
        *second.phase(), Phase::Probe { at: 0, path: path.clone() });
    let second = second.step(Event::Probed(true));
    assert_eq!(
        *second.phase(), Phase::Load { path });
    let second = second.step(Event::Loaded(Some(data)));
    assert_eq!(
        second.finish(),
        (Some(Outcome::Found(b"raw bytes".to_vec())), "lib.so".to_string())
    );
}

#[test]
fn unpacking_failure_is_an_error() {
    let lookup = start("lib.so", "srv*https://one", STRICT);
    let lookup = lookup.step(Event::Fetched(vec![ok(0, b"raw")]));
    assert_eq!(
        *lookup.phase(), Phase::Unpack { data: b"raw".to_vec() });
    let lookup = lookup.step(Event::Unpacked(None));
    let error = LookupError::Decompress("lib.so".to_string());
    assert_eq!(error.message(), "Unable to read the file lib.so from the server");
    assert_eq!(lookup.finish(), (Some(Outcome::Failed(error)), "lib.so".to_string()));
}

#[test]
fn tolerant_lookup_end_to_end() {
    let lookup = Lookup::start(
        "a.pdb".to_string(),
        "ABC123",
        Some("srv*/tmp/cache*https://example/sym"),
        None,
        TOLERANT,
    );
    assert_eq!(
        *lookup.phase(), Phase::Probe { at: 0, path: "/tmp/cache/ABC123/a.pdb".to_string() });
    let lookup = lookup.step(Event::Probed(false));
    assert_eq!(
        *lookup.phase(),
        Phase::Fetch {
            jobs: vec![
                job(Some("/tmp/cache/ABC123/a.pdb"), "https://example/sym/a.pdb/ABC123/a.pdb"),
                job(Some("/tmp/cache/ABC123/a.pdb"), "https://example/sym/a.pdb/ABC123/a.pd_"),
            ]
        }
    );
    let lookup = lookup.step(Event::Fetched(vec![err(1, "connection refused"), ok(0, b"MSCF raw")]));
    assert_eq!(lookup.pending_entry(), Some(("/tmp/cache/ABC123/a.pdb", &b"MSCF raw"[..])));
    let lookup = lookup.step(Event::Stored(true));
    assert_eq!(
        *lookup.phase(), Phase::Unpack { data: b"MSCF raw".to_vec() });
    let lookup = lookup.step(Event::Unpacked(Some(b"payload".to_vec())));
    assert_eq!(lookup.unsaved(), &[] as &[String]);
    assert_eq!(
        lookup.finish(),
        (Some(Outcome::Found(b"payload".to_vec())), "a.pdb".to_string())
    );
}

#[test]
fn strict_lookup_fails_on_a_failed_request() {
    let lookup = start("a.pdb", "srv*/tmp/cache*https://example/sym", STRICT);
    let lookup = lookup.step(Event::Probed(false));
    let lookup = lookup.step(Event::Fetched(vec![ok(0, b"MSCF raw"), err(1, "connection refused")]));
    assert_eq!(lookup.pending_entry(), Some(("/tmp/cache/ABC123/a.pdb", &b"MSCF raw"[..])));
    let lookup = lookup.step(Event::Stored(true));
    let error = LookupError::Transport("connection refused".to_string());
    assert_eq!(error.message(), "Error while processing: connection refused");
    assert_eq!(lookup.finish(), (Some(Outcome::Failed(error)), "a.pdb".to_string()));
}

#[test]
fn tolerant_lookup_fails_when_all_requests_failed() {
    let lookup = start("a.pdb", "srv*https://example/sym", TOLERANT);
    let lookup = lookup.step(Event::Fetched(vec![err(1, "refused"), err(0, "timed out")]));
    assert_eq!(
        lookup.finish(),
        (
            Some(Outcome::Failed(LookupError::Transport("refused".to_string()))),
            "a.pdb".to_string()
        )
    );
}

#[test]
fn both_variants_are_written_last_writer_wins() {
    let lookup = start("a.pdb", "srv*/c*https://s", STRICT).step(Event::Probed(false));
    let lookup = lookup.step(Event::Fetched(vec![ok(1, b"packed"), ok(0, b"plain")]));
    assert_eq!(lookup.pending_entry(), Some(("/c/ABC123/a.pdb", &b"packed"[..])));
    let lookup = lookup.step(Event::Stored(true));
    assert_eq!(lookup.pending_entry(), Some(("/c/ABC123/a.pdb", &b"plain"[..])));
    let lookup = lookup.step(Event::Stored(true));
    assert_eq!(
        *lookup.phase(), Phase::Unpack { data: b"plain".to_vec() });
}

#[test]
fn first_job_selection_prefers_the_earlier_job() {
    let lookup = start("a.pdb", "srv*https://s;srv*https://t", TOLERANT);
    let lookup = lookup.step(Event::Fetched(vec![ok(3, b"t packed"), ok(1, b"s packed"), ok(2, b"t")]));
    assert_eq!(
        *lookup.phase(), Phase::Unpack { data: b"s packed".to_vec() });
}

#[test]
fn failed_write_under_abort_is_an_error() {
    let lookup = start("lib.so", "srv*/d1*https://one", STRICT).step(Event::Probed(false));
    let lookup = lookup.step(Event::Fetched(vec![ok(0, b"raw")])).step(Event::Stored(false));
    let error = LookupError::CacheWrite("/d1/ABC123/lib.so".to_string());
    assert_eq!(error.message(), "Cannot write file /d1/ABC123/lib.so");
    assert_eq!(lookup.finish(), (Some(Outcome::Failed(error)), "lib.so".to_string()));
}

#[test]
fn failed_write_under_isolate_is_passed_over() {
    let lookup = start("lib.so", "srv*/d1*https://one", TOLERANT).step(Event::Probed(false));
    let lookup = lookup.step(Event::Fetched(vec![ok(0, b"raw")])).step(Event::Stored(false));
    assert_eq!(lookup.unsaved(), &["/d1/ABC123/lib.so".to_string()]);
    assert_eq!(
        *lookup.phase(), Phase::Unpack { data: b"raw".to_vec() });
}

#[test]
fn events_out_of_turn_change_nothing() {
    let lookup = start("name", "srv*/d1*https://one", STRICT);
    let lookup = lookup.step(Event::Stored(true));
    let lookup = lookup.step(Event::Unpacked(None));
    let lookup = lookup.step(Event::Fetched(vec![ok(0, b"x")]));
    let lookup = lookup.step(Event::Config(None));
    let lookup = lookup.step(Event::Loaded(Some(vec![1])));
    assert_eq!(
        *lookup.phase(), Phase::Probe { at: 0, path: "/d1/ABC123/name".to_string() });
    assert_eq!(lookup.finish(), (None, "name".to_string()));
    let done = start("", "srv*/d1*https://one", STRICT).step(Event::Probed(true));
    assert_eq!(done.finish(), (Some(Outcome::Absent), String::new()));
}

#[test]
fn search_symbol_file_starts_the_lookup() {
    let lookup = search_symbol_file("lib.so".to_string(), "ID", Some("srv*/c*https://a"), STRICT);
    assert_eq!(lookup.file_name(), "lib.so");
    assert_eq!(lookup.debug_id(), "ID");
    assert_eq!(lookup.policy(), STRICT);
    assert_eq!(lookup.servers().len(), 1);
    assert_eq!(lookup.servers()[0].server, "https://a");
    assert_eq!(
        *lookup.phase(), Phase::Probe { at: 0, path: "/c/ID/lib.so".to_string() });
}

#[test]
fn home_is_kept_for_the_configuration() {
    let lookup = Lookup::start("a".to_string(), "ID", None, Some("/home/u"), TOLERANT);
    assert_eq!(lookup.home(), Some("/home/u"));
    assert_eq!(lookup.policy(), TOLERANT);
    assert_eq!(lookup.servers().len(), 0);
    let lookup = lookup.step(Event::Config(Some("srv*~*https://a\nsrv*https://b".to_string())));
    assert_eq!(lookup.servers().len(), 2);
    assert_eq!(lookup.servers()[0].cache, Some("/home/u".to_string()));
    assert_eq!(*lookup.phase(), Phase::Probe { at: 0, path: "/home/u/ID/a".to_string() });
}

#[test]
fn configuration_file_lies_below_the_home_directory() {
    let lookup = search_symbol_file("lib.so".to_string(), "ID", None, TOLERANT);
    let home = lookup.home().map(|h| h.to_string());
    match (lookup.phase(), home) {
        (Phase::Config { path }, Some(home)) => {
            assert_eq!(*path, format!("{}/.dump_syms/config", home));
        }
        (Phase::Done(Outcome::Unconfigured), None) => {}
        (phase, home) => panic!("unexpected start: {:?} with home {:?}", phase, home),
    }
}

#[test]
fn tilde_stands_for_the_home_directory() {
    let lookup = search_symbol_file("lib.so".to_string(), "ID", Some("srv*~/sym*https://a"), STRICT);
    let want = match lookup.home() {
        Some(home) => format!("{}/sym/ID/lib.so", home),
        None => "~/sym/ID/lib.so".to_string(),
    };
    assert_eq!(*lookup.phase(), Phase::Probe { at: 0, path: want });
}

//! A lookup, from its start to its outcome.
//!
//! A lookup never touches the disk or the network itself. It is a state that
//! says in its [`Phase`] what it waits for; whoever drives it does that work
//! and hands back an [`Event`], and [`Lookup::step`] decides what comes next.
use crate::error::{ErrorModel, LookupError};
use crate::fetch::{
    choice, completion_models, find_stored, found_models, is_choice, lemma_choice_unique,
    next_stored, retrieve_data, retrieved, select, Completion, CompletionModel, Failures, Found,
    FoundModel, Policy,
};
use crate::fetch::{
    lemma_choice_exists, lemma_next_stored, lemma_retrieved, stems_from, usable,
};
use crate::jobs::{
    get_jobs, is_entry_of, job_models, jobs_of, lemma_next_cached, next_cached, planned,
    search_in_cache,
    server_cache_entry, Job, JobModel,
};
use crate::sympath::{
    models, read_config_from_str, read_config_spec, slice_text_of, text_of, ServerModel,
    SymbolServer,
};
use vstd::prelude::*;

verus! {

/// How a lookup ended.
#[derive(Debug, PartialEq, Eq)]
pub enum Outcome {
    /// No server is configured, so nothing was looked for. To the one who
    /// asked this is a lookup without a file, as [`Outcome::Absent`] is.
    Unconfigured,
    /// No cache and no server has the file.
    Absent,
    /// The bytes of the file.
    Found(Vec<u8>),
    /// The lookup was given up.
    Failed(LookupError),
}

/// An [`Outcome`] as sequences.
pub enum OutcomeModel {
    Unconfigured,
    Absent,
    Found(Seq<u8>),
    Failed(ErrorModel),
}

impl View for Outcome {
    type V = OutcomeModel;

    open spec fn view(&self) -> OutcomeModel {
        match self {
            Outcome::Unconfigured => OutcomeModel::Unconfigured,
            Outcome::Absent => OutcomeModel::Absent,
            Outcome::Found(data) => OutcomeModel::Found(data@),
            Outcome::Failed(e) => OutcomeModel::Failed(e@),
        }
    }
}

/// What a lookup waits for.
#[derive(Debug, PartialEq, Eq)]
pub enum Phase {
    /// For the text of the configuration file at `path`.
    Config { path: String },
    /// For word whether the cache entry at `path`, which belongs to the
    /// server in position `at`, is on disk.
    Probe { at: usize, path: String },
    /// For the bytes of the cache entry at `path`.
    Load { path: String },
    /// For the completions of the requests in `jobs`, all sent at once.
    Fetch { jobs: Vec<Job> },
    /// For the kept response in position `next` to be written to its cache
    /// entry. `failure` is the reason for which the lookup fails once the
    /// responses are written.
    Store { found: Vec<Found>, next: usize, failure: Option<String> },
    /// For `data` to be unpacked.
    Unpack { data: Vec<u8> },
    /// For nothing: the lookup is over.
    Done(Outcome),
}

/// A [`Phase`] as sequences.
pub enum PhaseModel {
    Config { path: Seq<char> },
    Probe { at: int, path: Seq<char> },
    Load { path: Seq<char> },
    Fetch { jobs: Seq<JobModel> },
    Store { found: Seq<FoundModel>, next: int, failure: Option<Seq<char>> },
    Unpack { data: Seq<u8> },
    Done(OutcomeModel),
}

impl View for Phase {
    type V = PhaseModel;

    open spec fn view(&self) -> PhaseModel {
        match self {
            Phase::Config { path } => PhaseModel::Config { path: path@ },
            Phase::Probe { at, path } => PhaseModel::Probe { at: *at as int, path: path@ },
            Phase::Load { path } => PhaseModel::Load { path: path@ },
            Phase::Fetch { jobs } => PhaseModel::Fetch { jobs: job_models(jobs@) },
            Phase::Store { found, next, failure } => PhaseModel::Store {
                found: found_models(found@),
                next: *next as int,
                failure: text_of(*failure),
            },
            Phase::Unpack { data } => PhaseModel::Unpack { data: data@ },
            Phase::Done(outcome) => PhaseModel::Done(outcome@),
        }
    }
}

/// What the one who drives a lookup reports back.
#[derive(Debug, PartialEq, Eq)]
pub enum Event {
    /// The text of the configuration file; `None` where there is no such file.
    Config(Option<String>),
    /// Whether the cache entry is on disk.
    Probed(bool),
    /// The bytes of the cache entry; `None` where it could not be read.
    Loaded(Option<Vec<u8>>),
    /// How the requests ended, in the order in which they ended.
    Fetched(Vec<Completion>),
    /// Whether the cache entry was written.
    Stored(bool),
    /// The unpacked bytes; `None` where the data could not be unpacked.
    Unpacked(Option<Vec<u8>>),
}

/// An [`Event`] as sequences.
pub enum EventModel {
    Config(Option<Seq<char>>),
    Probed(bool),
    Loaded(Option<Seq<u8>>),
    Fetched(Seq<CompletionModel>),
    Stored(bool),
    Unpacked(Option<Seq<u8>>),
}

/// The bytes of an optional vector.
pub open spec fn bytes_of(data: Option<Vec<u8>>) -> Option<Seq<u8>> {
    match data {
        Some(d) => Some(d@),
        None => None,
    }
}

impl View for Event {
    type V = EventModel;

    open spec fn view(&self) -> EventModel {
        match self {
            Event::Config(text) => EventModel::Config(text_of(*text)),
            Event::Probed(present) => EventModel::Probed(*present),
            Event::Loaded(data) => EventModel::Loaded(bytes_of(*data)),
            Event::Fetched(completions) => EventModel::Fetched(completion_models(completions@)),
            Event::Stored(written) => EventModel::Stored(*written),
            Event::Unpacked(data) => EventModel::Unpacked(bytes_of(*data)),
        }
    }
}

/// A lookup of one file: what is asked for, the servers that were configured
/// for it, and the phase that it is in.
#[derive(Debug, PartialEq, Eq)]
pub struct Lookup {
    file_name: String,
    debug_id: String,
    home: Option<String>,
    policy: Policy,
    servers: Vec<SymbolServer>,
    /// The cache entries that could not be written and were passed over.
    unsaved: Vec<String>,
    phase: Phase,
}

/// A [`Lookup`] as sequences.
pub struct LookupModel {
    pub file_name: Seq<char>,
    pub debug_id: Seq<char>,
    pub home: Option<Seq<char>>,
    pub policy: Policy,
    pub servers: Seq<ServerModel>,
    pub unsaved: Seq<Seq<char>>,
    pub phase: PhaseModel,
}

/// The texts of a list of strings, in order.
pub open spec fn texts(strings: Seq<String>) -> Seq<Seq<char>> {
    Seq::new(strings.len(), |i: int| strings[i]@)
}

impl View for Lookup {
    type V = LookupModel;

    closed spec fn view(&self) -> LookupModel {
        LookupModel {
            file_name: self.file_name@,
            debug_id: self.debug_id@,
            home: text_of(self.home),
            policy: self.policy,
            servers: models(self.servers@),
            unsaved: texts(self.unsaved@),
            phase: self.phase@,
        }
    }
}

/// Where the configuration file lies below the home directory.
pub open spec fn config_file(home: Seq<char>) -> Seq<char> {
    home + "/.dump_syms/config"@
}

impl LookupModel {
    /// The lookup in another phase.
    pub open spec fn at_phase(self, phase: PhaseModel) -> LookupModel {
        LookupModel { phase, ..self }
    }

    /// The lookup, over without a file.
    pub open spec fn absent(self) -> LookupModel {
        self.at_phase(PhaseModel::Done(OutcomeModel::Absent))
    }

    /// The lookup, over for want of a server.
    pub open spec fn unconfigured(self) -> LookupModel {
        self.at_phase(PhaseModel::Done(OutcomeModel::Unconfigured))
    }

    /// The lookup, given up.
    pub open spec fn failed(self, e: ErrorModel) -> LookupModel {
        self.at_phase(PhaseModel::Done(OutcomeModel::Failed(e)))
    }

    /// The lookup, over with the bytes of the file.
    pub open spec fn found(self, data: Seq<u8>) -> LookupModel {
        self.at_phase(PhaseModel::Done(OutcomeModel::Found(data)))
    }

    /// The cache entry of the server in position `at`.
    pub open spec fn entry(self, at: int) -> Option<Seq<char>> {
        server_cache_entry(self.servers[at], self.debug_id, self.file_name)
    }

    /// The lookup once its configuration text is known: over where the text
    /// names no server, else at the first cache.
    pub open spec fn configure(self, text: Seq<char>) -> LookupModel {
        match read_config_spec(text, self.home) {
            Some(servers) => (LookupModel { servers, ..self }).probe_from(0),
            None => self.unconfigured(),
        }
    }

    /// The lookup at the next cache from position `from` on, or at its
    /// requests where no cache is left.
    pub open spec fn probe_from(self, from: int) -> LookupModel {
        let at = next_cached(self.servers, from);
        if 0 <= at < self.servers.len() {
            self.at_phase(PhaseModel::Probe { at, path: self.entry(at)->Some_0 })
        } else {
            self.request()
        }
    }

    /// The lookup at its requests, or given up where a URL is none.
    pub open spec fn request(self) -> LookupModel {
        match planned(self.servers, self.debug_id, self.file_name) {
            Ok(jobs) => self.at_phase(PhaseModel::Fetch { jobs }),
            Err(e) => self.failed(e),
        }
    }

    /// The lookup at the next response to be written from position `from`
    /// on, or at its conclusion where none is left.
    pub open spec fn store_from(
        self,
        found: Seq<FoundModel>,
        from: int,
        failure: Option<Seq<char>>,
    ) -> LookupModel {
        let next = next_stored(found, from);
        if 0 <= next < found.len() {
            self.at_phase(PhaseModel::Store { found, next, failure })
        } else {
            self.conclude(found, failure)
        }
    }

    /// The lookup once the responses are written: given up where the
    /// requests' failures count, else at the unpacking of the chosen
    /// response, else over without a file.
    pub open spec fn conclude(self, found: Seq<FoundModel>, failure: Option<Seq<char>>) -> LookupModel {
        match failure {
            Some(reason) => self.failed(ErrorModel::Transport(reason)),
            None => match choice(found, self.policy.selection) {
                Some(i) => self.at_phase(PhaseModel::Unpack { data: found[i].data }),
                None => self.absent(),
            },
        }
    }

    /// The lookup after an event. An event that does not answer what the
    /// lookup waits for changes nothing.
    pub open spec fn step(self, event: EventModel) -> LookupModel {
        match (self.phase, event) {
            (PhaseModel::Config { .. }, EventModel::Config(Some(text))) => self.configure(text),
            (PhaseModel::Config { .. }, EventModel::Config(None)) => self.unconfigured(),
            (PhaseModel::Probe { path, .. }, EventModel::Probed(true)) => self.at_phase(
                PhaseModel::Load { path },
            ),
            (PhaseModel::Probe { at, .. }, EventModel::Probed(false)) => self.probe_from(at + 1),
            (PhaseModel::Load { .. }, EventModel::Loaded(Some(data))) => self.found(data),
            (PhaseModel::Load { path }, EventModel::Loaded(None)) => self.failed(
                ErrorModel::CacheRead(path),
            ),
            (PhaseModel::Fetch { jobs }, EventModel::Fetched(completions)) => {
                let r = retrieved(jobs, completions, self.policy.failures);
                self.store_from(r.found, 0, r.failure)
            },
            (PhaseModel::Store { found, next, failure }, EventModel::Stored(true)) => self.store_from(
                found,
                next + 1,
                failure,
            ),
            (PhaseModel::Store { found, next, failure }, EventModel::Stored(false)) => {
                let path = found[next].cache->Some_0;
                match self.policy.failures {
                    Failures::Abort => self.failed(ErrorModel::CacheWrite(path)),
                    Failures::Isolate => (LookupModel {
                        unsaved: self.unsaved.push(path),
                        ..self
                    }).store_from(found, next + 1, failure),
                }
            },
            (PhaseModel::Unpack { .. }, EventModel::Unpacked(Some(data))) => self.found(data),
            (PhaseModel::Unpack { .. }, EventModel::Unpacked(None)) => self.failed(
                ErrorModel::Decompress(self.file_name),
            ),
            _ => self,
        }
    }

    /// The lookup at its start: over at once, without a file, where no file
    /// name is given; else configured from `symbol_server` where that is
    /// given; else waiting for the configuration file below the home
    /// directory, or over for want of a server where no home directory is
    /// known.
    pub open spec fn start(
        file_name: Seq<char>,
        debug_id: Seq<char>,
        symbol_server: Option<Seq<char>>,
        home: Option<Seq<char>>,
        policy: Policy,
    ) -> LookupModel {
        let fresh = LookupModel {
            file_name,
            debug_id,
            home,
            policy,
            servers: Seq::empty(),
            unsaved: Seq::empty(),
            phase: PhaseModel::Done(OutcomeModel::Absent),
        };
        if file_name.len() == 0 {
            fresh
        } else {
            match (symbol_server, home) {
                (Some(text), _) => fresh.configure(text),
                (None, Some(h)) => fresh.at_phase(PhaseModel::Config { path: config_file(h) }),
                (None, None) => fresh.unconfigured(),
            }
        }
    }
}

impl LookupModel {
    /// The path of the cache entry that the lookup wants written.
    pub open spec fn pending_path(self) -> Seq<char>
        recommends
            self.phase is Store,
    {
        self.phase->Store_found[self.phase->Store_next].cache->Some_0
    }

    /// The bytes that the lookup wants written.
    pub open spec fn pending_data(self) -> Seq<u8>
        recommends
            self.phase is Store,
    {
        self.phase->Store_found[self.phase->Store_next].data
    }

    /// The requests that the lookup's servers come to.
    pub open spec fn wanted(self) -> Seq<JobModel> {
        jobs_of(self.servers, self.debug_id, self.file_name)
    }

    /// Whether each of `found` is worth keeping and carries the cache entry
    /// of one of the lookup's jobs.
    pub open spec fn keeps(self, found: Seq<FoundModel>) -> bool {
        forall|k: int| 0 <= k < found.len() ==> stems_from(#[trigger] found[k], self.wanted())
    }

    /// What holds of a lookup in each phase. A cache entry that is probed or
    /// read is that of one of the servers. The jobs are the requests that the
    /// servers come to, each with an absolute URL. What was kept of the
    /// responses is worth keeping, and so is what is unpacked.
    pub open spec fn wf(self) -> bool {
        match self.phase {
            PhaseModel::Probe { at, path } => 0 <= at < self.servers.len() && self.entry(at)
                == Some(path),
            PhaseModel::Load { path } => is_entry_of(
                path,
                self.servers,
                self.debug_id,
                self.file_name,
            ),
            PhaseModel::Fetch { jobs } => planned(self.servers, self.debug_id, self.file_name)
                == Ok::<Seq<JobModel>, ErrorModel>(jobs),
            PhaseModel::Store { found, next, .. } => {
                &&& 0 <= next < found.len()
                &&& found[next].cache is Some
                &&& self.keeps(found)
            },
            PhaseModel::Unpack { data } => usable(data),
            _ => true,
        }
    }
}

impl Lookup {
    /// Every lookup is well formed, in the sense of [`LookupModel::wf`].
    #[verifier::type_invariant]
    pub closed spec fn wf(&self) -> bool {
        self@.wf()
    }

    /// The name of the file that is looked up.
    pub fn file_name(&self) -> (r: &str)
        ensures
            r@ == self@.file_name,
    {
        self.file_name.as_str()
    }

    /// The debug identifier of the file that is looked up.
    pub fn debug_id(&self) -> (r: &str)
        ensures
            r@ == self@.debug_id,
    {
        self.debug_id.as_str()
    }

    /// The home directory that the lookup was started with.
    pub fn home(&self) -> (r: Option<&str>)
        ensures
            slice_text_of(r) == self@.home,
    {
        match &self.home {
            Some(h) => Some(h.as_str()),
            None => None,
        }
    }

    /// The choices that the lookup was started with.
    pub fn policy(&self) -> (r: Policy)
        ensures
            r == self@.policy,
    {
        self.policy
    }

    /// The servers that the lookup is configured with.
    pub fn servers(&self) -> (r: &[SymbolServer])
        ensures
            models(r@) == self@.servers,
    {
        self.servers.as_slice()
    }

    /// The cache entries that could not be written and were passed over.
    pub fn unsaved(&self) -> (r: &[String])
        ensures
            texts(r@) == self@.unsaved,
    {
        self.unsaved.as_slice()
    }

    /// What the lookup waits for.
    pub fn phase(&self) -> (r: &Phase)
        ensures
            r@ == self@.phase,
    {
        &self.phase
    }

    /// Puts the lookup into `phase`.
    fn at_phase(self, phase: Phase) -> (r: Lookup)
        requires
            self@.at_phase(phase@).wf(),
        ensures
            r@ == self@.at_phase(phase@),
    {
        Lookup {
            file_name: self.file_name,
            debug_id: self.debug_id,
            home: self.home,
            policy: self.policy,
            servers: self.servers,
            unsaved: self.unsaved,
            phase,
        }
    }

    /// Notes that the cache entry at `path` was not written.
    fn pass_over(self, path: String) -> (r: Lookup)
        ensures
            r@ == (LookupModel { unsaved: self@.unsaved.push(path@), ..self@ }).absent(),
    {
        let Lookup { file_name, debug_id, home, policy, servers, unsaved, phase } = self;
        let mut unsaved = unsaved;
        proof {
            assert(texts(unsaved@.push(path)) =~= texts(unsaved@).push(path@));
        }
        unsaved.push(path);
        Lookup {
            file_name,
            debug_id,
            home,
            policy,
            servers,
            unsaved,
            phase: Phase::Done(Outcome::Absent),
        }
    }

    /// Reads the configuration text and goes to the first cache.
    fn configure(self, text: &str) -> (r: Lookup)
        ensures
            r@ == self@.configure(text@),
            r@.wf(),
    {
        match read_config_from_str(text, self.home()) {
            Some(servers) => {
                let configured = Lookup {
                    file_name: self.file_name,
                    debug_id: self.debug_id,
                    home: self.home,
                    policy: self.policy,
                    servers,
                    unsaved: self.unsaved,
                    phase: Phase::Done(Outcome::Absent),
                };
                configured.probe_from(0)
            },
            None => self.at_phase(Phase::Done(Outcome::Unconfigured)),
        }
    }

    /// Goes to the next cache from position `from` on, or to the requests.
    fn probe_from(self, from: usize) -> (r: Lookup)
        ensures
            r@ == self@.probe_from(from as int),
            r@.wf(),
    {
        let next = search_in_cache(
            self.servers.as_slice(),
            self.debug_id.as_str(),
            self.file_name.as_str(),
            from,
        );
        match next {
            Some((at, path)) => self.at_phase(Phase::Probe { at, path }),
            None => self.request(),
        }
    }

    /// Goes to the requests.
    fn request(self) -> (r: Lookup)
        ensures
            r@ == self@.request(),
            r@.wf(),
    {
        let plan = get_jobs(
            self.servers.as_slice(),
            self.debug_id.as_str(),
            self.file_name.as_str(),
        );
        match plan {
            Ok(jobs) => self.at_phase(Phase::Fetch { jobs }),
            Err(e) => self.at_phase(Phase::Done(Outcome::Failed(e))),
        }
    }

    /// Goes to the next response to be written from position `from` on, or
    /// to the conclusion.
    fn store_from(self, found: Vec<Found>, from: usize, failure: Option<String>) -> (r: Lookup)
        requires
            self@.keeps(found_models(found@)),
        ensures
            r@ == self@.store_from(found_models(found@), from as int, text_of(failure)),
            r@.wf(),
    {
        let next = find_stored(found.as_slice(), from);
        if next < found.len() {
            self.at_phase(Phase::Store { found, next, failure })
        } else {
            self.conclude(found, failure)
        }
    }

    /// Ends the phase of the requests.
    fn conclude(self, found: Vec<Found>, failure: Option<String>) -> (r: Lookup)
        requires
            self@.keeps(found_models(found@)),
        ensures
            r@ == self@.conclude(found_models(found@), text_of(failure)),
            r@.wf(),
    {
        match failure {
            Some(reason) => self.at_phase(Phase::Done(Outcome::Failed(LookupError::Transport(reason)))),
            None => {
                let mut found = found;
                let ghost fs = found_models(found@);
                match select(found.as_slice(), self.policy.selection) {
                    Some(i) => {
                        proof {
                            let j = choose|j: int| is_choice(fs, self.policy.selection, j);
                            lemma_choice_unique(fs, self.policy.selection, i as int, j);
                        }
                        let chosen = found.remove(i);
                        assert(chosen@ == fs[i as int]);
                        self.at_phase(Phase::Unpack { data: chosen.data })
                    },
                    None => self.at_phase(Phase::Done(Outcome::Absent)),
                }
            },
        }
    }

    /// Starts a lookup of `file_name` with the debug identifier `debug_id`.
    ///
    /// Without a file name the lookup is over at once, and nothing is read
    /// or asked. With a symbol path in `symbol_server` the servers are
    /// those that it names. Without one the lookup waits for the text of the
    /// configuration file below `home`; where no home directory is known it
    /// is over for want of a server.
    pub fn start(
        file_name: String,
        debug_id: &str,
        symbol_server: Option<&str>,
        home: Option<&str>,
        policy: Policy,
    ) -> (r: Lookup)
        ensures
            r@ == LookupModel::start(
                file_name@,
                debug_id@,
                slice_text_of(symbol_server),
                slice_text_of(home),
                policy,
            ),
            r@.wf(),
    {
        let empty = file_name.as_str().unicode_len() == 0;
        let fresh = Lookup {
            file_name,
            debug_id: String::from_str(debug_id),
            home: match home {
                Some(h) => Some(String::from_str(h)),
                None => None,
            },
            policy,
            servers: Vec::new(),
            unsaved: Vec::new(),
            phase: Phase::Done(Outcome::Absent),
        };
        proof {
            assert(models(fresh.servers@) =~= Seq::empty());
            assert(texts(fresh.unsaved@) =~= Seq::empty());
        }
        if empty {
            return fresh;
        }
        match symbol_server {
            Some(text) => fresh.configure(text),
            None => match home {
                Some(h) => {
                    let path = String::from_str(h).concat("/.dump_syms/config");
                    fresh.at_phase(Phase::Config { path })
                },
                None => fresh.at_phase(Phase::Done(Outcome::Unconfigured)),
            },
        }
    }

    /// Takes the lookup one event further: from what it waited for to what
    /// it waits for next. An event that does not answer what the lookup
    /// waits for leaves it as it is.
    pub fn step(self, event: Event) -> (r: Lookup)
        ensures
            r@ == self@.step(event@),
            r@.wf(),
            r@.file_name == self@.file_name,
            r@.debug_id == self@.debug_id,
    {
        let ghost before = self@;
        proof {
            use_type_invariant(&self);
        }
        let Lookup { file_name, debug_id, home, policy, servers, unsaved, phase } = self;
        let base = Lookup {
            file_name,
            debug_id,
            home,
            policy,
            servers,
            unsaved,
            phase: Phase::Done(Outcome::Absent),
        };
        proof {
            assert(base@ == before.absent());
            assert(phase@ == before.phase);
            assert(before.wf());
            assert(before.servers.len() == base.servers@.len());
            if let PhaseModel::Store { found, next, failure } = phase@ {
                assert(phase->Store_found@.len() == found.len());
            }
        }
        match phase {
            Phase::Config { path } => match event {
                Event::Config(Some(text)) => base.configure(text.as_str()),
                Event::Config(None) => base.at_phase(Phase::Done(Outcome::Unconfigured)),
                _ => base.at_phase(Phase::Config { path }),
            },
            Phase::Probe { at, path } => {
                let servers = base.servers.len();
                assert(at < servers);
                match event {
                    Event::Probed(true) => base.at_phase(Phase::Load { path }),
                    Event::Probed(false) => base.probe_from(at + 1),
                    _ => base.at_phase(Phase::Probe { at, path }),
                }
            },
            Phase::Load { path } => match event {
                Event::Loaded(Some(data)) => base.at_phase(Phase::Done(Outcome::Found(data))),
                Event::Loaded(None) => base.at_phase(
                    Phase::Done(Outcome::Failed(LookupError::CacheRead(path))),
                ),
                _ => base.at_phase(Phase::Load { path }),
            },
            Phase::Fetch { jobs } => match event {
                Event::Fetched(completions) => {
                    let r = retrieve_data(
                        jobs.as_slice(),
                        completions.as_slice(),
                        base.policy.failures,
                    );
                    proof {
                        lemma_retrieved(
                            job_models(jobs@),
                            completion_models(completions@),
                            base.policy.failures,
                        );
                    }
                    base.store_from(r.found, 0, r.failure)
                },
                _ => base.at_phase(Phase::Fetch { jobs }),
            },
            Phase::Store { found, next, failure } => {
                let kept = found.len();
                assert(next < kept);
                match event {
                    Event::Stored(true) => base.store_from(found, next + 1, failure),
                    Event::Stored(false) => {
                        let path = match &found[next].cache {
                            Some(p) => p.clone(),
                            None => String::new(),
                        };
                        match base.policy.failures {
                            Failures::Abort => base.at_phase(
                                Phase::Done(Outcome::Failed(LookupError::CacheWrite(path))),
                            ),
                            Failures::Isolate => {
base.pass_over(path).store_from(found, next + 1, failure)
                            },
                        }
                    },
                    _ => base.at_phase(Phase::Store { found, next, failure }),
                }
            },
            Phase::Unpack { data } => match event {
                Event::Unpacked(Some(unpacked)) => base.at_phase(
                    Phase::Done(Outcome::Found(unpacked)),
                ),
                Event::Unpacked(None) => {
                    let name = base.file_name.clone();
                    base.at_phase(Phase::Done(Outcome::Failed(LookupError::Decompress(name))))
                },
                _ => base.at_phase(Phase::Unpack { data }),
            },
            Phase::Done(outcome) => base.at_phase(Phase::Done(outcome)),
        }
    }
}

impl Lookup {
    /// The cache entry that the lookup wants written, with its bytes; `None`
    /// where it is not waiting for one to be written.
    pub fn pending_entry(&self) -> (r: Option<(&str, &[u8])>)
        ensures
            match r {
                Some((path, data)) => match self@.phase {
                    PhaseModel::Store { found, next, .. } => found[next].cache == Some(path@)
                        && found[next].data == data@,
                    _ => false,
                },
                None => !(self@.phase is Store),
            },
    {
        proof {
            use_type_invariant(self);
        }
        match &self.phase {
            Phase::Store { found, next, .. } => match &found[*next].cache {
                Some(path) => Some((path.as_str(), found[*next].data.as_slice())),
                None => None,
            },
            _ => None,
        }
    }

    /// Ends the lookup: its outcome, where it is over, and the file name that
    /// was asked for, which is handed back as it came whatever the outcome.
    pub fn finish(self) -> (r: (Option<Outcome>, String))
        ensures
            r.1@ == self@.file_name,
            match r.0 {
                Some(outcome) => self@.phase == PhaseModel::Done(outcome@),
                None => !(self@.phase is Done),
            },
    {
        match self.phase {
            Phase::Done(outcome) => (Some(outcome), self.file_name),
            _ => (None, self.file_name),
        }
    }
}

/// Asks `dirs::home_dir` for the home directory of the user. What comes back
/// depends on the user and on how the process was started, so nothing is said of it. A
/// home directory whose path is no Unicode text counts as none.
#[verifier::external_body]
fn home_dir() -> (home: Option<String>) {
    match dirs::home_dir() {
        Some(path) => path.into_os_string().into_string().ok(),
        None => None,
    }
}

/// Starts the search for the symbol file `file_name` with the debug identifier
/// `debug_id`, at the servers that the symbol path `symbol_server` names or,
/// without one, at those of the user's configuration file.
///
/// The lookup that comes back says in its phase what it waits for; see
/// [`Lookup::step`]. It is [`Lookup::start`] with the home directory of the
/// user, whatever that is. Without a file name the lookup is over at once,
/// without a file, and the home directory is not even asked for.
pub fn search_symbol_file(
    file_name: String,
    debug_id: &str,
    symbol_server: Option<&str>,
    policy: Policy,
) -> (r: Lookup)
    ensures
        exists|home: Option<Seq<char>>|
            r@ == LookupModel::start(
                file_name@,
                debug_id@,
                slice_text_of(symbol_server),
                home,
                policy,
            ),
        r.wf(),
        r@.file_name == file_name@,
        file_name@.len() == 0 ==> r@.phase == PhaseModel::Done(OutcomeModel::Absent),
{
    if file_name.as_str().unicode_len() == 0 {
        return Lookup::start(file_name, debug_id, symbol_server, None, policy);
    }
    let home = home_dir();
    let home_slice = match &home {
        Some(h) => Some(h.as_str()),
        None => None,
    };
    Lookup::start(file_name, debug_id, symbol_server, home_slice, policy)
}

/// The search of the caches leaves the lookup well formed.
pub proof fn lemma_probe_from_wf(m: LookupModel, from: int)
    requires
        0 <= from,
    ensures
        m.probe_from(from).wf(),
{
    lemma_next_cached(m.servers, from);
}

/// What is done with the kept responses leaves the lookup well formed.
pub proof fn lemma_store_from_wf(
    m: LookupModel,
    found: Seq<FoundModel>,
    from: int,
    failure: Option<Seq<char>>,
)
    requires
        0 <= from,
        m.keeps(found),
    ensures
        m.store_from(found, from, failure).wf(),
{
    lemma_next_stored(found, from);
    if found.len() > 0 {
        lemma_choice_exists(found, m.policy.selection);
    }
}

/// Every step leaves a lookup well formed: whatever the events, a lookup only
/// probes and reads cache entries of its servers, only asks for what its
/// servers come to, and only writes and unpacks responses that are worth
/// keeping.
pub proof fn lemma_step_wf(m: LookupModel, event: EventModel)
    requires
        m.wf(),
    ensures
        m.step(event).wf(),
        m.step(event).file_name == m.file_name,
        m.step(event).debug_id == m.debug_id,
{
    match (m.phase, event) {
        (PhaseModel::Config { .. }, EventModel::Config(Some(text))) => {
            match read_config_spec(text, m.home) {
                Some(servers) => {
                    lemma_probe_from_wf(LookupModel { servers, ..m }, 0);
                },
                None => {},
            }
        },
        (PhaseModel::Probe { at, .. }, EventModel::Probed(false)) => {
            lemma_probe_from_wf(m, at + 1);
        },
        (PhaseModel::Fetch { jobs }, EventModel::Fetched(completions)) => {
            lemma_retrieved(jobs, completions, m.policy.failures);
            let r = retrieved(jobs, completions, m.policy.failures);
            lemma_store_from_wf(m, r.found, 0, r.failure);
        },
        (PhaseModel::Store { found, next, failure }, EventModel::Stored(true)) => {
            lemma_store_from_wf(m, found, next + 1, failure);
        },
        (PhaseModel::Store { found, next, failure }, EventModel::Stored(false)) => {
            let path = found[next].cache->Some_0;
            lemma_store_from_wf(
                LookupModel { unsaved: m.unsaved.push(path), ..m },
                found,
                next + 1,
                failure,
            );
        },
        _ => {},
    }
}

/// A lookup starts well formed; and without a file name it is over at its
/// start, without a file, whatever the debug identifier, the symbol path and
/// the home directory are.
pub proof fn lemma_start_wf(
    file_name: Seq<char>,
    debug_id: Seq<char>,
    symbol_server: Option<Seq<char>>,
    home: Option<Seq<char>>,
    policy: Policy,
)
    ensures
        LookupModel::start(file_name, debug_id, symbol_server, home, policy).wf(),
        LookupModel::start(file_name, debug_id, symbol_server, home, policy).file_name == file_name,
        file_name.len() == 0 ==> LookupModel::start(
            file_name,
            debug_id,
            symbol_server,
            home,
            policy,
        ).phase == PhaseModel::Done(OutcomeModel::Absent),
{
    if file_name.len() > 0 {
        if let Some(text) = symbol_server {
            let fresh = LookupModel {
                file_name,
                debug_id,
                home,
                policy,
                servers: Seq::empty(),
                unsaved: Seq::empty(),
                phase: PhaseModel::Done(OutcomeModel::Absent),
            };
            match read_config_spec(text, home) {
                Some(servers) => {
                    lemma_probe_from_wf(LookupModel { servers, ..fresh }, 0);
                },
                None => {},
            }
        }
    }
}

} // verus!

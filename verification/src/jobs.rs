//! Where a symbol file is kept and asked for: the cache entry of a server,
//! and the requests that a list of servers comes to.
use crate::error::{ErrorModel, LookupError};
use crate::sympath::{models, ServerModel, SymbolServer};
use crate::text::chars_of;
use vstd::prelude::*;

verus! {

/// One request: the URL to get and, where the server has a cache, the path at
/// which the response is kept.
#[derive(Debug, PartialEq, Eq)]
pub struct Job {
    pub cache: Option<String>,
    pub url: String,
}

/// What a [`Job`] holds, as sequences of characters.
pub struct JobModel {
    pub cache: Option<Seq<char>>,
    pub url: Seq<char>,
}

impl View for Job {
    type V = JobModel;

    open spec fn view(&self) -> JobModel {
        JobModel { cache: crate::sympath::text_of(self.cache), url: self.url@ }
    }
}

/// The models of a list of jobs, in order.
pub open spec fn job_models(jobs: Seq<Job>) -> Seq<JobModel> {
    Seq::new(jobs.len(), |i: int| jobs[i]@)
}

/// The path of a cache entry: the cache directory, the debug identifier and
/// the file name, with a `/` between them.
pub open spec fn cache_entry(dir: Seq<char>, debug_id: Seq<char>, file_name: Seq<char>) -> Seq<
    char,
> {
    dir + seq!['/'] + debug_id + seq!['/'] + file_name
}

/// The URL under which a server keeps `leaf` for a file name and a debug
/// identifier.
pub open spec fn query_url(
    server: Seq<char>,
    file_name: Seq<char>,
    debug_id: Seq<char>,
    leaf: Seq<char>,
) -> Seq<char> {
    server + seq!['/'] + file_name + seq!['/'] + debug_id + seq!['/'] + leaf
}

/// Whether a file name ends in `.pdb`.
pub open spec fn is_pdb(file_name: Seq<char>) -> bool {
    file_name.len() >= 4 && file_name.skip(file_name.len() - 4) == seq!['.', 'p', 'd', 'b']
}

/// The name under which servers keep a compressed file: the file name with
/// `_` in place of its last character.
pub open spec fn compressed_name(file_name: Seq<char>) -> Seq<char> {
    file_name.drop_last().push('_')
}

/// The cache entry of a server for a file, where the server has a cache.
pub open spec fn server_cache_entry(
    server: ServerModel,
    debug_id: Seq<char>,
    file_name: Seq<char>,
) -> Option<Seq<char>> {
    match server.cache {
        Some(dir) => Some(cache_entry(dir, debug_id, file_name)),
        None => None,
    }
}

/// The requests to one server: one for the file itself and, for a `.pdb`
/// file, a second one for its compressed form. Both share the cache entry.
pub open spec fn server_jobs(server: ServerModel, debug_id: Seq<char>, file_name: Seq<char>) -> Seq<
    JobModel,
> {
    let cache = server_cache_entry(server, debug_id, file_name);
    let plain = JobModel { cache, url: query_url(server.server, file_name, debug_id, file_name) };
    if is_pdb(file_name) {
        seq![
            plain,
            JobModel {
                cache,
                url: query_url(server.server, file_name, debug_id, compressed_name(file_name)),
            },
        ]
    } else {
        seq![plain]
    }
}

/// The requests to a list of servers, server by server in the list's order.
pub open spec fn jobs_of(servers: Seq<ServerModel>, debug_id: Seq<char>, file_name: Seq<char>) -> Seq<
    JobModel,
>
    decreases servers.len(),
{
    if servers.len() == 0 {
        Seq::empty()
    } else {
        jobs_of(servers.drop_last(), debug_id, file_name) + server_jobs(
            servers.last(),
            debug_id,
            file_name,
        )
    }
}

/// The position of the first server at or after `from` that has a cache, or
/// the number of servers where none is left.
pub open spec fn next_cached(servers: Seq<ServerModel>, from: int) -> int
    decreases servers.len() - from,
{
    if from < 0 || from >= servers.len() {
        servers.len() as int
    } else if servers[from].cache is Some {
        from
    } else {
        next_cached(servers, from + 1)
    }
}

/// Builds the path of a cache entry.
pub fn cache_path(dir: &str, debug_id: &str, file_name: &str) -> (r: String)
    ensures
        r@ == cache_entry(dir@, debug_id@, file_name@),
{
    proof {
        reveal_strlit("/");
        assert("/"@ =~= seq!['/']);
    }
    String::from_str(dir).concat("/").concat(debug_id).concat("/").concat(file_name)
}

/// Builds the URL of a request.
pub fn request_url(server: &str, file_name: &str, debug_id: &str, leaf: &str) -> (r: String)
    ensures
        r@ == query_url(server@, file_name@, debug_id@, leaf@),
{
    proof {
        reveal_strlit("/");
        assert("/"@ =~= seq!['/']);
    }
    String::from_str(server).concat("/").concat(file_name).concat("/").concat(debug_id).concat(
        "/",
    ).concat(leaf)
}

/// The compressed name of a `.pdb` file; `None` for any other file name.
pub fn compressed_variant(file_name: &str) -> (r: Option<String>)
    ensures
        crate::sympath::text_of(r) == (if is_pdb(file_name@) {
            Some(compressed_name(file_name@))
        } else {
            None
        }),
{
    let v = chars_of(file_name);
    let n = v.len();
    if n < 4 {
        return None;
    }
    let ends = v[n - 4] == '.' && v[n - 3] == 'p' && v[n - 2] == 'd' && v[n - 1] == 'b';
    proof {
        let tail = file_name@.skip(n - 4);
        assert(tail.len() == 4);
        assert(tail[0] == v@[n - 4] && tail[1] == v@[n - 3] && tail[2] == v@[n - 2] && tail[3]
            == v@[n - 1]);
        if ends {
            assert(tail =~= seq!['.', 'p', 'd', 'b']);
        } else {
            assert(seq!['.', 'p', 'd', 'b'][0] == '.');
            assert(seq!['.', 'p', 'd', 'b'][1] == 'p');
            assert(seq!['.', 'p', 'd', 'b'][2] == 'd');
            assert(seq!['.', 'p', 'd', 'b'][3] == 'b');
        }
    }
    if !ends {
        return None;
    }
    proof {
        reveal_strlit("_");
        assert(file_name@.subrange(0, n - 1) =~= file_name@.drop_last());
        assert(file_name@.drop_last() + "_"@ =~= file_name@.drop_last().push('_'));
    }
    Some(String::from_str(file_name.substring_char(0, n - 1)).concat("_"))
}

/// Whether `url` is an absolute URL: whether `url::Url::parse` accepts it.
pub uninterp spec fn url_parses(url: Seq<char>) -> bool;

/// Asks `url::Url::parse` whether it accepts `url`. The parser reads nothing
/// but its argument, so the answer is the same whenever it is asked; which
/// texts it accepts is left to it.
#[verifier::external_body]
fn url_is_valid(url: &str) -> (ok: bool)
    ensures
        ok == url_parses(url@),
{
    url::Url::parse(url).is_ok()
}

impl Job {
    /// A job for `url`, once it is known whether the URL parses: the job
    /// where it does, the error that names the URL where it does not.
    pub fn checked(cache: Option<String>, url: String, parses: bool) -> (r: Result<
        Job,
        LookupError,
    >)
        ensures
            match r {
                Ok(job) => parses && job@ == (JobModel {
                    cache: crate::sympath::text_of(cache),
                    url: url@,
                }),
                Err(e) => !parses && e@ == ErrorModel::InvalidUrl(url@),
            },
    {
        if parses {
            Ok(Job { cache, url })
        } else {
            Err(LookupError::InvalidUrl(url))
        }
    }

    /// Whether the job's URL is an absolute URL.
    pub fn has_valid_url(&self) -> (r: bool)
        ensures
            r == url_parses(self@.url),
    {
        url_is_valid(self.url.as_str())
    }

    /// A job for `url`, which must be an absolute URL.
    pub fn new(cache: Option<String>, url: String) -> (r: Result<Job, LookupError>)
        ensures
            match r {
                Ok(job) => url_parses(url@) && job@ == (JobModel {
                    cache: crate::sympath::text_of(cache),
                    url: url@,
                }),
                Err(e) => !url_parses(url@) && e@ == ErrorModel::InvalidUrl(url@),
            },
    {
        let parses = url_is_valid(url.as_str());
        Job::checked(cache, url, parses)
    }
}

/// A copy of an optional string.
pub fn clone_text(s: &Option<String>) -> (r: Option<String>)
    ensures
        crate::sympath::text_of(r) == crate::sympath::text_of(*s),
{
    match s {
        Some(t) => Some(t.clone()),
        None => None,
    }
}

/// The position of the first job whose URL is no absolute URL, or the number
/// of jobs where every URL is one.
pub open spec fn first_unparsed(jobs: Seq<JobModel>) -> int
    decreases jobs.len(),
{
    if jobs.len() == 0 || !url_parses(jobs[0].url) {
        0
    } else {
        1 + first_unparsed(jobs.drop_first())
    }
}

/// `first_unparsed` is the one position before which every URL parses and at
/// which one does not, unless it is the end.
pub proof fn lemma_first_unparsed(jobs: Seq<JobModel>, k: int)
    requires
        0 <= k <= jobs.len(),
        forall|j: int| 0 <= j < k ==> url_parses(#[trigger] jobs[j].url),
        k < jobs.len() ==> !url_parses(jobs[k].url),
    ensures
        first_unparsed(jobs) == k,
    decreases jobs.len(),
{
    if k > 0 {
        let t = jobs.drop_first();
        assert(url_parses(jobs[0].url));
        assert forall|j: int| 0 <= j < k - 1 implies url_parses(#[trigger] t[j].url) by {
            assert(t[j] == jobs[j + 1]);
        }
        lemma_first_unparsed(t, k - 1);
    }
}

/// The jobs of a lookup, or the error that ends it: the requests to the
/// servers where each URL is an absolute URL, else the error that names the
/// first URL that is none.
pub open spec fn planned(servers: Seq<ServerModel>, debug_id: Seq<char>, file_name: Seq<char>) -> Result<
    Seq<JobModel>,
    ErrorModel,
> {
    let wanted = jobs_of(servers, debug_id, file_name);
    let k = first_unparsed(wanted);
    if 0 <= k < wanted.len() {
        Err(ErrorModel::InvalidUrl(wanted[k].url))
    } else {
        Ok(wanted)
    }
}

/// The models of a list of jobs, or of the error in its place.
pub open spec fn plan_model(r: Result<Vec<Job>, LookupError>) -> Result<Seq<JobModel>, ErrorModel> {
    match r {
        Ok(jobs) => Ok(job_models(jobs@)),
        Err(e) => Err(e@),
    }
}

/// The requests that a lookup at `servers` comes to, server by server: for
/// each one the request for the file and, for a `.pdb` file, the request for
/// its compressed form, both with the server's cache entry. Whether the URLs
/// are absolute URLs is not looked at.
pub fn requests_for(servers: &[SymbolServer], debug_id: &str, file_name: &str) -> (jobs: Vec<Job>)
    ensures
        job_models(jobs@) == jobs_of(models(servers@), debug_id@, file_name@),
{
    let ghost ms = models(servers@);
    let variant = compressed_variant(file_name);
    let mut jobs: Vec<Job> = Vec::new();
    let mut i: usize = 0;
    while i < servers.len()
        invariant
            i <= servers.len(),
            ms == models(servers@),
            crate::sympath::text_of(variant) == (if is_pdb(file_name@) {
                Some(compressed_name(file_name@))
            } else {
                None
            }),
            job_models(jobs@) == jobs_of(ms.take(i as int), debug_id@, file_name@),
        decreases servers.len() - i,
    {
        let server = &servers[i];
        let ghost before = job_models(jobs@);
        let ghost added = server_jobs(ms[i as int], debug_id@, file_name@);
        proof {
            let upto = ms.take(i + 1);
            assert(upto.drop_last() =~= ms.take(i as int));
            assert(upto.last() == ms[i as int]);
        }
        let cache = match &server.cache {
            Some(dir) => Some(cache_path(dir.as_str(), debug_id, file_name)),
            None => None,
        };
        let url = request_url(server.server.as_str(), file_name, debug_id, file_name);
        let plain = Job { cache: clone_text(&cache), url };
        proof {
            assert(plain@ == added[0]);
            assert(job_models(jobs@.push(plain)) =~= before.push(added[0]));
        }
        jobs.push(plain);
        match &variant {
            Some(leaf) => {
                let url = request_url(
                    server.server.as_str(),
                    file_name,
                    debug_id,
                    leaf.as_str(),
                );
                let packed = Job { cache, url };
                proof {
                    assert(packed@ == added[1]);
                    assert(job_models(jobs@.push(packed)) =~= before + added);
                }
                jobs.push(packed);
            },
            None => {
                proof {
                    assert(job_models(jobs@) =~= before + added);
                }
            },
        }
        i += 1;
    }
    proof {
        assert(ms.take(servers@.len() as int) =~= ms);
    }
    jobs
}

/// The jobs of a lookup at `servers`: the requests that the servers come to,
/// once every URL is found to be an absolute URL. The first one that is not
/// ends the lookup with the error that names it.
pub fn get_jobs(servers: &[SymbolServer], debug_id: &str, file_name: &str) -> (r: Result<
    Vec<Job>,
    LookupError,
>)
    ensures
        plan_model(r) == planned(models(servers@), debug_id@, file_name@),
{
    let jobs = requests_for(servers, debug_id, file_name);
    let ghost wanted = job_models(jobs@);
    let mut i: usize = 0;
    while i < jobs.len()
        invariant
            i <= jobs.len(),
            wanted == job_models(jobs@),
            wanted == jobs_of(models(servers@), debug_id@, file_name@),
            forall|j: int| 0 <= j < i ==> url_parses(#[trigger] wanted[j].url),
        decreases jobs.len() - i,
    {
        if !jobs[i].has_valid_url() {
            let url = jobs[i].url.clone();
            proof {
                assert(wanted[i as int] == jobs@[i as int]@);
                lemma_first_unparsed(wanted, i as int);
            }
            return Err(LookupError::InvalidUrl(url));
        }
        i += 1;
    }
    proof {
        lemma_first_unparsed(wanted, wanted.len() as int);
    }
    Ok(jobs)
}

/// Goes on with the search of the caches at the server in position `from`:
/// the next server that has a cache, with the path of its cache entry for the
/// file; `None` when no server with a cache is left.
///
/// Started at 0 and taken up again behind each entry that is not on disk, the
/// search comes by every cache entry once, in the servers' order.
pub fn search_in_cache(
    servers: &[SymbolServer],
    debug_id: &str,
    file_name: &str,
    from: usize,
) -> (r: Option<(usize, String)>)
    ensures
        ({
            let ms = models(servers@);
            let at = next_cached(ms, from as int);
            match r {
                Some((position, path)) => {
                    &&& position == at
                    &&& at < ms.len()
                    &&& server_cache_entry(ms[at], debug_id@, file_name@) == Some(path@)
                },
                None => at >= ms.len(),
            }
        }),
{
    let ghost ms = models(servers@);
    let mut i: usize = from;
    while i < servers.len()
        invariant
            ms == models(servers@),
            from <= i,
            next_cached(ms, from as int) == next_cached(ms, i as int),
        decreases servers.len() - i,
    {
        match &servers[i].cache {
            Some(dir) => {
                let path = cache_path(dir.as_str(), debug_id, file_name);
                return Some((i, path));
            },
            None => {},
        }
        i += 1;
    }
    None
}

/// For a `.pdb` file every server gets two requests, one behind the other:
/// the first for the file, the second for its compressed form, and both with
/// the server's cache entry.
pub proof fn lemma_pdb_jobs(servers: Seq<ServerModel>, debug_id: Seq<char>, file_name: Seq<char>)
    requires
        is_pdb(file_name),
    ensures
        jobs_of(servers, debug_id, file_name).len() == 2 * servers.len(),
        forall|i: int|
            #![trigger servers[i]]
            0 <= i < servers.len() ==> {
                let jobs = jobs_of(servers, debug_id, file_name);
                let cache = server_cache_entry(servers[i], debug_id, file_name);
                &&& jobs[2 * i] == (JobModel {
                    cache,
                    url: query_url(servers[i].server, file_name, debug_id, file_name),
                })
                &&& jobs[2 * i + 1] == (JobModel {
                    cache,
                    url: query_url(
                        servers[i].server,
                        file_name,
                        debug_id,
                        compressed_name(file_name),
                    ),
                })
            },
    decreases servers.len(),
{
    if servers.len() > 0 {
        let shorter = servers.drop_last();
        lemma_pdb_jobs(shorter, debug_id, file_name);
        let before = jobs_of(shorter, debug_id, file_name);
        let added = server_jobs(servers.last(), debug_id, file_name);
        let jobs = jobs_of(servers, debug_id, file_name);
        assert(jobs == before + added);
        assert forall|i: int| #![trigger servers[i]] 0 <= i < servers.len() implies ({
            let cache = server_cache_entry(servers[i], debug_id, file_name);
            &&& jobs[2 * i] == (JobModel {
                cache,
                url: query_url(servers[i].server, file_name, debug_id, file_name),
            })
            &&& jobs[2 * i + 1] == (JobModel {
                cache,
                url: query_url(servers[i].server, file_name, debug_id, compressed_name(file_name)),
            })
        }) by {
            if i < shorter.len() {
                assert(shorter[i] == servers[i]);
                assert(jobs[2 * i] == before[2 * i]);
                assert(jobs[2 * i + 1] == before[2 * i + 1]);
            } else {
                assert(jobs[2 * i] == added[0]);
                assert(jobs[2 * i + 1] == added[1]);
            }
        }
    }
}

/// For any other file every server gets one request, for the file, with the
/// server's cache entry.
pub proof fn lemma_plain_jobs(servers: Seq<ServerModel>, debug_id: Seq<char>, file_name: Seq<char>)
    requires
        !is_pdb(file_name),
    ensures
        jobs_of(servers, debug_id, file_name).len() == servers.len(),
        forall|i: int|
            #![trigger servers[i]]
            0 <= i < servers.len() ==> jobs_of(servers, debug_id, file_name)[i] == (JobModel {
                cache: server_cache_entry(servers[i], debug_id, file_name),
                url: query_url(servers[i].server, file_name, debug_id, file_name),
            }),
    decreases servers.len(),
{
    if servers.len() > 0 {
        let shorter = servers.drop_last();
        lemma_plain_jobs(shorter, debug_id, file_name);
        let before = jobs_of(shorter, debug_id, file_name);
        let added = server_jobs(servers.last(), debug_id, file_name);
        let jobs = jobs_of(servers, debug_id, file_name);
        assert(jobs == before + added);
        assert forall|i: int| #![trigger servers[i]] 0 <= i < servers.len() implies jobs[i] == (
        JobModel {
            cache: server_cache_entry(servers[i], debug_id, file_name),
            url: query_url(servers[i].server, file_name, debug_id, file_name),
        }) by {
            if i < shorter.len() {
                assert(shorter[i] == servers[i]);
                assert(jobs[i] == before[i]);
            } else {
                assert(jobs[i] == added[0]);
            }
        }
    }
}

/// Whether `path` is the cache entry of one of the servers.
pub open spec fn is_entry_of(
    path: Seq<char>,
    servers: Seq<ServerModel>,
    debug_id: Seq<char>,
    file_name: Seq<char>,
) -> bool {
    exists|i: int|
        0 <= i < servers.len() && server_cache_entry(#[trigger] servers[i], debug_id, file_name)
            == Some(path)
}

/// A job's cache entry is the cache entry of one of the servers.
pub proof fn lemma_job_cache(
    servers: Seq<ServerModel>,
    debug_id: Seq<char>,
    file_name: Seq<char>,
    j: int,
)
    requires
        0 <= j < jobs_of(servers, debug_id, file_name).len(),
    ensures
        jobs_of(servers, debug_id, file_name)[j].cache matches Some(path) ==> is_entry_of(
            path,
            servers,
            debug_id,
            file_name,
        ),
{
    if is_pdb(file_name) {
        lemma_pdb_jobs(servers, debug_id, file_name);
        let i = j / 2;
        assert(j == 2 * i || j == 2 * i + 1);
        assert(jobs_of(servers, debug_id, file_name)[j].cache == server_cache_entry(
            servers[i],
            debug_id,
            file_name,
        ));
    } else {
        lemma_plain_jobs(servers, debug_id, file_name);
        assert(jobs_of(servers, debug_id, file_name)[j].cache == server_cache_entry(
            servers[j],
            debug_id,
            file_name,
        ));
    }
}

/// The next server with a cache lies at or after `from`, and has a cache.
pub proof fn lemma_next_cached(servers: Seq<ServerModel>, from: int)
    requires
        0 <= from,
    ensures
        next_cached(servers, from) <= servers.len(),
        from <= servers.len() ==> from <= next_cached(servers, from),
        next_cached(servers, from) < servers.len() ==> servers[next_cached(servers, from)].cache
            is Some,
    decreases servers.len() - from,
{
    if from < servers.len() && servers[from].cache is None {
        lemma_next_cached(servers, from + 1);
    }
}

} // verus!

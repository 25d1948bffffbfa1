//! What a lookup comes to when its questions about cache entries are answered
//! from a disk: a map from the paths of the files that exist to their bytes.
use crate::fetch::{disposal, not_found_notice, stems_from, usable, DisposalModel};
use crate::jobs::{is_entry_of, lemma_job_cache, next_cached, server_cache_entry};
use crate::lookup::{EventModel, LookupModel, PhaseModel};
use crate::sympath::ServerModel;
use vstd::prelude::*;

verus! {

/// The position of the first server at or after `from` whose cache entry for
/// the file is on disk, or the number of servers where there is none.
pub open spec fn first_on_disk(
    servers: Seq<ServerModel>,
    debug_id: Seq<char>,
    file_name: Seq<char>,
    disk: Map<Seq<char>, Seq<u8>>,
    from: int,
) -> int
    decreases servers.len() - from,
{
    if from < 0 || from >= servers.len() {
        servers.len() as int
    } else {
        match server_cache_entry(servers[from], debug_id, file_name) {
            Some(path) if disk.contains_key(path) => from,
            _ => first_on_disk(servers, debug_id, file_name, disk, from + 1),
        }
    }
}

/// What the disk answers to a lookup: whether the cache entry exists, or its
/// bytes. `None` where the lookup does not wait for the disk.
pub open spec fn answer(m: LookupModel, disk: Map<Seq<char>, Seq<u8>>) -> Option<EventModel> {
    match m.phase {
        PhaseModel::Probe { path, .. } => Some(EventModel::Probed(disk.contains_key(path))),
        PhaseModel::Load { path } => Some(
            EventModel::Loaded(
                if disk.contains_key(path) {
                    Some(disk[path])
                } else {
                    None
                },
            ),
        ),
        _ => None,
    }
}

/// The lookup after the disk has answered it `steps` times, or as often as it
/// asked.
pub open spec fn search(m: LookupModel, disk: Map<Seq<char>, Seq<u8>>, steps: nat) -> LookupModel
    decreases steps,
{
    if steps == 0 {
        m
    } else {
        match answer(m, disk) {
            Some(event) => search(m.step(event), disk, (steps - 1) as nat),
            None => m,
        }
    }
}

/// Servers without a cache are passed over: the first entry on disk from
/// `from` on is the first one from the next server with a cache on.
pub proof fn lemma_skip_uncached(
    servers: Seq<ServerModel>,
    debug_id: Seq<char>,
    file_name: Seq<char>,
    disk: Map<Seq<char>, Seq<u8>>,
    from: int,
)
    requires
        0 <= from,
    ensures
        from <= next_cached(servers, from) <= servers.len() || from > servers.len(),
        first_on_disk(servers, debug_id, file_name, disk, from) == first_on_disk(
            servers,
            debug_id,
            file_name,
            disk,
            next_cached(servers, from),
        ),
        next_cached(servers, from) < servers.len() ==> servers[next_cached(servers, from)].cache
            is Some,
    decreases servers.len() - from,
{
    if from < servers.len() && servers[from].cache is None {
        lemma_skip_uncached(servers, debug_id, file_name, disk, from + 1);
    }
}

/// The first cache entry on disk, in the servers' order, answers the lookup,
/// whatever else is on disk; where none is on disk the lookup goes on to its
/// requests.
///
/// The lookup is taken from its search of the caches at position `from`, and
/// the disk is given enough turns to answer every question.
pub proof fn lemma_first_on_disk_wins(
    m: LookupModel,
    disk: Map<Seq<char>, Seq<u8>>,
    from: int,
    steps: nat,
)
    requires
        0 <= from,
        steps > m.servers.len() - from,
    ensures
        ({
            let k = first_on_disk(m.servers, m.debug_id, m.file_name, disk, from);
            search(m.probe_from(from), disk, steps) == if k < m.servers.len() {
                m.found(disk[m.entry(k)->Some_0])
            } else {
                m.request()
            }
        }),
    decreases m.servers.len() - from,
{
    lemma_skip_uncached(m.servers, m.debug_id, m.file_name, disk, from);
    let at = next_cached(m.servers, from);
    let asked = m.probe_from(from);
    if 0 <= at < m.servers.len() {
        let path = m.entry(at)->Some_0;
        assert(asked == m.at_phase(PhaseModel::Probe { at, path }));
        if disk.contains_key(path) {
            let loading = asked.step(EventModel::Probed(true));
            assert(loading == m.at_phase(PhaseModel::Load { path }));
            let over = loading.step(EventModel::Loaded(Some(disk[path])));
            assert(over == m.found(disk[path]));
            assert(answer(over, disk) is None);
            assert(search(over, disk, (steps - 2) as nat) == over);
            assert(search(loading, disk, (steps - 1) as nat) == over);
        } else {
            let next = asked.step(EventModel::Probed(false));
            assert(next == asked.probe_from(at + 1));
            assert(asked.probe_from(at + 1) == m.probe_from(at + 1));
            lemma_first_on_disk_wins(m, disk, at + 1, (steps - 1) as nat);
        }
    } else {
        assert(asked == m.request());
        assert(answer(asked, disk) is None);
    }
}

/// A response that a lookup wants written is read back by the next lookup
/// for the same file at the same servers.
///
/// `writer` waits for a cache entry to be written. Once that entry is on
/// disk, a lookup `reader` for the same file, the same debug identifier and
/// the same servers is answered from the caches and never comes to its
/// requests: it ends with the bytes of the first cache entry on disk. Where
/// that is the entry just written, and the disk holds what was written, these
/// are the very bytes that `writer` kept.
pub proof fn lemma_written_entry_is_read_back(
    writer: LookupModel,
    reader: LookupModel,
    disk: Map<Seq<char>, Seq<u8>>,
    steps: nat,
)
    requires
        writer.wf(),
        writer.phase is Store,
        reader.servers == writer.servers,
        reader.debug_id == writer.debug_id,
        reader.file_name == writer.file_name,
        disk.contains_key(writer.pending_path()),
        steps > reader.servers.len(),
    ensures
        ({
            let k = first_on_disk(reader.servers, reader.debug_id, reader.file_name, disk, 0);
            &&& 0 <= k < reader.servers.len()
            &&& reader.entry(k) is Some
            &&& disk.contains_key(reader.entry(k)->Some_0)
            &&& search(reader.probe_from(0), disk, steps) == reader.found(
                disk[reader.entry(k)->Some_0],
            )
            &&& reader.entry(k) == Some(writer.pending_path()) && disk[writer.pending_path()]
                == writer.pending_data() ==> search(reader.probe_from(0), disk, steps)
                == reader.found(writer.pending_data())
        }),
{
    let path = writer.pending_path();
    let found = writer.phase->Store_found;
    let next = writer.phase->Store_next;
    assert(stems_from(found[next], writer.wanted()));
    lemma_job_cache(writer.servers, writer.debug_id, writer.file_name, found[next].job as int);
    assert(is_entry_of(path, reader.servers, reader.debug_id, reader.file_name));
    let i = choose|i: int|
        0 <= i < reader.servers.len() && server_cache_entry(
            #[trigger] reader.servers[i],
            reader.debug_id,
            reader.file_name,
        ) == Some(path);
    lemma_on_disk_found(reader.servers, reader.debug_id, reader.file_name, disk, 0, i);
    lemma_first_on_disk_wins(reader, disk, 0, steps);
}

/// Where the cache entry of a server at or after `from` is on disk, the first
/// entry on disk from `from` on is found, at that server or before it.
pub proof fn lemma_on_disk_found(
    servers: Seq<ServerModel>,
    debug_id: Seq<char>,
    file_name: Seq<char>,
    disk: Map<Seq<char>, Seq<u8>>,
    from: int,
    i: int,
)
    requires
        0 <= from <= i < servers.len(),
        server_cache_entry(servers[i], debug_id, file_name) matches Some(path)
            && disk.contains_key(path),
    ensures
        ({
            let k = first_on_disk(servers, debug_id, file_name, disk, from);
            &&& from <= k <= i
            &&& server_cache_entry(servers[k], debug_id, file_name) matches Some(path)
                && disk.contains_key(path)
        }),
    decreases i - from,
{
    if from < i {
        match server_cache_entry(servers[from], debug_id, file_name) {
            Some(path) if disk.contains_key(path) => {},
            _ => {
                lemma_on_disk_found(servers, debug_id, file_name, disk, from + 1, i);
            },
        }
    }
}

/// A response that begins with the notice that nothing was found is dropped,
/// whatever cache its job has: it is neither written nor kept.
pub proof fn lemma_notice_is_discarded(path: Option<Seq<char>>, data: Seq<u8>)
    requires
        not_found_notice().is_prefix_of(data),
    ensures
        !usable(data),
        disposal(path, data) == DisposalModel::Discard,
{
}

} // verus!

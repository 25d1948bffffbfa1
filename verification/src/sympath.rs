//! The symbol path: a list of `srv*cache*url` entries, separated by `;` or by
//! line breaks, that names the symbol servers to ask and where to keep what
//! they answer.
use crate::text::{chars_of, pieces, split, split_spans, trim, trim_span, Span};
use vstd::prelude::*;

verus! {

/// The server that an entry without a URL stands for.
pub const DEFAULT_STORE: &'static str = "https://msdl.microsoft.com/download/symbols";

/// One symbol server: its URL and, where it has one, the directory that caches
/// its files.
#[derive(Debug, PartialEq, Eq)]
pub struct SymbolServer {
    pub cache: Option<String>,
    pub server: String,
}

/// What a [`SymbolServer`] holds, as sequences of characters.
pub struct ServerModel {
    pub cache: Option<Seq<char>>,
    pub server: Seq<char>,
}

impl View for SymbolServer {
    type V = ServerModel;

    open spec fn view(&self) -> ServerModel {
        ServerModel { cache: text_of(self.cache), server: self.server@ }
    }
}

/// The characters of an optional string.
pub open spec fn text_of(s: Option<String>) -> Option<Seq<char>> {
    match s {
        Some(t) => Some(t@),
        None => None,
    }
}

/// The characters of an optional string slice.
pub open spec fn slice_text_of(s: Option<&str>) -> Option<Seq<char>> {
    match s {
        Some(t) => Some(t@),
        None => None,
    }
}

/// The models of a list of servers, in order.
pub open spec fn models(servers: Seq<SymbolServer>) -> Seq<ServerModel> {
    Seq::new(servers.len(), |i: int| servers[i]@)
}

/// `path` with a leading `~` replaced by the home directory, where there is
/// one; unchanged otherwise.
pub open spec fn expand_home(path: Seq<char>, home: Option<Seq<char>>) -> Seq<char> {
    match home {
        Some(h) if path.len() > 0 && path[0] == '~' => h + path.skip(1),
        _ => path,
    }
}

/// Whether `p` is the word `srv`, in any mix of upper and lower case.
pub open spec fn is_srv_token(p: Seq<char>) -> bool {
    &&& p.len() == 3
    &&& (p[0] == 's' || p[0] == 'S')
    &&& (p[1] == 'r' || p[1] == 'R')
    &&& (p[2] == 'v' || p[2] == 'V')
}

/// The parts of an entry: what stands between its `*`, each part trimmed.
pub open spec fn srv_parts(entry: Seq<char>) -> Seq<Seq<char>> {
    let raw = split(entry, seq!['*']);
    Seq::new(raw.len(), |i: int| trim(raw[i]))
}

/// The server that one entry of a symbol path describes, if it describes one.
pub open spec fn parse_srv_spec(entry: Seq<char>, home: Option<Seq<char>>) -> Option<ServerModel> {
    let parts = srv_parts(entry);
    if !is_srv_token(parts[0]) {
        None
    } else if parts.len() == 1 {
        Some(ServerModel { cache: None, server: DEFAULT_STORE@ })
    } else if parts.len() == 2 {
        Some(ServerModel { cache: None, server: parts[1] })
    } else if parts.len() == 3 {
        Some(ServerModel { cache: Some(expand_home(parts[1], home)), server: parts[2] })
    } else {
        None
    }
}

/// The servers that a list of entries describes: those of the entries that
/// describe one, in the entries' order.
pub open spec fn servers_of(entries: Seq<Seq<char>>, home: Option<Seq<char>>) -> Seq<ServerModel>
    decreases entries.len(),
{
    if entries.len() == 0 {
        Seq::empty()
    } else {
        let before = servers_of(entries.drop_last(), home);
        match parse_srv_spec(entries.last(), home) {
            Some(server) => before.push(server),
            None => before,
        }
    }
}

/// The servers that a symbol path describes.
pub open spec fn parse_sympath_spec(path: Seq<char>, home: Option<Seq<char>>) -> Seq<ServerModel> {
    servers_of(split(path, seq![';', '\n']), home)
}

/// A split always yields a field.
pub proof fn lemma_split_nonempty(s: Seq<char>, seps: Seq<char>)
    ensures
        split(s, seps).len() >= 1,
{
}

/// Replaces a leading `~` of `path` by `home`. Without a home directory, or
/// without a leading `~`, the path is returned as it is.
pub fn correct_path(path: &str, home: Option<&str>) -> (r: String)
    ensures
        r@ == expand_home(path@, slice_text_of(home)),
{
    match home {
        Some(h) => {
            let n = path.unicode_len();
            if n > 0 && path.get_char(0) == '~' {
                let rest = path.substring_char(1, n);
                proof {
                    assert(path@.subrange(1, n as int) =~= path@.skip(1));
                }
                String::from_str(h).concat(rest)
            } else {
                String::from_str(path)
            }
        },
        None => String::from_str(path),
    }
}

/// Whether the characters of `span` are the word `srv`, in any mix of case.
fn is_srv(v: &Vec<char>, span: Span) -> (r: bool)
    requires
        span.within(v@.len()),
    ensures
        r == is_srv_token(span.of(v@)),
{
    if span.end - span.start != 3 {
        return false;
    }
    let a = v[span.start];
    let b = v[span.start + 1];
    let c = v[span.start + 2];
    proof {
        let p = span.of(v@);
        assert(p[0] == a && p[1] == b && p[2] == c);
    }
    (a == 's' || a == 'S') && (b == 'r' || b == 'R') && (c == 'v' || c == 'V')
}

/// The trimmed text of one field of `s`.
fn field_text(s: &str, v: &Vec<char>, field: Span) -> (r: String)
    requires
        v@ == s@,
        field.within(v@.len()),
    ensures
        r@ == trim(field.of(v@)),
{
    let t = trim_span(v, field);
    String::from_str(s.substring_char(t.start, t.end))
}

/// Reads the entry that `span` covers in `s`, whose characters are `v`.
fn parse_srv_span(s: &str, v: &Vec<char>, span: Span, home: Option<&str>) -> (r: Option<
    SymbolServer,
>)
    requires
        v@ == s@,
        span.within(v@.len()),
    ensures
        servers_match(r, parse_srv_spec(span.of(v@), slice_text_of(home))),
{
    let seps: Vec<char> = vec!['*'];
    let fields = split_spans(v, span, &seps);
    proof {
        lemma_split_nonempty(span.of(v@), seps@);
        assert(seps@ =~= seq!['*']);
        let raw = split(span.of(v@), seq!['*']);
        assert(raw == pieces(fields@, v@));
        assert forall|i: int| 0 <= i < fields@.len() implies srv_parts(span.of(v@))[i] == trim(
            (#[trigger] fields@[i]).of(v@),
        ) by {
            assert(raw[i] == fields@[i].of(v@));
        }
    }
    let n = fields.len();
    let token = trim_span(v, fields[0]);
    if !is_srv(v, token) {
        return None;
    }
    if n == 1 {
        Some(SymbolServer { cache: None, server: String::from_str(DEFAULT_STORE) })
    } else if n == 2 {
        Some(SymbolServer { cache: None, server: field_text(s, v, fields[1]) })
    } else if n == 3 {
        let dir = field_text(s, v, fields[1]);
        let cache = correct_path(dir.as_str(), home);
        Some(SymbolServer { cache: Some(cache), server: field_text(s, v, fields[2]) })
    } else {
        None
    }
}

/// A parsed entry and its model agree.
pub open spec fn servers_match(r: Option<SymbolServer>, m: Option<ServerModel>) -> bool {
    match r {
        Some(server) => m == Some(server@),
        None => m is None,
    }
}

/// Reads one entry of a symbol path.
///
/// The entry is cut at each `*` and each part is trimmed. The first part must
/// be `srv`, in any mix of case. Alone it stands for [`DEFAULT_STORE`]; with
/// one more part, for the server with that URL; with two more, for the server
/// of the last part with the cache directory of the middle one, in which a
/// leading `~` is replaced by `home`. Any other entry describes no server.
pub fn parse_srv(path: &str, home: Option<&str>) -> (r: Option<SymbolServer>)
    ensures
        servers_match(r, parse_srv_spec(path@, slice_text_of(home))),
{
    let v = chars_of(path);
    let span = Span { start: 0, end: v.len() };
    proof {
        assert(span.of(v@) =~= path@);
    }
    parse_srv_span(path, &v, span, home)
}

/// Reads a symbol path: its entries stand between `;` or line breaks, and
/// those that describe no server are passed over.
pub fn parse_sympath(path: &str, home: Option<&str>) -> (r: Vec<SymbolServer>)
    ensures
        models(r@) == parse_sympath_spec(path@, slice_text_of(home)),
{
    let v = chars_of(path);
    let seps: Vec<char> = vec![';', '\n'];
    let whole = Span { start: 0, end: v.len() };
    let entries = split_spans(&v, whole, &seps);
    let ghost texts = pieces(entries@, v@);
    let ghost h = slice_text_of(home);
    proof {
        assert(seps@ =~= seq![';', '\n']);
        assert(whole.of(v@) =~= path@);
        assert(texts == split(path@, seq![';', '\n']));
    }
    let mut servers: Vec<SymbolServer> = Vec::new();
    let mut i: usize = 0;
    while i < entries.len()
        invariant
            v@ == path@,
            i <= entries.len(),
            texts == pieces(entries@, v@),
            h == slice_text_of(home),
            forall|j: int| 0 <= j < entries@.len() ==> (#[trigger] entries@[j]).within(v@.len()),
            models(servers@) == servers_of(texts.take(i as int), h),
        decreases entries.len() - i,
    {
        let parsed = parse_srv_span(path, &v, entries[i], home);
        proof {
            let upto = texts.take(i + 1);
            assert(upto.drop_last() =~= texts.take(i as int));
            assert(upto.last() == entries@[i as int].of(v@));
        }
        match parsed {
            Some(server) => {
                proof {
                    assert(models(servers@.push(server)) =~= models(servers@).push(server@));
                }
                servers.push(server);
            },
            None => {},
        }
        i += 1;
    }
    proof {
        assert(texts.take(entries@.len() as int) =~= texts);
    }
    servers
}

/// Reads a symbol path and tells a path without any server apart from one
/// with servers: the first gives `None`.
pub fn read_config_from_str(s: &str, home: Option<&str>) -> (r: Option<Vec<SymbolServer>>)
    ensures
        configured(r) == read_config_spec(s@, slice_text_of(home)),
{
    let servers = parse_sympath(s, home);
    if servers.len() == 0 {
        None
    } else {
        Some(servers)
    }
}

/// The models of the servers of a configuration, if there is one.
pub open spec fn configured(r: Option<Vec<SymbolServer>>) -> Option<Seq<ServerModel>> {
    match r {
        Some(servers) => Some(models(servers@)),
        None => None,
    }
}

/// The servers that a configuration text names, or `None` where it names none.
pub open spec fn read_config_spec(text: Seq<char>, home: Option<Seq<char>>) -> Option<
    Seq<ServerModel>,
> {
    let servers = parse_sympath_spec(text, home);
    if servers.len() == 0 {
        None
    } else {
        Some(servers)
    }
}

} // verus!

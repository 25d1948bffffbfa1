use symbol_lookup::sympath::{
    correct_path, parse_srv, parse_sympath, read_config_from_str, SymbolServer, DEFAULT_STORE,
};
use symbol_lookup::text::{
    chars_of, find_sep, is_one_of, is_white_space, split_spans, trim_span, Span,
};

fn server(cache: Option<&str>, url: &str) -> SymbolServer {
    SymbolServer { cache: cache.map(|c| c.to_string()), server: url.to_string() }
}

#[test]
fn parse_srv_with_url_only() {
    assert_eq!(parse_srv("srv*https://a", None), Some(server(None, "https://a")));
}

#[test]
fn parse_sympath_single_server() {
    assert_eq!(parse_sympath("srv*https://a", None), vec![server(None, "https://a")]);
}

#[test]
fn parse_srv_expands_home() {
    assert_eq!(
        parse_srv("srv*~/c*https://a", Some("/home/alice")),
        Some(server(Some("/home/alice/c"), "https://a"))
    );
}

#[test]
fn parse_srv_without_home_keeps_tilde() {
    assert_eq!(
        parse_srv("srv*~/c*https://a", None),
        Some(server(Some("~/c"), "https://a"))
    );
}

#[test]
fn parse_srv_cache_without_tilde_is_kept() {
    assert_eq!(
        parse_srv("srv*/tmp/cache*https://example/sym", Some("/home/alice")),
        Some(server(Some("/tmp/cache"), "https://example/sym"))
    );
}

#[test]
fn parse_sympath_of_foo_is_empty() {
    assert_eq!(parse_sympath("foo", Some("/home/alice")), Vec::<SymbolServer>::new());
    assert_eq!(parse_srv("foo", None), None);
}

#[test]
fn empty_text_is_no_configuration() {
    assert_eq!(read_config_from_str("", None), None);
    assert_eq!(read_config_from_str("foo;bar\n", Some("/h")), None);
}

#[test]
fn configuration_with_a_server() {
    assert_eq!(
        read_config_from_str("srv*https://a", None),
        Some(vec![server(None, "https://a")])
    );
}

#[test]
fn srv_alone_is_the_default_store() {
    assert_eq!(
        parse_srv("srv", None),
        Some(server(None, "https://msdl.microsoft.com/download/symbols"))
    );
    assert_eq!(DEFAULT_STORE, "https://msdl.microsoft.com/download/symbols");
}

#[test]
fn srv_token_in_any_case() {
    assert_eq!(parse_srv("SRV*https://a", None), Some(server(None, "https://a")));
    assert_eq!(parse_srv("sRv*https://a", None), Some(server(None, "https://a")));
    assert_eq!(parse_srv("srvx*https://a", None), None);
    assert_eq!(parse_srv("sr*https://a", None), None);
    assert_eq!(parse_srv("*srv*https://a", None), None);
}

#[test]
fn parts_are_trimmed() {
    assert_eq!(
        parse_srv("  srv * /c\t*  https://a \u{3000}", None),
        Some(server(Some("/c"), "https://a"))
    );
    assert_eq!(parse_srv("srv*  ", None), Some(server(None, "")));
}

#[test]
fn four_parts_are_no_entry() {
    assert_eq!(parse_srv("srv*a*b*c", None), None);
    assert_eq!(parse_sympath("srv*a*b*c;srv*https://b", None), vec![server(None, "https://b")]);
}

#[test]
fn entries_keep_their_order() {
    let text = "srv*/c1*https://one;junk;\nSRV*https://two\nsrv*~*https://three;";
    assert_eq!(
        parse_sympath(text, Some("/root")),
        vec![
            server(Some("/c1"), "https://one"),
            server(None, "https://two"),
            server(Some("/root"), "https://three"),
        ]
    );
}

#[test]
fn correct_path_cases() {
    assert_eq!(correct_path("~/x", Some("/home/bob")), "/home/bob/x");
    assert_eq!(correct_path("~", Some("/home/bob")), "/home/bob");
    assert_eq!(correct_path("~~", Some("/h")), "/h~");
    assert_eq!(correct_path("/a/~/x", Some("/home/bob")), "/a/~/x");
    assert_eq!(correct_path("", Some("/home/bob")), "");
    assert_eq!(correct_path("~/x", None), "~/x");
    assert_eq!(correct_path("~/\u{e9}", Some("/h\u{e9}")), "/h\u{e9}/\u{e9}");
}

#[test]
fn white_space_is_what_unicode_says() {
    for c in ['\t', '\n', '\u{b}', '\u{c}', '\r', ' ', '\u{85}', '\u{a0}', '\u{1680}', '\u{2000}',
        '\u{200a}', '\u{2028}', '\u{2029}', '\u{202f}', '\u{205f}', '\u{3000}']
    {
        assert!(is_white_space(c));
        assert!(c.is_whitespace());
    }
    for c in ['a', '*', '\u{8}', '\u{e}', '\u{200b}', '\u{feff}', '\u{180e}', '0'] {
        assert!(!is_white_space(c));
        assert!(!c.is_whitespace());
    }
}

#[test]
fn white_space_agrees_with_std_everywhere() {
    let mut n: u32 = 0;
    while n <= 0x10FFFF {
        if let Some(c) = char::from_u32(n) {
            assert_eq!(is_white_space(c), c.is_whitespace());
        }
        n += 1;
    }
}

#[test]
fn chars_of_gives_every_character() {
    assert_eq!(chars_of("a\u{e9}*"), vec!['a', '\u{e9}', '*']);
    assert_eq!(chars_of(""), Vec::<char>::new());
}

#[test]
fn fields_between_separators() {
    let v = chars_of("a;b\n;c");
    let whole = Span { start: 0, end: v.len() };
    let seps = vec![';', '\n'];
    assert_eq!(
        split_spans(&v, whole, &seps),
        vec![
            Span { start: 0, end: 1 },
            Span { start: 2, end: 3 },
            Span { start: 4, end: 4 },
            Span { start: 5, end: 6 },
        ]
    );
    let empty: Vec<char> = Vec::new();
    assert_eq!(
        split_spans(&empty, Span { start: 0, end: 0 }, &seps),
        vec![Span { start: 0, end: 0 }]
    );
    assert_eq!(find_sep(&v, whole, &seps), 1);
    assert_eq!(find_sep(&v, Span { start: 5, end: 6 }, &seps), 6);
    assert!(is_one_of(';', &seps));
    assert!(!is_one_of('a', &seps));
}

#[test]
fn trimming_a_span() {
    let v = chars_of("  ab c \t");
    assert_eq!(trim_span(&v, Span { start: 0, end: v.len() }), Span { start: 2, end: 6 });
    let blank = chars_of("   ");
    assert_eq!(trim_span(&blank, Span { start: 0, end: 3 }), Span { start: 3, end: 3 });
    assert_eq!(trim_span(&v, Span { start: 2, end: 4 }), Span { start: 2, end: 4 });
}

#[test]
fn split_like_std() {
    for text in ["", "*", "a*b", "**", "srv*a*b*c*", " x ; y\nz"] {
        let v = chars_of(text);
        let seps = vec!['*', ';'];
        let spans = split_spans(&v, Span { start: 0, end: v.len() }, &seps);
        let got: Vec<String> = spans.iter().map(|s| v[s.start..s.end].iter().collect()).collect();
        let want: Vec<String> =
            text.split(|c| c == '*' || c == ';').map(|p| p.to_string()).collect();
        assert_eq!(got, want);
        let trimmed: Vec<String> = spans
            .iter()
            .map(|s| {
                let t = trim_span(&v, *s);
                v[t.start..t.end].iter().collect()
            })
            .collect();
        let want_trimmed: Vec<String> =
            text.split(|c| c == '*' || c == ';').map(|p| p.trim().to_string()).collect();
        assert_eq!(trimmed, want_trimmed);
    }
}

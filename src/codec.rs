//! The path codec: where a remote module's text is kept under the deps
//! directory, and which URL a path under that directory stands for.
use vstd::prelude::*;
use crate::text::{
    decimal, ends_with_char, first_occurrence_from, has_prefix, occurs_at, push_char, push_decimal,
    replace_first,
    replace_first_occurrence, starts_with,
};
use crate::url_parts::{seq_views, UrlParts};

verus! {

/// The text that stands for `:` before a port in a path.
pub open spec fn port_marker() -> Seq<char> {
    seq!['_', 'P', 'O', 'R', 'T']
}

/// The scheme that decoded paths are given.
pub open spec fn http_prefix() -> Seq<char> {
    seq!['h', 't', 't', 'p', ':', '/', '/']
}

/// A specifier names a remote module when it begins with `http`.
pub open spec fn is_remote_spec(s: Seq<char>) -> bool {
    starts_with(s, seq!['h', 't', 't', 'p'])
}

/// Appending one path component: an absolute component replaces the path,
/// and a separator is put between the two unless the path already ends in one.
pub open spec fn path_join(a: Seq<char>, b: Seq<char>) -> Seq<char> {
    if b.len() > 0 && b[0] == '/' {
        b
    } else if a.len() == 0 {
        b
    } else if a.last() == '/' {
        a + b
    } else {
        a + seq!['/'] + b
    }
}

/// Appending each component of `segs` in turn.
pub open spec fn join_all(p: Seq<char>, segs: Seq<Seq<char>>) -> Seq<char>
    decreases segs.len(),
{
    if segs.len() == 0 {
        p
    } else {
        path_join(join_all(p, segs.drop_last()), segs.last())
    }
}

/// The first directory under the deps directory: the host, with the port
/// after the marker when there is one.
pub open spec fn host_component(host: Seq<char>, port: Option<u16>) -> Seq<char> {
    match port {
        Some(p) => host + port_marker() + decimal(p as nat),
        None => host,
    }
}

/// Where the text of the URL with these parts is kept under `base`.
pub open spec fn cache_filename(
    base: Seq<char>,
    host: Seq<char>,
    port: Option<u16>,
    segs: Seq<Seq<char>>,
) -> Seq<char> {
    join_all(path_join(base, host_component(host, port)), segs)
}

/// What follows the deps directory in `f`, when `f` lies under it.
pub open spec fn deps_rest(deps: Seq<char>, f: Seq<char>) -> Option<Seq<char>> {
    if f == deps {
        Some(Seq::empty())
    } else if starts_with(f, deps.push('/')) {
        Some(f.subrange(deps.len() as int + 1, f.len() as int))
    } else {
        None
    }
}

/// The URL that a path under the deps directory stands for; any other path
/// stands for itself.
pub open spec fn decode_path(deps: Seq<char>, f: Seq<char>) -> Seq<char> {
    match deps_rest(deps, f) {
        Some(rest) => http_prefix() + replace_first(rest, port_marker(), seq![':']),
        None => f,
    }
}

/// Whether `s` names a remote module.
pub fn is_remote(s: &str) -> (r: bool)
    ensures
        r == is_remote_spec(s@),
{
    proof {
        reveal_strlit("http");
    }
    assert("http"@ =~= seq!['h', 't', 't', 'p']);
    has_prefix(s, "http")
}

/// Appends the component `b` to the path `a`.
pub fn join_path(a: &str, b: &str) -> (r: String)
    ensures
        r@ == path_join(a@, b@),
{
    if b.unicode_len() > 0 && b.get_char(0) == '/' {
        String::from_str(b)
    } else if a.unicode_len() == 0 {
        String::from_str(b)
    } else if ends_with_char(a, '/') {
        let mut out = String::from_str(a);
        out.append(b);
        out
    } else {
        let mut out = String::from_str(a);
        push_char(&mut out, '/');
        out.append(b);
        out
    }
}

/// The path under `basedir` that holds the text of `url`; `None` when the
/// URL has no host or no path segments to lay out.
pub fn get_cache_filename(basedir: &str, url: &UrlParts) -> (r: Option<String>)
    ensures
        match (url.host, url.segments) {
            (Some(h), Some(segs)) => r is Some && r->0@ == cache_filename(
                basedir@,
                h@,
                url.port,
                seq_views(segs@),
            ),
            _ => r is None,
        },
{
    let host = match &url.host {
        Some(h) => h,
        None => return None,
    };
    let segs = match &url.segments {
        Some(s) => s,
        None => return None,
    };
    let mut host_port = String::from_str(host.as_str());
    match url.port {
        Some(p) => {
            proof {
                reveal_strlit("_PORT");
            }
            assert("_PORT"@ =~= port_marker());
            host_port.append("_PORT");
            push_decimal(&mut host_port, p);
        },
        None => {},
    }
    let mut out = join_path(basedir, host_port.as_str());
    let ghost start = out@;
    let mut i: usize = 0;
    while i < segs.len()
        invariant
            i <= segs@.len(),
            start == path_join(basedir@, host_component(host@, url.port)),
            out@ == join_all(start, seq_views(segs@).subrange(0, i as int)),
        decreases segs.len() - i,
    {
        let next = join_path(out.as_str(), segs[i].as_str());
        proof {
            let v = seq_views(segs@);
            assert(v.subrange(0, i + 1).drop_last() =~= v.subrange(0, i as int));
        }
        out = next;
        i = i + 1;
    }
    assert(seq_views(segs@).subrange(0, segs@.len() as int) =~= seq_views(segs@));
    Some(out)
}

/// The URL that `filename` stands for when it lies under `deps`; any other
/// path is returned as it is.
pub fn decode_file_url(deps: &str, filename: &str) -> (r: String)
    ensures
        r@ == decode_path(deps@, filename@),
{
    let n = filename.unicode_len();
    let d = deps.unicode_len();
    let mut prefix = String::from_str(deps);
    push_char(&mut prefix, '/');
    let rest = if n == d && has_prefix(filename, deps) {
        assert(filename@ =~= deps@);
        filename.substring_char(n, n)
    } else if has_prefix(filename, prefix.as_str()) {
        proof {
            if filename@ == deps@ {
                assert(false);
            }
        }
        filename.substring_char(d + 1, n)
    } else {
        proof {
            if filename@ == deps@ {
                assert(filename@.subrange(0, d as int) =~= deps@);
            }
        }
        return String::from_str(filename);
    };
    proof {
        reveal_strlit("_PORT");
        reveal_strlit(":");
        reveal_strlit("http://");
    }
    assert("_PORT"@ =~= port_marker());
    assert(":"@ =~= seq![':']);
    assert("http://"@ =~= http_prefix());
    let decoded = replace_first_occurrence(rest, "_PORT", ":");
    let mut out = String::from_str("http://");
    out.append(decoded.as_str());
    out
}

/// The path segments joined by `/`.
pub open spec fn slash_joined(segs: Seq<Seq<char>>) -> Seq<char>
    decreases segs.len(),
{
    if segs.len() == 0 {
        Seq::empty()
    } else if segs.len() == 1 {
        segs[0]
    } else {
        slash_joined(segs.drop_last()) + seq!['/'] + segs.last()
    }
}

/// The `http` URL with these parts, as decoding gives it.
pub open spec fn canonical_url(host: Seq<char>, port: Option<u16>, segs: Seq<Seq<char>>) -> Seq<
    char,
> {
    let port_part = match port {
        Some(p) => seq![':'] + decimal(p as nat),
        None => Seq::empty(),
    };
    http_prefix() + host + port_part + seq!['/'] + slash_joined(segs)
}

/// The port marker does not occur in `s`.
pub open spec fn free_of_marker(s: Seq<char>) -> bool {
    forall|i: int| !#[trigger] occurs_at(s, port_marker(), i)
}

/// A path component that the round trip keeps: not empty, without a separator
/// and without the port marker.
pub open spec fn plain_component(s: Seq<char>) -> bool {
    s.len() > 0 && !s.contains('/') && free_of_marker(s)
}

proof fn lemma_free_concat(a: Seq<char>, b: Seq<char>)
    requires
        free_of_marker(a),
        free_of_marker(b),
    ensures
        free_of_marker(a + seq!['/'] + b),
{
    let s = a + seq!['/'] + b;
    let pat = port_marker();
    assert forall|i: int| !#[trigger] occurs_at(s, pat, i) by {
        if occurs_at(s, pat, i) {
            let w = s.subrange(i, i + 5);
            if i + 5 <= a.len() {
                assert(a.subrange(i, i + 5) =~= w);
                assert(occurs_at(a, pat, i));
            } else if i >= a.len() + 1 {
                let j = i - a.len() - 1;
                assert(b.subrange(j, j + 5) =~= w);
                assert(occurs_at(b, pat, j));
            } else {
                let k = a.len() - i;
                assert(s[a.len() as int] == '/');
                assert(w[k] == s[a.len() as int]);
                assert(pat[k] == w[k]);
            }
        }
    }
}

proof fn lemma_slash_joined_facts(segs: Seq<Seq<char>>)
    requires
        segs.len() >= 1,
        forall|i: int| 0 <= i < segs.len() ==> plain_component(#[trigger] segs[i]),
    ensures
        slash_joined(segs).len() > 0,
        slash_joined(segs).last() == segs.last().last(),
        free_of_marker(slash_joined(segs)),
    decreases segs.len(),
{
    assert(plain_component(segs[segs.len() - 1]));
    if segs.len() > 1 {
        let d = segs.drop_last();
        assert forall|i: int| 0 <= i < d.len() implies plain_component(#[trigger] d[i]) by {
            assert(d[i] == segs[i]);
        }
        lemma_slash_joined_facts(d);
        lemma_free_concat(slash_joined(d), segs.last());
    } else {
        assert(plain_component(segs[0]));
    }
}

proof fn lemma_join_all_plain(x: Seq<char>, segs: Seq<Seq<char>>)
    requires
        x.len() > 0,
        x.last() != '/',
        segs.len() >= 1,
        forall|i: int| 0 <= i < segs.len() ==> plain_component(#[trigger] segs[i]),
    ensures
        join_all(x, segs) == x + seq!['/'] + slash_joined(segs),
    decreases segs.len(),
{
    assert(plain_component(segs[segs.len() - 1]));
    let last = segs.last();
    assert(last[0] != '/') by {
        assert(last.contains(last[0]) ==> last[0] != '/');
    }
    if segs.len() == 1 {
        assert(segs.drop_last() =~= Seq::<Seq<char>>::empty());
        assert(join_all(x, segs.drop_last()) == x);
        assert(segs[0] == last);
        assert(slash_joined(segs) == last);
        assert(path_join(x, last) == x + seq!['/'] + last);
    } else {
        let d = segs.drop_last();
        assert forall|i: int| 0 <= i < d.len() implies plain_component(#[trigger] d[i]) by {
            assert(d[i] == segs[i]);
        }
        lemma_join_all_plain(x, d);
        lemma_slash_joined_facts(d);
        let prev = x + seq!['/'] + slash_joined(d);
        assert(prev.last() == slash_joined(d).last());
        let dl = d.last();
        assert(d[d.len() - 1] == dl);
        assert(plain_component(dl));
        assert(dl.last() != '/') by {
            assert(dl.contains(dl[dl.len() - 1]));
        }
        assert(prev.len() > 0);
        assert(path_join(prev, last) == prev + seq!['/'] + last);
        assert(slash_joined(segs) == slash_joined(d) + seq!['/'] + last);
        assert(prev + seq!['/'] + last =~= x + seq!['/'] + (slash_joined(d) + seq!['/'] + last));
    }
}

proof fn lemma_no_occurrence(s: Seq<char>, i: int)
    requires
        free_of_marker(s),
    ensures
        first_occurrence_from(s, port_marker(), i) is None,
    decreases s.len() + 1 - i,
{
    assert(!occurs_at(s, port_marker(), i));
    if 0 <= i && i + 5 <= s.len() {
        lemma_no_occurrence(s, i + 1);
    }
}

proof fn lemma_first_occurrence(s: Seq<char>, i: int, k: int)
    requires
        0 <= i <= k,
        occurs_at(s, port_marker(), k),
        forall|j: int| i <= j < k ==> !#[trigger] occurs_at(s, port_marker(), j),
    ensures
        first_occurrence_from(s, port_marker(), i) == Some(k),
    decreases k - i,
{
    if i < k {
        assert(!occurs_at(s, port_marker(), i));
        lemma_first_occurrence(s, i + 1, k);
    }
}

/// Decoding the cache path of a URL gives the URL back, with the `http`
/// scheme, when the host and the path segments are plain components (neither
/// holds the port marker) and the deps directory does not end in a separator.
pub proof fn lemma_decode_encode(
    deps: Seq<char>,
    host: Seq<char>,
    port: Option<u16>,
    segs: Seq<Seq<char>>,
)
    requires
        deps.len() > 0,
        deps.last() != '/',
        plain_component(host),
        segs.len() >= 1,
        forall|i: int| 0 <= i < segs.len() ==> plain_component(#[trigger] segs[i]),
    ensures
        decode_path(deps, cache_filename(deps, host, port, segs)) == canonical_url(host, port, segs),
{
    let pat = port_marker();
    let hc = host_component(host, port);
    assert(host[0] != '/') by {
        assert(host.contains(host[0]));
    }
    assert(hc.len() > 0 && hc[0] == host[0]);
    let x = deps + seq!['/'] + hc;
    assert(path_join(deps, hc) == x);
    let last_digit_or_host = x.last();
    assert(x.last() != '/') by {
        match port {
            Some(p) => {
                let dd = decimal(p as nat);
                lemma_decimal_digits(p as nat);
                assert(x.last() == dd.last());
            },
            None => {
                assert(x.last() == host.last());
                assert(host.contains(host[host.len() - 1]));
            },
        }
    }
    lemma_join_all_plain(x, segs);
    lemma_slash_joined_facts(segs);
    let sj = slash_joined(segs);
    let f = cache_filename(deps, host, port, segs);
    assert(f == x + seq!['/'] + sj);
    let rest = hc + seq!['/'] + sj;
    assert(f =~= deps.push('/') + rest);
    assert(f.subrange(0, deps.len() as int + 1) =~= deps.push('/'));
    assert(f != deps) by {
        assert(f.len() > deps.len());
    }
    assert(f.subrange(deps.len() as int + 1, f.len() as int) =~= rest);
    assert(deps_rest(deps, f) == Some(rest));
    match port {
        Some(p) => {
            lemma_replace_after_host(host, decimal(p as nat) + seq!['/'] + sj);
            assert(rest =~= host + pat + (decimal(p as nat) + seq!['/'] + sj));
            assert(http_prefix() + (host + seq![':'] + (decimal(p as nat) + seq!['/'] + sj))
                =~= canonical_url(host, port, segs));
        },
        None => {
            lemma_free_concat(host, sj);
            lemma_no_occurrence(rest, 0);
            assert(http_prefix() + rest =~= canonical_url(host, port, segs));
        },
    }
}

proof fn lemma_no_marker_before(host: Seq<char>, tail: Seq<char>, j: int)
    requires
        free_of_marker(host),
        0 <= j < host.len(),
    ensures
        !occurs_at(host + port_marker() + tail, port_marker(), j),
{
    let pat = port_marker();
    let rest = host + pat + tail;
    let k = host.len() as int;
    if occurs_at(rest, pat, j) {
        let w = rest.subrange(j, j + 5);
        if j + 5 <= k {
            assert(host.subrange(j, j + 5) =~= w);
            assert(occurs_at(host, pat, j));
        } else {
            let o = k - j;
            assert(rest[k] == pat[0]);
            assert(w[o] == rest[k]);
            assert(pat[o] == w[o]);
            assert(1 <= o < 5);
            assert(pat[0] != pat[o]);
        }
    }
}

proof fn lemma_replace_after_host(host: Seq<char>, tail: Seq<char>)
    requires
        free_of_marker(host),
    ensures
        replace_first(host + port_marker() + tail, port_marker(), seq![':']) == host + seq![':']
            + tail,
{
    let pat = port_marker();
    let rest = host + pat + tail;
    let k = host.len() as int;
    assert(rest.subrange(k, k + 5) =~= pat);
    assert forall|j: int| 0 <= j < k implies !#[trigger] occurs_at(rest, pat, j) by {
        lemma_no_marker_before(host, tail, j);
    }
    lemma_first_occurrence(rest, 0, k);
    assert(rest.subrange(0, k) =~= host);
    assert(rest.subrange(k + 5, rest.len() as int) =~= tail);
}

proof fn lemma_decimal_digits(n: nat)
    ensures
        decimal(n).len() > 0,
        decimal(n).last() != '/',
    decreases n,
{
    if n >= 10 {
        lemma_decimal_digits(n / 10);
    }
}

} // verus!

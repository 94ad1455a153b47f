//! Minimal HLS playlist (m3u8) parsing: just enough to list the media
//! segments in order. A media playlist lists segments; a master playlist
//! lists variant playlists (the caller follows the first one).
use vstd::prelude::*;
use crate::text;
use crate::providers::{self, ProviderError};
use crate::text::{
    chars_of, contains_exec, copy_chars, find_exec,
    rfind_char_exec, starts_with_exec, string_of, trim_exec,
};

verus! {

/// An analysed HLS playlist.
#[derive(Debug, Clone, PartialEq, Eq)]
pub enum Playlist {
    /// Media playlist: segment URIs, in order.
    Media(Vec<String>),
    /// Master playlist: URIs of the variant playlists.
    Master(Vec<String>),
}

// ---------------------------------------------------------------------------
// Specification
// ---------------------------------------------------------------------------

/// The lines of a text, as the pieces between `'\n'` characters. Every line
/// is trimmed before use, so a trailing `'\r'` or a final empty piece makes
/// no difference to what is computed from them.
pub open spec fn lines(text: Seq<char>) -> Seq<Seq<char>> {
    text::split_char(text, '\n')
}

/// A key line that really encrypts (`#EXT-X-KEY` without `METHOD=NONE`).
pub open spec fn is_key_line(line: Seq<char>) -> bool {
    let t = text::trim(line);
    text::starts_with(t, "#EXT-X-KEY"@) && !text::contains(t, "METHOD=NONE"@)
}

/// The playlist is encrypted when one of its lines is such a key line.
pub open spec fn encrypted(txt: Seq<char>) -> bool {
    exists|k: int| 0 <= k < lines(txt).len() && is_key_line(#[trigger] lines(txt)[k])
}

/// A character that ends the host part of a URL: the path, the query or the
/// fragment starts there.
pub open spec fn ends_host(c: char) -> bool {
    c == '/' || c == '?' || c == '#'
}

/// Position of the first host-ending character of `s` at or after `i`
/// (the length of `s` when there is none).
pub open spec fn host_end_from(s: Seq<char>, i: int) -> int
    decreases s.len() - i,
{
    if i < 0 || i >= s.len() {
        s.len() as int
    } else if ends_host(s[i]) {
        i
    } else {
        host_end_from(s, i + 1)
    }
}

/// `scheme://host` of a URL, without path, query or fragment: everything up
/// to the first `/`, `?` or `#` after `://`.
pub open spec fn origin(url: Seq<char>) -> Option<Seq<char>> {
    match text::find(url, "://"@) {
        None => None,
        Some(k) => {
            let scheme_end = k + 3;
            let rest = url.skip(scheme_end);
            Some(url.take(scheme_end) + rest.take(host_end_from(rest, 0)))
        },
    }
}

proof fn lemma_host_end_from(s: Seq<char>, i: int)
    requires
        0 <= i <= s.len(),
    ensures
        i <= host_end_from(s, i) <= s.len(),
    decreases s.len() - i,
{
    if i < s.len() && !ends_host(s[i]) {
        lemma_host_end_from(s, i + 1);
    }
}

/// A URI that already names its scheme.
pub open spec fn is_absolute(uri: Seq<char>) -> bool {
    text::starts_with(uri, "http://"@) || text::starts_with(uri, "https://"@)
}

/// Resolution of a possibly relative URI against the playlist URL `base`.
pub open spec fn resolved(base: Seq<char>, uri: Seq<char>) -> Seq<char> {
    if is_absolute(uri) {
        uri
    } else if uri.len() > 0 && uri[0] == '/' && origin(base) is Some {
        origin(base)->0 + seq!['/'] + uri.skip(1)
    } else {
        match text::rfind_char(base, '/') {
            Some(i) => base.take(i) + seq!['/'] + uri,
            None => uri,
        }
    }
}

/// The URI a line contributes, if any: blank lines and `#` tags give none.
pub open spec fn line_uri(base: Seq<char>, line: Seq<char>) -> Option<Seq<char>> {
    let t = text::trim(line);
    if t.len() == 0 || t[0] == '#' {
        None
    } else {
        Some(resolved(base, t))
    }
}

/// Resolved URIs of the given lines, in order.
pub open spec fn uris_of(base: Seq<char>, ls: Seq<Seq<char>>) -> Seq<Seq<char>>
    decreases ls.len(),
{
    if ls.len() == 0 {
        Seq::empty()
    } else {
        let r = uris_of(base, ls.drop_last());
        match line_uri(base, ls.last()) {
            Some(u) => r.push(u),
            None => r,
        }
    }
}

/// A master playlist declares at least one variant stream.
pub open spec fn is_master(txt: Seq<char>) -> bool {
    text::contains(txt, "#EXT-X-STREAM-INF"@)
}

// ---------------------------------------------------------------------------
// Implementation
// ---------------------------------------------------------------------------

fn key_line(line: &[char]) -> (b: bool)
    ensures
        b == is_key_line(line@),
{
    let t = trim_exec(line);
    let key = chars_of("#EXT-X-KEY");
    let none = chars_of("METHOD=NONE");
    starts_with_exec(t.as_slice(), key.as_slice()) && !contains_exec(
        t.as_slice(),
        none.as_slice(),
    )
}

/// Whether the playlist is encrypted (AES-128), which is not supported.
pub fn is_encrypted(text: &str) -> (b: bool)
    ensures
        b == encrypted(text@),
{
    let cs = chars_of(text);
    let ghost t = cs@;
    let mut cur: Vec<char> = Vec::new();
    let mut i: usize = 0;
    proof {
        assert(t.take(0) =~= Seq::<char>::empty());
    }
    while i < cs.len()
        invariant
            t == cs@,
            t == text@,
            i <= t.len(),
            lines(t.take(i as int)).len() >= 1,
            cur@ == lines(t.take(i as int)).last(),
            forall|k: int|
                0 <= k < lines(t.take(i as int)).len() - 1 ==> !is_key_line(
                    #[trigger] lines(t.take(i as int))[k],
                ),
        decreases t.len() - i,
    {
        let c = cs[i];
        proof {
            text::lemma_split_char_step(t, '\n', i as int);
        }
        if c == '\n' {
            if key_line(cur.as_slice()) {
                proof {
                    text::lemma_split_char_len(t, '\n');
                    lemma_lines_prefix_kept(t, i as int);
                    let idx = lines(t.take(i as int)).len() - 1;
                    assert(0 <= idx < lines(t).len());
                    assert(lines(t)[idx] == cur@);
                    assert(is_key_line(lines(t)[idx]));
                    assert(encrypted(t));
                }
                return true;
            }
            cur = Vec::new();
        } else {
            cur.push(c);
        }
        i = i + 1;
    }
    proof {
        assert(t.take(t.len() as int) =~= t);
    }
    key_line(cur.as_slice())
}

/// Every finished line of a prefix is a line of the whole text.
proof fn lemma_lines_prefix_kept(t: Seq<char>, i: int)
    requires
        0 <= i <= t.len(),
    ensures
        lines(t.take(i)).len() <= lines(t).len(),
        forall|k: int|
            0 <= k < lines(t.take(i)).len() - 1 ==> #[trigger] lines(t)[k] == lines(t.take(i))[k],
        i < t.len() && t[i] == '\n' ==> lines(t)[lines(t.take(i)).len() - 1] == lines(
            t.take(i),
        ).last(),
    decreases t.len() - i,
{
    text::lemma_split_char_len(t.take(i), '\n');
    if i < t.len() {
        text::lemma_split_char_step(t, '\n', i);
        lemma_lines_prefix_kept(t, i + 1);
        text::lemma_split_char_len(t.take(i + 1), '\n');
        if t[i] == '\n' {
            assert(lines(t.take(i + 1))[lines(t.take(i)).len() - 1] == lines(t.take(i)).last());
        }
    } else {
        assert(t.take(i) =~= t);
    }
}

/// `scheme://host` of a URL (without path, query or fragment).
fn origin_of(url: &[char]) -> (r: Option<Vec<char>>)
    ensures
        match origin(url@) {
            Some(o) => r matches Some(v) && v@ == o,
            None => r is None,
        },
{
    let sep = chars_of("://");
    proof {
        reveal_strlit("://");
        assert(sep@.len() == 3);
    }
    match find_exec(url, sep.as_slice(), 0) {
        None => None,
        Some(k) => {
            proof {
                text::lemma_find_from(url@, sep@, 0);
                assert(text::find_from(url@, sep@, 0) == Some(k as int));
            }
            let scheme_end = k + 3;
            let mut rest: Vec<char> = Vec::new();
            let mut i = scheme_end;
            while i < url.len()
                invariant
                    scheme_end <= i <= url@.len(),
                    rest@ == url@.subrange(scheme_end as int, i as int),
                decreases url@.len() - i,
            {
                rest.push(url[i]);
                i = i + 1;
                assert(rest@ =~= url@.subrange(scheme_end as int, i as int));
            }
            assert(rest@ =~= url@.skip(scheme_end as int));
            let mut host_end: usize = 0;
            while host_end < rest.len() && !(rest[host_end] == '/' || rest[host_end] == '?'
                || rest[host_end] == '#')
                invariant
                    host_end <= rest@.len(),
                    host_end_from(rest@, 0) == host_end_from(rest@, host_end as int),
                decreases rest@.len() - host_end,
            {
                host_end = host_end + 1;
            }
            proof {
                lemma_host_end_from(rest@, 0);
            }
            let mut out: Vec<char> = Vec::new();
            let mut j: usize = 0;
            while j < scheme_end
                invariant
                    j <= scheme_end <= url@.len(),
                    out@ == url@.take(j as int),
                decreases scheme_end - j,
            {
                out.push(url[j]);
                j = j + 1;
                assert(out@ =~= url@.take(j as int));
            }
            let mut h: usize = 0;
            while h < host_end
                invariant
                    h <= host_end <= rest@.len(),
                    out@ == url@.take(scheme_end as int) + rest@.take(h as int),
                decreases host_end - h,
            {
                out.push(rest[h]);
                h = h + 1;
                assert(out@ =~= url@.take(scheme_end as int) + rest@.take(h as int));
            }
            Some(out)
        },
    }
}

fn resolve_chars(base: &[char], uri: &[char]) -> (r: Vec<char>)
    ensures
        r@ == resolved(base@, uri@),
{
    let http = chars_of("http://");
    let https = chars_of("https://");
    if starts_with_exec(uri, http.as_slice()) || starts_with_exec(uri, https.as_slice()) {
        return copy_chars(uri);
    }
    if uri.len() > 0 && uri[0] == '/' {
        if let Some(o) = origin_of(base) {
            let mut out = o;
            out.push('/');
            let mut i: usize = 1;
            let ghost o0 = out@;
            while i < uri.len()
                invariant
                    1 <= i <= uri@.len(),
                    out@ == o0 + uri@.subrange(1, i as int),
                decreases uri@.len() - i,
            {
                out.push(uri[i]);
                i = i + 1;
                assert(out@ =~= o0 + uri@.subrange(1, i as int));
            }
            assert(uri@.subrange(1, uri@.len() as int) =~= uri@.skip(1));
            assert(out@ =~= origin(base@)->0 + seq!['/'] + uri@.skip(1));
            return out;
        }
    }
    proof {
        text::lemma_rfind_char(base@, '/');
    }
    match rfind_char_exec(base, '/') {
        Some(i) => {
            let mut out: Vec<char> = Vec::new();
            let mut j: usize = 0;
            while j < i
                invariant
                    j <= i < base@.len(),
                    out@ == base@.take(j as int),
                decreases i - j,
            {
                out.push(base[j]);
                j = j + 1;
                assert(out@ =~= base@.take(j as int));
            }
            out.push('/');
            let ghost o0 = out@;
            let mut k: usize = 0;
            while k < uri.len()
                invariant
                    k <= uri@.len(),
                    out@ == o0 + uri@.take(k as int),
                decreases uri@.len() - k,
            {
                out.push(uri[k]);
                k = k + 1;
                assert(out@ =~= o0 + uri@.take(k as int));
            }
            assert(uri@.take(uri@.len() as int) =~= uri@);
            assert(out@ =~= base@.take(i as int) + seq!['/'] + uri@);
            out
        },
        None => copy_chars(uri),
    }
}

/// Resolves a possibly relative URI against the playlist URL.
pub fn resolve_uri(base: &str, uri: &str) -> (r: String)
    ensures
        r@ == resolved(base@, uri@),
{
    let b = chars_of(base);
    let u = chars_of(uri);
    let r = resolve_chars(b.as_slice(), u.as_slice());
    string_of(r.as_slice())
}

fn uri_of_line(base: &[char], line: &[char]) -> (r: Option<String>)
    ensures
        match line_uri(base@, line@) {
            Some(u) => r matches Some(s) && s@ == u,
            None => r is None,
        },
{
    let t = trim_exec(line);
    if t.len() == 0 || t[0] == '#' {
        None
    } else {
        let r = resolve_chars(base, t.as_slice());
        Some(string_of(r.as_slice()))
    }
}

/// Analyses an m3u8 text, resolving relative URIs against `base`.
pub fn parse(text: &str, base: &str) -> (r: Playlist)
    ensures
        match r {
            Playlist::Master(v) => is_master(text@) && text::views(v@) == uris_of(
                base@,
                lines(text@),
            ),
            Playlist::Media(v) => !is_master(text@) && text::views(v@) == uris_of(
                base@,
                lines(text@),
            ),
        },
{
    let cs = chars_of(text);
    let b = chars_of(base);
    let marker = chars_of("#EXT-X-STREAM-INF");
    let master = contains_exec(cs.as_slice(), marker.as_slice());
    let ghost t = cs@;
    let mut uris: Vec<String> = Vec::new();
    let mut cur: Vec<char> = Vec::new();
    let mut i: usize = 0;
    proof {
        assert(t.take(0) =~= Seq::<char>::empty());
        assert(text::views(uris@) =~= Seq::<Seq<char>>::empty());
    }
    while i < cs.len()
        invariant
            t == cs@,
            b@ == base@,
            i <= t.len(),
            lines(t.take(i as int)).len() >= 1,
            cur@ == lines(t.take(i as int)).last(),
            text::views(uris@) == uris_of(base@, lines(t.take(i as int)).drop_last()),
        decreases t.len() - i,
    {
        let c = cs[i];
        proof {
            text::lemma_split_char_step(t, '\n', i as int);
        }
        if c == '\n' {
            let ghost before = lines(t.take(i as int));
            if let Some(u) = uri_of_line(b.as_slice(), cur.as_slice()) {
                uris.push(u);
            }
            proof {
                let after = lines(t.take(i + 1));
                assert(after.drop_last() =~= before);
                assert(before.drop_last().push(before.last()) =~= before);
                assert(text::views(uris@) =~= uris_of(base@, after.drop_last()));
            }
            cur = Vec::new();
        } else {
            proof {
                let before = lines(t.take(i as int));
                let after = lines(t.take(i + 1));
                assert(after.drop_last() =~= before.drop_last());
            }
            cur.push(c);
        }
        i = i + 1;
    }
    if let Some(u) = uri_of_line(b.as_slice(), cur.as_slice()) {
        uris.push(u);
    }
    proof {
        assert(t.take(t.len() as int) =~= t);
        let ls = lines(t);
        assert(ls.drop_last().push(ls.last()) =~= ls);
        assert(text::views(uris@) =~= uris_of(base@, ls));
    }
    if master {
        Playlist::Master(uris)
    } else {
        Playlist::Media(uris)
    }
}

/// What to do after fetching a playlist.
#[derive(Debug)]
pub enum HlsNext {
    /// The playlist was a media playlist: its segments.
    Segments(Vec<String>),
    /// The playlist was a master playlist: fetch this variant next.
    Variant(String),
}

/// First step of unfolding an m3u8 URL into segments, given the fetched
/// text: an encrypted playlist is refused with `encrypted_message`; a media
/// playlist gives its segments; a master playlist names its first variant
/// (an empty master playlist is malformed).
pub fn expand_first(text: &str, url: &str, encrypted_message: &str) -> (r: Result<
    HlsNext,
    ProviderError,
>)
    ensures
        encrypted(text@) ==> (r matches Err(e) && providers::is_unavailable(e, encrypted_message@)),
        !encrypted(text@) && !is_master(text@) ==> (r matches Ok(HlsNext::Segments(v))
            && text::views(v@) == uris_of(url@, lines(text@))),
        !encrypted(text@) && is_master(text@) && uris_of(url@, lines(text@)).len() > 0 ==> (
        r matches Ok(HlsNext::Variant(u)) && u@ == uris_of(url@, lines(text@))[0]),
        !encrypted(text@) && is_master(text@) && uris_of(url@, lines(text@)).len() == 0 ==> (
        r matches Err(e) && providers::is_malformed(e, "master m3u8 vide"@)),
{
    if is_encrypted(text) {
        return Err(ProviderError::Unavailable(encrypted_message.to_owned()));
    }
    match parse(text, url) {
        Playlist::Media(segs) => Ok(HlsNext::Segments(segs)),
        Playlist::Master(variants) => {
            if variants.len() == 0 {
                Err(ProviderError::Malformed("master m3u8 vide".to_owned()))
            } else {
                assert(text::views(variants@)[0] == variants@[0]@);
                Ok(HlsNext::Variant(variants[0].clone()))
            }
        },
    }
}

/// Second step: the variant playlist must be a media playlist.
pub fn expand_variant(text: &str, url: &str) -> (r: Result<Vec<String>, ProviderError>)
    ensures
        !is_master(text@) ==> (r matches Ok(v) && text::views(v@) == uris_of(url@, lines(text@))),
        is_master(text@) ==> (r matches Err(e) && providers::is_malformed(e, "master m3u8 imbriqué"@)),
{
    match parse(text, url) {
        Playlist::Media(segs) => Ok(segs),
        Playlist::Master(_) => Err(ProviderError::Malformed("master m3u8 imbriqué".to_owned())),
    }
}

// ---------------------------------------------------------------------------
// Properties
// ---------------------------------------------------------------------------

/// Against an `http(s)://` playlist URL, every URI resolves to an absolute
/// `http(s)://` URL.
pub proof fn law_resolved_is_absolute(base: Seq<char>, uri: Seq<char>)
    requires
        is_absolute(base),
    ensures
        is_absolute(resolved(base, uri)),
{
    reveal_strlit("http://");
    reveal_strlit("https://");
    reveal_strlit("://");
    let r = resolved(base, uri);
    let http = "http://"@;
    let https = "https://"@;
    let secure = text::starts_with(base, https);
    assert(secure ==> base.take(8) == https);
    assert(!secure ==> base.take(7) == http);
    // Where the scheme separator is.
    let k: int = if secure {
        5
    } else {
        4
    };
    if secure {
        assert forall|j: int| 0 <= j < 8 implies base[j] == https[j] by {
            assert(base.take(8)[j] == base[j]);
        }
    } else {
        assert forall|j: int| 0 <= j < 7 implies base[j] == http[j] by {
            assert(base.take(7)[j] == base[j]);
        }
    }
    assert(base[k] == ':' && base[k + 1] == '/' && base[k + 2] == '/');
    assert(forall|j: int| 0 <= j < k ==> base[j] != ':');
    if is_absolute(uri) {
    } else if uri.len() > 0 && uri[0] == '/' && origin(base) is Some {
        lemma_find_scheme(base, k);
        let o = origin(base)->0;
        assert(o.take(k + 3) =~= base.take(k + 3));
        if secure {
            assert(r.take(8) =~= https);
        } else {
            assert(r.take(7) =~= http);
        }
    } else {
        text::lemma_rfind_char(base, '/');
        match text::rfind_char(base, '/') {
            Some(i) => {
                assert(i >= k + 2);
                if secure {
                    assert(r.take(8) =~= https);
                } else {
                    assert(r.take(7) =~= http);
                }
            },
            None => {
                assert(base[k + 1] == '/');
            },
        }
    }
}

/// In an `http(s)://` URL the scheme separator is found right after the scheme.
proof fn lemma_find_scheme(base: Seq<char>, k: int)
    requires
        k == 4 || k == 5,
        base.len() >= k + 3,
        base[k] == ':' && base[k + 1] == '/' && base[k + 2] == '/',
        forall|j: int| 0 <= j < k ==> base[j] != ':',
    ensures
        text::find(base, "://"@) == Some(k),
{
    reveal_strlit("://");
    let sep = "://"@;
    assert(text::matches_at(base, sep, k)) by {
        assert(base.subrange(k, k + 3) =~= sep);
    }
    assert forall|j: int| 0 <= j < k implies !text::matches_at(base, sep, j) by {
        if text::matches_at(base, sep, j) {
            assert(base.subrange(j, j + 3)[0] == base[j]);
        }
    }
    lemma_find_first(base, sep, 0, k);
}

proof fn lemma_find_first(s: Seq<char>, pat: Seq<char>, i: int, k: int)
    requires
        0 <= i <= k,
        text::matches_at(s, pat, k),
        forall|j: int| i <= j < k ==> !text::matches_at(s, pat, j),
    ensures
        text::find_from(s, pat, i) == Some(k),
    decreases k - i,
{
    if i < k {
        lemma_find_first(s, pat, i + 1, k);
    }
}

} // verus!

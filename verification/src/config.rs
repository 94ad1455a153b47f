//! Persistent configuration: the account handles typed by the user (public
//! user names, no secret). Reading and writing the file is the caller's job.
use vstd::prelude::*;
use crate::text;
use crate::text::{chars_of, copy_range, find_exec, string_of, strip_prefixes_exec, trim_char_exec, trim_exec};

verus! {

/// The stored account handles.
#[derive(Debug, Clone, Default)]
pub struct Config {
    /// SoundCloud handle (what follows soundcloud.com/).
    pub soundcloud: Option<String>,
    /// Mixcloud handle.
    pub mixcloud: Option<String>,
}

/// The text before the first `/` (all of it when there is none).
pub open spec fn first_segment(s: Seq<char>) -> Seq<char> {
    match text::find(s, seq!['/']) {
        Some(i) => s.take(i),
        None => s,
    }
}

/// What is left of a pasted profile URL once the scheme, `www.`, the host
/// and the surrounding slashes are removed.
pub open spec fn without_host(s: Seq<char>) -> Seq<char> {
    let a = text::strip_prefixes(s, "https://"@);
    let b = text::strip_prefixes(a, "http://"@);
    let c = text::strip_prefixes(b, "www."@);
    let d = text::strip_prefixes(c, "soundcloud.com/"@);
    let e = text::strip_prefixes(d, "mixcloud.com/"@);
    text::trim_char(e, '/')
}

/// Normal form of a typed handle: blank gives `None`; a full profile URL
/// gives its first path segment.
pub open spec fn handle_of(raw: Seq<char>) -> Option<Seq<char>> {
    let s = text::trim(raw);
    if s.len() == 0 {
        None
    } else {
        let h = text::trim(first_segment(without_host(s)));
        if h.len() == 0 {
            None
        } else {
            Some(h)
        }
    }
}

/// Normalises a typed handle: blank → `None`, otherwise strips the URL
/// parts and spaces.
pub fn normalize_handle(raw: &str) -> (r: Option<String>)
    ensures
        match handle_of(raw@) {
            Some(h) => r matches Some(s) && s@ == h,
            None => r is None,
        },
{
    let cs = chars_of(raw);
    let s = trim_exec(cs.as_slice());
    if s.len() == 0 {
        return None;
    }
    let a = strip_prefixes_exec(s.as_slice(), "https://");
    let b = strip_prefixes_exec(a.as_slice(), "http://");
    let c = strip_prefixes_exec(b.as_slice(), "www.");
    let d = strip_prefixes_exec(c.as_slice(), "soundcloud.com/");
    let e = strip_prefixes_exec(d.as_slice(), "mixcloud.com/");
    let f = trim_char_exec(e.as_slice(), '/');
    let slash: [char; 1] = ['/'];
    assert(slash@ =~= seq!['/']);
    let end = match find_exec(f.as_slice(), slash.as_slice(), 0) {
        Some(i) => i,
        None => f.len(),
    };
    proof {
        text::lemma_find_from(f@, slash@, 0);
        if text::find(f@, seq!['/']) is None {
            assert(f@.take(f@.len() as int) =~= f@);
        }
    }
    let first = copy_range(f.as_slice(), 0, end);
    assert(first@ =~= first_segment(f@));
    let h = trim_exec(first.as_slice());
    if h.len() == 0 {
        None
    } else {
        Some(string_of(h.as_slice()))
    }
}

/// A normalised handle is never blank, holds no `/`, and neither starts nor
/// ends with white space.
pub proof fn law_handle_shape(raw: Seq<char>)
    ensures
        match handle_of(raw) {
            Some(h) => {
                &&& h.len() > 0
                &&& forall|i: int| 0 <= i < h.len() ==> h[i] != '/'
                &&& !text::is_ws(h[0])
                &&& !text::is_ws(h.last())
            },
            None => true,
        },
{
    let w = without_host(text::trim(raw));
    let f = first_segment(w);
    text::lemma_find_from(w, seq!['/'], 0);
    assert forall|j: int| 0 <= j < f.len() implies f[j] != '/' by {
        assert(f[j] == w[j]);
        if w[j] == '/' {
            assert(w.subrange(j, j + 1) =~= seq!['/']);
            assert(text::matches_at(w, seq!['/'], j));
        }
    }
    let r = text::lemma_trim_by_shape(f, text::ws_pred());
    let h = text::trim(f);
    assert forall|i: int| 0 <= i < h.len() implies h[i] != '/' by {
        assert(h[i] == f[r.0 + i]);
    }
}

/// A text without `/` and with no blank or `/` at its ends goes through the
/// last steps of normalisation unchanged.
proof fn lemma_plain_tail(h: Seq<char>)
    requires
        h.len() > 0,
        forall|i: int| 0 <= i < h.len() ==> h[i] != '/',
        !text::is_ws(h[0]),
        !text::is_ws(h.last()),
    ensures
        text::strip_prefixes(h, "mixcloud.com/"@) == h,
        text::trim(first_segment(text::trim_char(h, '/'))) == h,
{
    reveal_strlit("mixcloud.com/");
    text::lemma_not_prefix(h, "mixcloud.com/"@, 12);
    text::lemma_trim_kept(h, text::eq_pred('/'));
    text::lemma_find_from(h, seq!['/'], 0);
    if let Some(k) = text::find(h, seq!['/']) {
        assert(h.subrange(k, k + 1)[0] == h[k]);
    }
    text::lemma_trim_kept(h, text::ws_pred());
}

/// A handle in normal form, typed alone, is kept.
proof fn lemma_handle_alone(h: Seq<char>)
    requires
        h.len() > 0,
        !text::is_ws(h[0]),
        !text::is_ws(h.last()),
        forall|i: int| 0 <= i < h.len() ==> h[i] != '/',
        !text::starts_with(h, "www."@),
    ensures
        handle_of(h) == Some(h),
{
    reveal_strlit("https://");
    reveal_strlit("http://");
    reveal_strlit("soundcloud.com/");
    lemma_plain_tail(h);
    text::lemma_trim_kept(h, text::ws_pred());
    text::lemma_not_prefix(h, "https://"@, 6);
    text::lemma_not_prefix(h, "http://"@, 5);
    text::lemma_not_prefix(h, "soundcloud.com/"@, 14);
}

/// A SoundCloud profile URL gives its handle back.
proof fn lemma_handle_soundcloud(h: Seq<char>)
    requires
        h.len() > 0,
        !text::is_ws(h[0]),
        !text::is_ws(h.last()),
        forall|i: int| 0 <= i < h.len() ==> h[i] != '/',
    ensures
        handle_of("https://soundcloud.com/"@ + h) == Some(h),
{
    reveal_strlit("https://");
    reveal_strlit("http://");
    reveal_strlit("www.");
    reveal_strlit("soundcloud.com/");
    reveal_strlit("https://soundcloud.com/");
    lemma_plain_tail(h);
    let y = "soundcloud.com/"@ + h;
    let x = "https://soundcloud.com/"@ + h;
    assert(x =~= "https://"@ + y);
    text::lemma_not_prefix(h, "soundcloud.com/"@, 14);
    text::lemma_not_prefix(y, "https://"@, 0);
    text::lemma_strip_once("https://"@, y);
    text::lemma_not_prefix(y, "http://"@, 0);
    text::lemma_not_prefix(y, "www."@, 0);
    text::lemma_strip_once("soundcloud.com/"@, h);
    assert(x[0] == 'h');
    assert(x.last() == h.last());
    text::lemma_trim_kept(x, text::ws_pred());
    assert(without_host(x) == h);
}

/// `h/` does not start with `mixcloud.com/` unless `h` is `mixcloud.com`.
proof fn lemma_not_mixcloud_prefix(h: Seq<char>)
    requires
        forall|i: int| 0 <= i < h.len() ==> h[i] != '/',
        h != "mixcloud.com"@,
    ensures
        !text::starts_with(h + seq!['/'], "mixcloud.com/"@),
{
    reveal_strlit("mixcloud.com/");
    reveal_strlit("mixcloud.com");
    let t = h + seq!['/'];
    if h.len() >= 13 {
        text::lemma_not_prefix(t, "mixcloud.com/"@, 12);
    } else if h.len() == 12 {
        if text::starts_with(t, "mixcloud.com/"@) {
            assert(h =~= t.take(13).take(12));
            assert(h =~= "mixcloud.com"@);
        }
    } else {
        assert(t[h.len() as int] == '/');
        text::lemma_not_prefix(t, "mixcloud.com/"@, h.len() as int);
    }
}

/// A `www.mixcloud.com/<handle>/` URL gives its handle back.
proof fn lemma_handle_mixcloud(h: Seq<char>)
    requires
        h.len() > 0,
        !text::is_ws(h[0]),
        !text::is_ws(h.last()),
        forall|i: int| 0 <= i < h.len() ==> h[i] != '/',
        h != "mixcloud.com"@,
    ensures
        handle_of("www.mixcloud.com/"@ + h + seq!['/']) == Some(h),
{
    reveal_strlit("https://");
    reveal_strlit("http://");
    reveal_strlit("www.");
    reveal_strlit("soundcloud.com/");
    reveal_strlit("mixcloud.com/");
    reveal_strlit("www.mixcloud.com/");
    lemma_plain_tail(h);
    lemma_not_mixcloud_prefix(h);
    let t = h + seq!['/'];
    let y2 = "mixcloud.com/"@ + t;
    let z = "www.mixcloud.com/"@ + h + seq!['/'];
    assert(z =~= "www."@ + y2);
    assert(z[0] == 'w');
    assert(z.last() == '/');
    text::lemma_trim_kept(z, text::ws_pred());
    text::lemma_not_prefix(z, "https://"@, 0);
    text::lemma_not_prefix(z, "http://"@, 0);
    text::lemma_not_prefix(y2, "www."@, 0);
    text::lemma_strip_once("www."@, y2);
    text::lemma_not_prefix(y2, "soundcloud.com/"@, 0);
    text::lemma_strip_once("mixcloud.com/"@, t);
    assert(t.drop_last() =~= h);
    assert(text::trim_end_by(h, text::eq_pred('/')) == h);
    assert(text::trim_end_by(t, text::eq_pred('/')) == h);
    assert(text::trim_start_by(t, text::eq_pred('/')) == t);
    assert(text::trim_char(t, '/') == h);
    assert(without_host(z) == h);
}

/// A handle already in normal form comes back unchanged, typed alone, as a
/// SoundCloud profile URL, or as a `www.mixcloud.com/<handle>/` URL (except
/// for the handle `mixcloud.com`, whose prefix that URL repeats).
pub proof fn law_handle_idempotent(h: Seq<char>)
    requires
        h.len() > 0,
        text::trim(h) == h,
        forall|i: int| 0 <= i < h.len() ==> h[i] != '/',
        !text::starts_with(h, "www."@),
    ensures
        handle_of(h) == Some(h),
        handle_of("https://soundcloud.com/"@ + h) == Some(h),
        h != "mixcloud.com"@ ==> handle_of("www.mixcloud.com/"@ + h + seq!['/']) == Some(h),
{
    let _ = text::lemma_trim_by_shape(h, text::ws_pred());
    lemma_handle_alone(h);
    lemma_handle_soundcloud(h);
    if h != "mixcloud.com"@ {
        lemma_handle_mixcloud(h);
    }
}

} // verus!

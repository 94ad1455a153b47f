//! Mixcloud provider: metadata from the public REST API, streams from the
//! GraphQL `streamInfo`, whose URLs are base64 text XOR-ed with a clear key.
//! The requests themselves are made by the caller; this module decides what
//! to do with each answer.
use vstd::prelude::*;
use crate::b64;
use crate::json::{self, Json};
use crate::model::{self, Platform, Track, TrackView};
use crate::providers::{self, hls, Container, ProviderError, StreamKind, StreamPlan, StreamSource};
use crate::text;
use crate::text::{chars_of, copy_range, ends_with_str, lower_exec, push_str, string_of};

verus! {

// ---------------------------------------------------------------------------
// Stream URL obfuscation
// ---------------------------------------------------------------------------

/// The clear XOR key applied after base64 decoding of the stream URLs.
pub open spec fn mask_key() -> Seq<u8> {
    seq![
        73u8, 70, 89, 79, 85, 87, 65, 78, 84, 84, 72, 69, 65, 82, 84, 73, 83, 84, 83, 84, 79, 71,
        69, 84, 80, 65, 73, 68, 68, 79, 78, 79, 84, 68, 79, 87, 78, 76, 79, 65, 68, 70, 82, 79,
        77, 77, 73, 88, 67, 76, 79, 85, 68,
    ]
}

fn key_bytes() -> (r: [u8; 53])
    ensures
        r@ == mask_key(),
{
    let r: [u8; 53] = [
        73, 70, 89, 79, 85, 87, 65, 78, 84, 84, 72, 69, 65, 82, 84, 73, 83, 84, 83, 84, 79, 71, 69,
        84, 80, 65, 73, 68, 68, 79, 78, 79, 84, 68, 79, 87, 78, 76, 79, 65, 68, 70, 82, 79, 77,
        77, 73, 88, 67, 76, 79, 85, 68,
    ];
    assert(r@ =~= mask_key());
    r
}

/// XOR of each byte with the key, repeated cyclically.
pub open spec fn unmask(b: Seq<u8>) -> Seq<u8> {
    Seq::new(b.len(), |i: int| b[i] ^ mask_key()[i % 53])
}

/// A `streamInfo` field in clear: base64, then cyclic XOR with the key,
/// then UTF-8; `None` when a step fails.
pub open spec fn decrypted(field: Seq<char>) -> Option<Seq<char>> {
    match b64::decode(field) {
        None => None,
        Some(raw) => {
            let bytes = unmask(raw);
            if vstd::utf8::valid_utf8(bytes) {
                Some(vstd::utf8::decode_utf8(bytes))
            } else {
                None
            }
        },
    }
}

/// `String::from_utf8(bytes).ok()`.
///
/// Trusted: the standard library accepts exactly the well-formed UTF-8 byte
/// strings and then holds the characters they encode; this is stated with
/// vstd's `valid_utf8` and `decode_utf8`.
#[verifier::external_body]
fn utf8_string(bytes: Vec<u8>) -> (r: Option<String>)
    ensures
        r is Some <==> vstd::utf8::valid_utf8(bytes@),
        r matches Some(s) ==> s@ == vstd::utf8::decode_utf8(bytes@),
{
    String::from_utf8(bytes).ok()
}

/// Deciphers a `streamInfo` field: base64, then cyclic XOR with the key.
pub fn decrypt(field: &str) -> (r: Option<String>)
    ensures
        match decrypted(field@) {
            Some(s) => r matches Some(x) && x@ == s,
            None => r is None,
        },
{
    let raw = match b64::decode_str(field) {
        Some(raw) => raw,
        None => return None,
    };
    let key = key_bytes();
    let mut out: Vec<u8> = Vec::new();
    let mut i: usize = 0;
    while i < raw.len()
        invariant
            i <= raw@.len(),
            key@ == mask_key(),
            out@ == unmask(raw@).take(i as int),
        decreases raw@.len() - i,
    {
        out.push(raw[i] ^ key[i % 53]);
        i = i + 1;
        assert(out@ =~= unmask(raw@).take(i as int));
    }
    assert(unmask(raw@).take(raw@.len() as int) =~= unmask(raw@));
    utf8_string(out)
}

/// Masking twice gives the bytes back.
pub proof fn lemma_unmask_twice(b: Seq<u8>)
    ensures
        unmask(unmask(b)) == b,
{
    assert forall|i: int| 0 <= i < b.len() implies #[trigger] unmask(unmask(b))[i] == b[i] by {
        let x = b[i];
        let k = mask_key()[i % 53];
        assert((x ^ k) ^ k == x) by (bit_vector);
    }
    assert(unmask(unmask(b)) =~= b);
}

/// A text masked and base64-encoded the way Mixcloud serves its stream URLs
/// deciphers back to the same text.
pub proof fn law_decrypt_inverts_obfuscation(plain: Seq<char>)
    ensures
        decrypted(b64::encode(unmask(vstd::utf8::encode_utf8(plain)))) == Some(plain),
{
    let bytes = vstd::utf8::encode_utf8(plain);
    b64::law_decode_encode(unmask(bytes));
    lemma_unmask_twice(bytes);
    vstd::utf8::encode_utf8_valid_utf8(plain);
    vstd::utf8::encode_utf8_decode_utf8(plain);
}

// ---------------------------------------------------------------------------
// URLs
// ---------------------------------------------------------------------------

/// The host marker of Mixcloud page URLs.
pub open spec fn host_marker() -> Seq<char> {
    seq!['m', 'i', 'x', 'c', 'l', 'o', 'u', 'd', '.', 'c', 'o', 'm', '/']
}

/// Position of the first `?` or `#` at or after `j` (or the end).
pub open spec fn query_start(p: Seq<char>, j: int) -> int
    decreases p.len() - j,
{
    if 0 <= j < p.len() && p[j] != '?' && p[j] != '#' {
        query_start(p, j + 1)
    } else {
        j
    }
}

/// The text before the first `?` or `#`.
pub open spec fn before_query(p: Seq<char>) -> Seq<char> {
    p.take(query_start(p, 0))
}

/// The piece that follows the first `mixcloud.com/`, up to the next one.
pub open spec fn after_host(url: Seq<char>) -> Option<Seq<char>> {
    match text::find(url, host_marker()) {
        None => None,
        Some(i) => {
            let start = i + 13;
            let end = match text::find_from(url, host_marker(), start) {
                Some(j) => j,
                None => url.len() as int,
            };
            Some(url.subrange(start, end))
        },
    }
}

/// The non-empty pieces, in order.
pub open spec fn non_empty(ps: Seq<Seq<char>>) -> Seq<Seq<char>>
    decreases ps.len(),
{
    if ps.len() == 0 {
        Seq::empty()
    } else {
        let r = non_empty(ps.drop_last());
        if ps.last().len() > 0 {
            r.push(ps.last())
        } else {
            r
        }
    }
}

/// `(username, slug)` of a Mixcloud URL: the first two non-empty path
/// segments after the host, ignoring the query and fragment.
pub open spec fn url_parts(url: Seq<char>) -> Option<(Seq<char>, Seq<char>)> {
    match after_host(url) {
        None => None,
        Some(after) => {
            let segs = non_empty(text::split_char(before_query(after), '/'));
            if segs.len() >= 2 {
                Some((segs[0], segs[1]))
            } else {
                None
            }
        },
    }
}

proof fn lemma_query_start(p: Seq<char>, j: int)
    requires
        0 <= j <= p.len(),
    ensures
        j <= query_start(p, j) <= p.len(),
    decreases p.len() - j,
{
    if j < p.len() && p[j] != '?' && p[j] != '#' {
        lemma_query_start(p, j + 1);
    }
}

/// The non-empty `/`-separated segments of `s`.
fn segments(s: &[char]) -> (r: Vec<Vec<char>>)
    ensures
        r@.len() == non_empty(text::split_char(s@, '/')).len(),
        forall|k: int| 0 <= k < r@.len() ==> #[trigger] r@[k]@ == non_empty(
            text::split_char(s@, '/'),
        )[k],
{
    let mut out: Vec<Vec<char>> = Vec::new();
    let mut cur: Vec<char> = Vec::new();
    let mut i: usize = 0;
    assert(s@.take(0) =~= Seq::<char>::empty());
    while i < s.len()
        invariant
            i <= s@.len(),
            text::split_char(s@.take(i as int), '/').len() >= 1,
            cur@ == text::split_char(s@.take(i as int), '/').last(),
            out@.len() == non_empty(text::split_char(s@.take(i as int), '/').drop_last()).len(),
            forall|k: int|
                0 <= k < out@.len() ==> #[trigger] out@[k]@ == non_empty(
                    text::split_char(s@.take(i as int), '/').drop_last(),
                )[k],
        decreases s@.len() - i,
    {
        proof {
            text::lemma_split_char_step(s@, '/', i as int);
        }
        let ghost before = text::split_char(s@.take(i as int), '/');
        if s[i] == '/' {
            proof {
                assert(before.push(Seq::empty()).drop_last() =~= before);
                assert(before.drop_last().push(before.last()) =~= before);
            }
            if cur.len() > 0 {
                out.push(cur);
            }
            cur = Vec::new();
        } else {
            proof {
                let after = before.update(before.len() - 1, before.last().push(s@[i as int]));
                assert(after.drop_last() =~= before.drop_last());
            }
            cur.push(s[i]);
        }
        i = i + 1;
    }
    assert(s@.take(s@.len() as int) =~= s@);
    let ghost all = text::split_char(s@, '/');
    proof {
        assert(all.drop_last().push(all.last()) =~= all);
    }
    if cur.len() > 0 {
        out.push(cur);
    }
    out
}

/// Characters of `s` up to the first `?` or `#`.
fn cut_query(s: &[char]) -> (r: Vec<char>)
    ensures
        r@ == before_query(s@),
{
    let mut j: usize = 0;
    while j < s.len() && s[j] != '?' && s[j] != '#'
        invariant
            j <= s@.len(),
            query_start(s@, 0) == query_start(s@, j as int),
        decreases s@.len() - j,
    {
        j = j + 1;
    }
    copy_range(s, 0, j)
}

/// Extracts `(username, slug)` from a Mixcloud URL.
pub fn parse_url(url: &str) -> (r: Option<(String, String)>)
    ensures
        match url_parts(url@) {
            Some((u, s)) => r matches Some((a, b)) && a@ == u && b@ == s,
            None => r is None,
        },
{
    let cs = chars_of(url);
    let marker: [char; 13] = ['m', 'i', 'x', 'c', 'l', 'o', 'u', 'd', '.', 'c', 'o', 'm', '/'];
    assert(marker@ =~= host_marker());
    let i = match text::find_exec(cs.as_slice(), marker.as_slice(), 0) {
        Some(i) => i,
        None => return None,
    };
    proof {
        text::lemma_find_from(cs@, marker@, 0);
    }
    let start = i + 13;
    let end = match text::find_exec(cs.as_slice(), marker.as_slice(), start) {
        Some(j) => j,
        None => cs.len(),
    };
    proof {
        text::lemma_find_from(cs@, marker@, start as int);
    }
    let after = copy_range(cs.as_slice(), start, end);
    let path = cut_query(after.as_slice());
    let segs = segments(path.as_slice());
    if segs.len() < 2 {
        return None;
    }
    let user = string_of(segs[0].as_slice());
    let slug = string_of(segs[1].as_slice());
    Some((user, slug))
}

/// Container of a Mixcloud stream: MP3 when the path ends in `.mp3`, else
/// AAC in MP4 (m4a files and HLS segments).
pub open spec fn container_for_url(url: Seq<char>) -> Container {
    if text::ends_with(text::lower(before_query(url)), ".mp3"@) {
        Container::Mp3
    } else {
        Container::Mp4
    }
}

/// Guesses the container of a stream URL.
pub fn container_from_url(url: &str) -> (r: Container)
    ensures
        r == container_for_url(url@),
{
    let cs = chars_of(url);
    let path = cut_query(cs.as_slice());
    let low = lower_exec(path.as_slice());
    if ends_with_str(low.as_slice(), ".mp3") {
        Container::Mp3
    } else {
        Container::Mp4
    }
}

// ---------------------------------------------------------------------------
// Tracks
// ---------------------------------------------------------------------------

/// A length in seconds converted to milliseconds.
pub open spec fn seconds_to_ms(v: Option<u64>) -> Option<u64> {
    match v {
        Some(s) => Some((s * 1000) as u64),
        None => None,
    }
}

/// The conversion to milliseconds does not overflow.
pub open spec fn ms_fits(v: Option<u64>) -> bool {
    v matches Some(s) ==> s * 1000 <= u64::MAX
}

/// The track described by a REST cloudcast object (needs a key and a name).
pub open spec fn rest_track(c: Json) -> Option<TrackView> {
    let o = Some(c);
    match (json::as_str(json::field(o, "key"@)), json::as_str(json::field(o, "name"@))) {
        (Some(key), Some(name)) => Some(
            TrackView {
                platform: Platform::Mixcloud,
                id: key,
                title: name,
                artist: match json::as_str(json::field(json::field(o, "user"@), "name"@)) {
                    Some(a) => a,
                    None => "Inconnu"@,
                },
                permalink: "https://www.mixcloud.com"@ + key,
                duration_ms: seconds_to_ms(json::as_u64(json::field(o, "audio_length"@))),
            },
        ),
        _ => None,
    }
}

/// Reading a REST cloudcast does not overflow: its length is only converted
/// when it has a key and a name.
pub open spec fn rest_fits(c: Json) -> bool {
    let o = Some(c);
    json::as_str(json::field(o, "key"@)) is Some && json::as_str(json::field(o, "name"@)) is Some
        ==> ms_fits(json::as_u64(json::field(o, "audio_length"@)))
}

fn ms_of(v: Option<u64>) -> (r: Option<u64>)
    requires
        ms_fits(v),
    ensures
        r == seconds_to_ms(v),
{
    match v {
        Some(s) => Some(s * 1000),
        None => None,
    }
}

/// Builds a track from a REST cloudcast object.
pub fn track_from_rest(c: &Json) -> (r: Option<Track>)
    requires
        rest_fits(*c),
    ensures
        match rest_track(*c) {
            Some(t) => r matches Some(x) && x@ == t,
            None => r is None,
        },
{
    let o = Some(c);
    let key = match json::str_in(json::get_in(o, "key")) {
        Some(k) => k,
        None => return None,
    };
    let title = match json::str_in(json::get_in(o, "name")) {
        Some(n) => n.to_owned(),
        None => return None,
    };
    let artist = match json::str_in(json::get_in(json::get_in(o, "user"), "name")) {
        Some(a) => a.to_owned(),
        None => "Inconnu".to_owned(),
    };
    let duration_ms = ms_of(json::u64_in(json::get_in(o, "audio_length")));
    let mut permalink = "https://www.mixcloud.com".to_owned();
    push_str(&mut permalink, key);
    let t = Track {
        platform: Platform::Mixcloud,
        id: key.to_owned(),
        title,
        artist,
        permalink,
        duration_ms,
    };
    proof {
        assert(t@ == rest_track(*c)->0);
    }
    Some(t)
}

/// Tracks of a list of REST cloudcasts, skipping incomplete ones.
pub open spec fn rest_tracks(items: Seq<Json>) -> Seq<TrackView>
    decreases items.len(),
{
    if items.len() == 0 {
        Seq::empty()
    } else {
        let r = rest_tracks(items.drop_last());
        match rest_track(items.last()) {
            Some(t) => r.push(t),
            None => r,
        }
    }
}

/// Every item of the list can be read without overflow.
pub open spec fn all_fit(items: Seq<Json>) -> bool {
    forall|k: int| 0 <= k < items.len() ==> rest_fits(#[trigger] items[k])
}

fn collect_rest(items: &Vec<Json>) -> (r: Vec<Track>)
    requires
        all_fit(items@),
    ensures
        model::track_views(r@) == rest_tracks(items@),
{
    let mut out: Vec<Track> = Vec::new();
    let mut i: usize = 0;
    assert(items@.take(0) =~= Seq::<Json>::empty());
    assert(model::track_views(out@) =~= rest_tracks(items@.take(0)));
    while i < items.len()
        invariant
            i <= items@.len(),
            all_fit(items@),
            model::track_views(out@) == rest_tracks(items@.take(i as int)),
        decreases items@.len() - i,
    {
        let ghost before = out@;
        assert(rest_fits(items@[i as int]));
        if let Some(t) = track_from_rest(&items[i]) {
            out.push(t);
        }
        proof {
            assert(items@.take(i + 1).drop_last() =~= items@.take(i as int));
            assert(model::track_views(before.push(out@.last())) =~= model::track_views(
                before,
            ).push(out@.last()@));
        }
        i = i + 1;
    }
    assert(items@.take(items@.len() as int) =~= items@);
    out
}

/// The `data` list of a REST answer, if any.
pub open spec fn data_of(v: Json) -> Option<Seq<Json>> {
    json::as_array(json::field(Some(v), "data"@))
}

/// Tracks of a REST search answer; an answer without data is malformed.
pub fn tracks_from_search(v: &Json) -> (r: Result<Vec<Track>, ProviderError>)
    requires
        data_of(*v) matches Some(items) ==> all_fit(items),
    ensures
        match data_of(*v) {
            Some(items) => r matches Ok(ts) && model::track_views(ts@) == rest_tracks(items),
            None => r matches Err(e) && providers::is_malformed(e, "recherche sans data"@),
        },
{
    match json::array_in(v.get("data")) {
        Some(items) => Ok(collect_rest(items)),
        None => Err(ProviderError::Malformed("recherche sans data".to_owned())),
    }
}

/// Tracks of a REST list (favorites, listens, playlist content); an answer
/// without data gives none.
pub fn tracks_from_list(v: &Json) -> (r: Vec<Track>)
    requires
        data_of(*v) matches Some(items) ==> all_fit(items),
    ensures
        model::track_views(r@) == match data_of(*v) {
            Some(items) => rest_tracks(items),
            None => Seq::empty(),
        },
{
    match json::array_in(v.get("data")) {
        Some(items) => collect_rest(items),
        None => {
            let r: Vec<Track> = Vec::new();
            assert(model::track_views(r@) =~= Seq::<TrackView>::empty());
            r
        },
    }
}

/// Slugs of the first `max` playlists listed, skipping those without one.
pub open spec fn slugs(ps: Seq<Json>) -> Seq<Seq<char>>
    decreases ps.len(),
{
    if ps.len() == 0 {
        Seq::empty()
    } else {
        let r = slugs(ps.drop_last());
        match json::as_str(json::field(Some(ps.last()), "slug"@)) {
            Some(s) => r.push(s),
            None => r,
        }
    }
}

/// Slugs of the first `max` playlists of a playlists answer.
pub fn playlist_slugs(v: &Json, max: usize) -> (r: Vec<String>)
    ensures
        text::views(r@) == match data_of(*v) {
            Some(ps) => slugs(ps.take(if max < ps.len() {
                max as int
            } else {
                ps.len() as int
            })),
            None => Seq::empty(),
        },
{
    let mut out: Vec<String> = Vec::new();
    assert(text::views(out@) =~= Seq::<Seq<char>>::empty());
    if let Some(ps) = json::array_in(v.get("data")) {
        let n = if max < ps.len() {
            max
        } else {
            ps.len()
        };
        let mut i: usize = 0;
        assert(ps@.take(0) =~= Seq::<Json>::empty());
        while i < n
            invariant
                n <= ps@.len(),
                i <= n,
                text::views(out@) == slugs(ps@.take(i as int)),
            decreases n - i,
        {
            let ghost before = out@;
            if let Some(s) = json::str_in(ps[i].get("slug")) {
                out.push(s.to_owned());
            }
            proof {
                assert(ps@.take(i + 1).drop_last() =~= ps@.take(i as int));
                assert(text::views(before.push(out@.last())) =~= text::views(before).push(
                    out@.last()@,
                ));
            }
            i = i + 1;
        }
    }
    out
}

// ---------------------------------------------------------------------------
// Cloudcast lookup
// ---------------------------------------------------------------------------

/// The GraphQL query that looks a cloudcast up.
pub open spec fn lookup_query(user: Seq<char>, slug: Seq<char>) -> Seq<char> {
    "{cloudcastLookup(lookup:{username:\""@ + user + "\",slug:\""@ + slug
        + "\"}){name owner{displayName username} isExclusive restrictedReason audioLength streamInfo{url hlsUrl dashUrl}}}"@
}

/// Builds the GraphQL `cloudcastLookup` query for a user's cloudcast.
pub fn cloudcast_query(user: &str, slug: &str) -> (r: String)
    ensures
        r@ == lookup_query(user@, slug@),
{
    let mut q = "{cloudcastLookup(lookup:{username:\"".to_owned();
    push_str(&mut q, user);
    push_str(&mut q, "\",slug:\"");
    push_str(&mut q, slug);
    push_str(
        &mut q,
        "\"}){name owner{displayName username} isExclusive restrictedReason audioLength streamInfo{url hlsUrl dashUrl}}}",
    );
    q
}

/// The cloudcast of a lookup answer (`/data/cloudcastLookup`, not null).
pub fn cloudcast_of(resp: &Json) -> (r: Result<&Json, ProviderError>)
    ensures
        ({
            let c = json::field(json::field(Some(*resp), "data"@), "cloudcastLookup"@);
            &&& c is Some && !json::is_null(c) ==> (r matches Ok(x) && c == Some(*x))
            &&& (c is None || json::is_null(c)) ==> (r matches Err(e) && providers::is_unavailable(
                e,
                "cloudcast introuvable"@,
            ))
        }),
{
    match json::get_in(resp.get("data"), "cloudcastLookup") {
        Some(c) => if c.is_null() {
            Err(ProviderError::Unavailable("cloudcast introuvable".to_owned()))
        } else {
            Ok(c)
        },
        None => Err(ProviderError::Unavailable("cloudcast introuvable".to_owned())),
    }
}

/// Message for restricted content.
pub open spec fn restricted_message(reason: Seq<char>) -> Seq<char> {
    "contenu restreint Mixcloud ("@ + reason + ")"@
}

/// Refuses a cloudcast that carries a `restrictedReason`.
pub fn check_restriction(cc: &Json) -> (r: Result<(), ProviderError>)
    ensures
        match json::as_str(json::field(Some(*cc), "restrictedReason"@)) {
            Some(reason) => r matches Err(e) && providers::is_unavailable(
                e,
                restricted_message(reason),
            ),
            None => r is Ok,
        },
{
    match json::str_in(cc.get("restrictedReason")) {
        Some(reason) => {
            let mut m = "contenu restreint Mixcloud (".to_owned();
            push_str(&mut m, reason);
            push_str(&mut m, ")");
            Err(ProviderError::Unavailable(m))
        },
        None => Ok(()),
    }
}

/// The unified track of a GraphQL cloudcast: missing names fall back on
/// the slug and the username.
pub open spec fn cloudcast_track(cc: Json, user: Seq<char>, slug: Seq<char>) -> TrackView {
    let o = Some(cc);
    TrackView {
        platform: Platform::Mixcloud,
        id: user + seq!['/'] + slug,
        title: match json::as_str(json::field(o, "name"@)) {
            Some(n) => n,
            None => slug,
        },
        artist: match json::as_str(json::field(json::field(o, "owner"@), "displayName"@)) {
            Some(a) => a,
            None => user,
        },
        permalink: "https://www.mixcloud.com/"@ + user + seq!['/'] + slug + seq!['/'],
        duration_ms: seconds_to_ms(json::as_u64(json::field(o, "audioLength"@))),
    }
}

/// Builds the unified track from a GraphQL cloudcast object.
pub fn track_from_cc(cc: &Json, user: &str, slug: &str) -> (r: Track)
    requires
        ms_fits(json::as_u64(json::field(Some(*cc), "audioLength"@))),
    ensures
        r@ == cloudcast_track(*cc, user@, slug@),
{
    let title = match json::str_in(cc.get("name")) {
        Some(n) => n.to_owned(),
        None => slug.to_owned(),
    };
    let artist = match json::str_in(json::get_in(cc.get("owner"), "displayName")) {
        Some(a) => a.to_owned(),
        None => user.to_owned(),
    };
    let duration_ms = ms_of(json::u64_in(cc.get("audioLength")));
    let mut id = user.to_owned();
    push_str(&mut id, "/");
    push_str(&mut id, slug);
    let mut permalink = "https://www.mixcloud.com/".to_owned();
    push_str(&mut permalink, user);
    push_str(&mut permalink, "/");
    push_str(&mut permalink, slug);
    push_str(&mut permalink, "/");
    proof {
        reveal_strlit("/");
    }
    let t = Track { platform: Platform::Mixcloud, id, title, artist, permalink, duration_ms };
    proof {
        assert(t@.id =~= user@ + seq!['/'] + slug@);
        assert(t@.permalink =~= "https://www.mixcloud.com/"@ + user@ + seq!['/'] + slug@ + seq![
            '/',
        ]);
    }
    t
}

/// The deciphered text of a non-empty `streamInfo` string field.
pub open spec fn stream_field(si: Option<Json>, key: Seq<char>) -> Option<Seq<char>> {
    match json::as_str(json::field(si, key)) {
        Some(enc) => if enc.len() > 0 {
            decrypted(enc)
        } else {
            None
        },
        None => None,
    }
}

fn stream_field_exec(si: &Json, key: &str) -> (r: Option<String>)
    ensures
        match stream_field(Some(*si), key@) {
            Some(s) => r matches Some(x) && x@ == s,
            None => r is None,
        },
{
    match json::str_in(si.get(key)) {
        Some(enc) => {
            let cs = chars_of(enc);
            if cs.len() > 0 {
                decrypt(enc)
            } else {
                None
            }
        },
        None => None,
    }
}

/// How to play a cloudcast: its deciphered progressive `url` when there is
/// one, else its deciphered `hlsUrl` (to unfold into segments).
pub fn stream_plan(cc: &Json) -> (r: Result<StreamPlan, ProviderError>)
    ensures
        ({
            let si = json::field(Some(*cc), "streamInfo"@);
            &&& (si is None || json::is_null(si)) ==> (r matches Err(e) && providers::is_unavailable(
                e,
                "pas de streamInfo (exclusif ou supprimé)"@,
            ))
            &&& (si is Some && !json::is_null(si)) ==> match stream_field(si, "url"@) {
                Some(u) => r matches Ok(StreamPlan::Direct(src)) && src.kind matches StreamKind::Progressive(x)
                    && x@ == u && src.container == container_for_url(u),
                None => match stream_field(si, "hlsUrl"@) {
                    Some(h) => r matches Ok(StreamPlan::Hls(p, c)) && p@ == h && c == Container::Mp4,
                    None => r matches Err(e) && providers::is_unavailable(
                        e,
                        "aucune URL de flux exploitable"@,
                    ),
                },
            }
        }),
{
    let si = match cc.get("streamInfo") {
        Some(si) => if si.is_null() {
            return Err(
                ProviderError::Unavailable("pas de streamInfo (exclusif ou supprimé)".to_owned()),
            );
        } else {
            si
        },
        None => return Err(
            ProviderError::Unavailable("pas de streamInfo (exclusif ou supprimé)".to_owned()),
        ),
    };
    if let Some(dec) = stream_field_exec(si, "url") {
        let container = container_from_url(dec.as_str());
        return Ok(StreamPlan::Direct(StreamSource { kind: StreamKind::Progressive(dec), container }));
    }
    if let Some(dec) = stream_field_exec(si, "hlsUrl") {
        return Ok(StreamPlan::Hls(dec, Container::Mp4));
    }
    Err(ProviderError::Unavailable("aucune URL de flux exploitable".to_owned()))
}

/// First step of unfolding a Mixcloud HLS playlist (see [`hls::expand_first`]).
pub fn expand_first(text: &str, url: &str) -> (r: Result<hls::HlsNext, ProviderError>)
    ensures
        hls::encrypted(text@) ==> (r matches Err(e) && providers::is_unavailable(
            e,
            "flux HLS chiffré non supporté"@,
        )),
        !hls::encrypted(text@) && !hls::is_master(text@) ==> (r matches Ok(hls::HlsNext::Segments(v))
            && text::views(v@) == hls::uris_of(url@, hls::lines(text@))),
        !hls::encrypted(text@) && hls::is_master(text@) && hls::uris_of(url@, hls::lines(text@)).len()
            > 0 ==> (r matches Ok(hls::HlsNext::Variant(u)) && u@ == hls::uris_of(
            url@,
            hls::lines(text@),
        )[0]),
        !hls::encrypted(text@) && hls::is_master(text@) && hls::uris_of(url@, hls::lines(text@)).len()
            == 0 ==> (r matches Err(e) && providers::is_malformed(e, "master m3u8 vide"@)),
{
    hls::expand_first(text, url, "flux HLS chiffré non supporté")
}

// ---------------------------------------------------------------------------
// Properties of URL parsing
// ---------------------------------------------------------------------------

/// A usable user name or slug: non-empty, and free of `/`, `?` and `#`.
pub open spec fn clean_part(p: Seq<char>) -> bool {
    p.len() > 0 && forall|i: int| 0 <= i < p.len() ==> p[i] != '/' && p[i] != '?' && p[i] != '#'
}

/// The characters of the user names and slugs Mixcloud builds.
pub open spec fn slug_char(c: char) -> bool {
    text::is_ascii_alnum(c) || c == '-' || c == '_'
}

proof fn lemma_query_free(p: Seq<char>, j: int)
    requires
        0 <= j <= p.len(),
    ensures
        forall|i: int| j <= i < query_start(p, j) ==> p[i] != '?' && p[i] != '#',
        (forall|i: int| j <= i < p.len() ==> p[i] != '?' && p[i] != '#') ==> query_start(p, j)
            == p.len(),
    decreases p.len() - j,
{
    if j < p.len() && p[j] != '?' && p[j] != '#' {
        lemma_query_free(p, j + 1);
    }
}

proof fn lemma_non_empty(ps: Seq<Seq<char>>)
    ensures
        forall|k: int|
            0 <= k < non_empty(ps).len() ==> (#[trigger] non_empty(ps)[k]).len() > 0
                && ps.contains(non_empty(ps)[k]),
    decreases ps.len(),
{
    if ps.len() > 0 {
        let d = ps.drop_last();
        lemma_non_empty(d);
        assert forall|k: int| 0 <= k < non_empty(ps).len() implies (
        #[trigger] non_empty(ps)[k]).len() > 0 && ps.contains(non_empty(ps)[k]) by {
            if k < non_empty(d).len() {
                let x = non_empty(d)[k];
                let i = choose|i: int| 0 <= i < d.len() && d[i] == x;
                assert(ps[i] == x);
            } else {
                assert(ps[ps.len() - 1] == ps.last());
            }
        }
    }
}

/// Whenever a Mixcloud URL is understood, its user name and slug are
/// non-empty and hold no `/`, `?` or `#`.
pub proof fn law_url_parts_clean(url: Seq<char>)
    ensures
        url_parts(url) matches Some((a, b)) ==> clean_part(a) && clean_part(b),
{
    if let Some(after) = after_host(url) {
        let q = before_query(after);
        lemma_query_start(after, 0);
        lemma_query_free(after, 0);
        let sp = text::split_char(q, '/');
        text::lemma_split_char_pieces(q, '/');
        lemma_non_empty(sp);
        let ne = non_empty(sp);
        if ne.len() >= 2 {
            assert forall|k: int| 0 <= k < 2 implies clean_part(#[trigger] ne[k]) by {
                let x = ne[k];
                let m = choose|m: int| 0 <= m < sp.len() && sp[m] == x;
                assert forall|i: int| 0 <= i < x.len() implies x[i] != '/' && x[i] != '?' && x[i]
                    != '#' by {
                    assert(sp[m][i] == x[i]);
                    let n = choose|n: int| 0 <= n < q.len() && q[n] == x[i];
                    assert(q[n] == after[n]);
                }
            }
        }
    }
}

/// The canonical page URL of a cloudcast parses back into its user name and
/// slug.
pub proof fn law_url_parts_round_trip(u: Seq<char>, s: Seq<char>)
    requires
        u.len() > 0,
        s.len() > 0,
        forall|i: int| 0 <= i < u.len() ==> slug_char(#[trigger] u[i]),
        forall|i: int| 0 <= i < s.len() ==> slug_char(#[trigger] s[i]),
    ensures
        url_parts("https://www.mixcloud.com/"@ + u + seq!['/'] + s + seq!['/']) == Some((u, s)),
{
    reveal_strlit("https://www.mixcloud.com/");
    let pre = "https://www.mixcloud.com/"@;
    let tail = u + seq!['/'] + s + seq!['/'];
    let url = pre + u + seq!['/'] + s + seq!['/'];
    assert(url =~= pre + tail);
    let mk = host_marker();
    // the host marker sits right after "https://www."
    assert(url.subrange(12, 25) =~= mk);
    assert forall|j: int| 0 <= j < 12 implies !text::matches_at(url, mk, j) by {
        assert(url[j] == pre[j]);
        if text::matches_at(url, mk, j) {
            assert(url.subrange(j, j + 13)[0] == url[j]);
        }
    }
    assert(mk.len() == 13);
    assert(text::matches_at(url, mk, 12));
    text::lemma_find_from(url, mk, 0);
    assert(text::find(url, mk) == Some(12int));
    // no second marker: the tail holds no '.'
    assert forall|i: int| 0 <= i < tail.len() implies tail[i] != '.' && tail[i] != '?' && tail[i]
        != '#' by {
        if i < u.len() {
            assert(tail[i] == u[i]);
        } else if i == u.len() {
        } else if i < u.len() + 1 + s.len() {
            assert(tail[i] == s[i - u.len() - 1]);
        }
    }
    text::lemma_find_from(url, mk, 25);
    if let Some(k) = text::find_from(url, mk, 25) {
        assert(url.subrange(k, k + 13)[8] == url[k + 8]);
        assert(url[k + 8] == tail[k + 8 - 25]);
    }
    assert(after_host(url) == Some(tail)) by {
        assert(url.subrange(25, url.len() as int) =~= tail);
    }
    lemma_query_free(tail, 0);
    assert(before_query(tail) =~= tail);
    // the pieces of the tail
    assert forall|i: int| 0 <= i < u.len() implies u[i] != '/' by {
        assert(slug_char(u[i]));
    }
    assert forall|i: int| 0 <= i < s.len() implies s[i] != '/' by {
        assert(slug_char(s[i]));
    }
    let e = Seq::<char>::empty();
    text::lemma_split_char_free(e, u, '/');
    assert(e + u =~= u);
    text::lemma_split_char_sep(u, '/');
    text::lemma_split_char_free(u + seq!['/'], s, '/');
    text::lemma_split_char_sep(u + seq!['/'] + s, '/');
    let sp = text::split_char(tail, '/');
    assert(sp =~= seq![u, s, e]);
    assert(sp.drop_last() =~= seq![u, s]);
    assert(seq![u, s].drop_last() =~= seq![u]);
    assert(seq![u].drop_last() =~= Seq::<Seq<char>>::empty());
    assert(non_empty(Seq::<Seq<char>>::empty()) =~= Seq::<Seq<char>>::empty());
    assert(non_empty(seq![u]) =~= seq![u]);
    assert(non_empty(seq![u, s]) =~= seq![u, s]);
    assert(sp.last() == e);
    assert(non_empty(sp) =~= seq![u, s]);
}

} // verus!

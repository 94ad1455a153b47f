//! SoundCloud provider: reading the public `api-v2` answers and the site's
//! JavaScript bundles (where the anonymous `client_id` is found).
//!
//! Pipeline: client_id → `/resolve` → transcoding choice → signed URL →
//! progressive (direct mp3) or HLS (segments). The requests themselves are
//! made by the caller; this module decides what to do with each answer.
use vstd::prelude::*;
use crate::json::{self, Json};
use crate::model::{self, Platform, Track, TrackView};
use crate::providers::{self, hls, Container, ProviderError, StreamKind, StreamPlan, StreamSource};
use crate::http::HttpError;
use crate::text;
use crate::text::{
    chars_of, contains_str, copy_range, ends_with_str, find_exec, is_ascii_alnum_exec,
    push_signed_decimal, push_str, string_of, string_of_range, trim_exec,
};

verus! {

// ---------------------------------------------------------------------------
// Tracks
// ---------------------------------------------------------------------------

/// The text of an optional JSON string, or the empty text.
pub open spec fn text_or_empty(v: Option<Json>) -> Seq<char> {
    match json::as_str(v) {
        Some(s) => s,
        None => Seq::empty(),
    }
}

/// The unified track described by a SoundCloud track object, or `None`
/// when it has no title.
pub open spec fn sc_track(v: Json) -> Option<TrackView> {
    let o = Some(v);
    match json::as_str(json::field(o, "title"@)) {
        None => None,
        Some(title) => Some(
            TrackView {
                platform: Platform::SoundCloud,
                id: match json::as_str(json::field(o, "urn"@)) {
                    Some(u) => u,
                    None => match json::as_i64(json::field(o, "id"@)) {
                        Some(i) => text::signed_decimal(i as int),
                        None => Seq::empty(),
                    },
                },
                title: title,
                artist: match json::as_str(json::field(json::field(o, "user"@), "username"@)) {
                    Some(a) => a,
                    None => "Inconnu"@,
                },
                permalink: text_or_empty(json::field(o, "permalink_url"@)),
                duration_ms: json::as_u64(json::field(o, "duration"@)),
            },
        ),
    }
}

/// Builds the unified track from a SoundCloud track object.
pub fn track_from_json(v: &Json) -> (r: Result<Track, ProviderError>)
    ensures
        match sc_track(*v) {
            Some(t) => r matches Ok(x) && x@ == t,
            None => r matches Err(e) && providers::is_malformed(e, "titre manquant"@),
        },
        r matches Ok(x) ==> json::as_str(json::field(Some(*v), "title"@)) == Some(x.title@),
        r matches Ok(x) ==> (json::as_str(json::field(Some(*v), "permalink_url"@)) matches Some(p)
            ==> x.permalink@ == p),
        r matches Ok(x) ==> x.duration_ms == json::as_u64(json::field(Some(*v), "duration"@)),
{
    let o = Some(v);
    let title = match json::str_in(json::get_in(o, "title")) {
        Some(t) => t.to_owned(),
        None => return Err(ProviderError::Malformed("titre manquant".to_owned())),
    };
    let artist = match json::str_in(json::get_in(json::get_in(o, "user"), "username")) {
        Some(a) => a.to_owned(),
        None => "Inconnu".to_owned(),
    };
    let id = match json::str_in(json::get_in(o, "urn")) {
        Some(u) => u.to_owned(),
        None => match json::i64_in(json::get_in(o, "id")) {
            Some(i) => {
                let mut s = String::new();
                push_signed_decimal(&mut s, i);
                s
            },
            None => String::new(),
        },
    };
    let permalink = match json::str_in(json::get_in(o, "permalink_url")) {
        Some(p) => p.to_owned(),
        None => String::new(),
    };
    let duration_ms = json::u64_in(json::get_in(o, "duration"));
    let t = Track { platform: Platform::SoundCloud, id, title, artist, permalink, duration_ms };
    proof {
        assert(t@ == sc_track(*v)->0);
    }
    Ok(t)
}

/// Tracks described by a list of items, skipping those that are not tracks.
pub open spec fn tracks_in(items: Seq<Json>, unwrap: bool) -> Seq<TrackView>
    decreases items.len(),
{
    if items.len() == 0 {
        Seq::empty()
    } else {
        let r = tracks_in(items.drop_last(), unwrap);
        let it = items.last();
        let t = if unwrap {
            match json::field(Some(it), "track"@) {
                Some(inner) => inner,
                None => it,
            }
        } else {
            it
        };
        match sc_track(t) {
            Some(tv) => r.push(tv),
            None => r,
        }
    }
}

fn push_tracks(out: &mut Vec<Track>, items: &Vec<Json>, unwrap: bool)
    ensures
        model::track_views(final(out)@) == model::track_views(old(out)@) + tracks_in(
            items@,
            unwrap,
        ),
{
    let ghost start = model::track_views(out@);
    let mut i: usize = 0;
    assert(items@.take(0) =~= Seq::<Json>::empty());
    assert(model::track_views(out@) =~= start + tracks_in(items@.take(0), unwrap));
    while i < items.len()
        invariant
            i <= items@.len(),
            model::track_views(out@) == start + tracks_in(items@.take(i as int), unwrap),
        decreases items@.len() - i,
    {
        let it = &items[i];
        let t = if unwrap {
            match it.get("track") {
                Some(inner) => inner,
                None => it,
            }
        } else {
            it
        };
        let ghost before = out@;
        if let Ok(track) = track_from_json(t) {
            out.push(track);
        }
        proof {
            assert(items@.take(i + 1).drop_last() =~= items@.take(i as int));
            assert(model::track_views(before.push(out@.last())) =~= model::track_views(
                before,
            ).push(out@.last()@));
        }
        i = i + 1;
        assert(model::track_views(out@) =~= start + tracks_in(items@.take(i as int), unwrap));
    }
    assert(items@.take(items@.len() as int) =~= items@);
}

/// Tracks of an `api-v2` collection: its items are tracks or `{track: …}`
/// wrappers; an answer without a collection gives no track.
pub fn collection_tracks(v: &Json) -> (r: Vec<Track>)
    ensures
        model::track_views(r@) == match json::as_array(json::field(Some(*v), "collection"@)) {
            Some(items) => tracks_in(items, true),
            None => Seq::empty(),
        },
{
    let mut out: Vec<Track> = Vec::new();
    match json::array_in(v.get("collection")) {
        Some(items) => push_tracks(&mut out, items, true),
        None => {},
    }
    assert(model::track_views(Seq::<Track>::empty()) =~= Seq::<TrackView>::empty());
    out
}

/// Items of a search answer that are tracks (`kind == "track"`).
pub open spec fn track_items(items: Seq<Json>) -> Seq<Json>
    decreases items.len(),
{
    if items.len() == 0 {
        Seq::empty()
    } else {
        let r = track_items(items.drop_last());
        if json::as_str(json::field(Some(items.last()), "kind"@)) == Some("track"@) {
            r.push(items.last())
        } else {
            r
        }
    }
}

/// Does the JSON value hold the string `s`?
fn str_is(v: Option<&Json>, s: &str) -> (b: bool)
    ensures
        b == (json::as_str(json::opt(v)) == Some(s@)),
{
    match json::str_in(v) {
        Some(x) => json::same_text(x, s),
        None => false,
    }
}

/// Tracks of a search answer: the items of kind `track` that describe a
/// track; an answer without a collection is malformed.
pub fn tracks_from_search(v: &Json) -> (r: Result<Vec<Track>, ProviderError>)
    ensures
        match json::as_array(json::field(Some(*v), "collection"@)) {
            Some(items) => r matches Ok(ts) && model::track_views(ts@) == tracks_in(
                track_items(items),
                false,
            ),
            None => r matches Err(e) && providers::is_malformed(e, "recherche sans collection"@),
        },
{
    let items = match json::array_in(v.get("collection")) {
        Some(items) => items,
        None => return Err(ProviderError::Malformed("recherche sans collection".to_owned())),
    };
    let mut out: Vec<Track> = Vec::new();
    let mut i: usize = 0;
    assert(items@.take(0) =~= Seq::<Json>::empty());
    assert(model::track_views(out@) =~= tracks_in(track_items(items@.take(0)), false));
    while i < items.len()
        invariant
            i <= items@.len(),
            model::track_views(out@) == tracks_in(track_items(items@.take(i as int)), false),
        decreases items@.len() - i,
    {
        let it = &items[i];
        let ghost before = out@;
        proof {
            assert(items@.take(i + 1).drop_last() =~= items@.take(i as int));
        }
        if str_is(it.get("kind"), "track") {
            if let Ok(track) = track_from_json(it) {
                out.push(track);
            }
            proof {
                let ti = track_items(items@.take(i as int));
                assert(track_items(items@.take(i + 1)) == ti.push(*it));
                assert(ti.push(*it).drop_last() =~= ti);
                assert(model::track_views(before.push(out@.last())) =~= model::track_views(
                    before,
                ).push(out@.last()@));
            }
        }
        i = i + 1;
    }
    assert(items@.take(items@.len() as int) =~= items@);
    Ok(out)
}

/// Message of the error for a profile URL that is not a user.
pub open spec fn not_a_profile(handle: Seq<char>) -> Seq<char> {
    "« "@ + handle + " » n'est pas un profil SoundCloud"@
}

/// The numeric id of a resolved profile.
pub fn user_id_from(v: &Json, handle: &str) -> (r: Result<i64, ProviderError>)
    ensures
        json::as_str(json::field(Some(*v), "kind"@)) != Some("user"@) ==> (r matches Err(e)
            && providers::is_unavailable(e, not_a_profile(handle@))),
        json::as_str(json::field(Some(*v), "kind"@)) == Some("user"@) ==> match json::as_i64(
            json::field(Some(*v), "id"@),
        ) {
            Some(id) => r == Ok::<i64, ProviderError>(id),
            None => r matches Err(e) && providers::is_malformed(e, "profil sans id"@),
        },
{
    if !str_is(v.get("kind"), "user") {
        let mut m = "« ".to_owned();
        push_str(&mut m, handle);
        push_str(&mut m, " » n'est pas un profil SoundCloud");
        return Err(ProviderError::Unavailable(m));
    }
    match json::i64_in(v.get("id")) {
        Some(id) => Ok(id),
        None => Err(ProviderError::Malformed("profil sans id".to_owned())),
    }
}

/// Tracks of every playlist of a playlists answer, flattened in order.
pub open spec fn playlists_tracks(ps: Seq<Json>) -> Seq<TrackView>
    decreases ps.len(),
{
    if ps.len() == 0 {
        Seq::empty()
    } else {
        playlists_tracks(ps.drop_last()) + match json::as_array(
            json::field(Some(ps.last()), "tracks"@),
        ) {
            Some(ts) => tracks_in(ts, false),
            None => Seq::empty(),
        }
    }
}

/// The tracks of a user's playlists answer, flattened in order.
pub fn playlist_tracks(v: &Json) -> (r: Vec<Track>)
    ensures
        model::track_views(r@) == match json::as_array(json::field(Some(*v), "collection"@)) {
            Some(ps) => playlists_tracks(ps),
            None => Seq::empty(),
        },
{
    let mut out: Vec<Track> = Vec::new();
    assert(model::track_views(out@) =~= Seq::<TrackView>::empty());
    if let Some(ps) = json::array_in(v.get("collection")) {
        let mut i: usize = 0;
        assert(ps@.take(0) =~= Seq::<Json>::empty());
        while i < ps.len()
            invariant
                i <= ps@.len(),
                model::track_views(out@) == playlists_tracks(ps@.take(i as int)),
            decreases ps@.len() - i,
        {
            proof {
                assert(ps@.take(i + 1).drop_last() =~= ps@.take(i as int));
            }
            if let Some(ts) = json::array_in(ps[i].get("tracks")) {
                push_tracks(&mut out, ts, false);
            } else {
                assert(model::track_views(out@) =~= playlists_tracks(ps@.take(i as int))
                    + Seq::<TrackView>::empty());
            }
            i = i + 1;
        }
        assert(ps@.take(ps@.len() as int) =~= ps@);
    }
    out
}

/// A resolved URL is playable when it has media or is of kind `track`.
pub open spec fn is_playable(v: Json) -> bool {
    json::field(Some(v), "media"@) is Some || json::as_str(json::field(Some(v), "kind"@)) == Some(
        "track"@,
    )
}

/// Checks that a `/resolve` answer points to a playable track.
pub fn check_resolved(v: &Json) -> (r: Result<(), ProviderError>)
    ensures
        is_playable(*v) ==> r is Ok,
        !is_playable(*v) ==> (r matches Err(e) && providers::is_unavailable(
            e,
            "l'URL ne pointe pas vers un morceau jouable"@,
        )),
{
    if v.get("media").is_none() && !str_is(v.get("kind"), "track") {
        return Err(
            ProviderError::Unavailable("l'URL ne pointe pas vers un morceau jouable".to_owned()),
        );
    }
    Ok(())
}

/// An HTTP 401 or 403: the cached client_id has expired.
pub open spec fn is_stale_client(e: ProviderError) -> bool {
    e matches ProviderError::Http(HttpError::Status(c, _)) && (c == 401 || c == 403)
}

/// Whether a `/resolve` failure calls for a fresh client_id and one retry.
pub fn is_stale_client_error(e: &ProviderError) -> (b: bool)
    ensures
        b == is_stale_client(*e),
{
    match e {
        ProviderError::Http(HttpError::Status(c, _)) => *c == 401 || *c == 403,
        _ => false,
    }
}

/// Whether `/resolve` is tried again after failing with `e` on attempt
/// `attempt` (counted from 0): once, and only when the client_id was refused.
pub open spec fn retries(attempt: nat, e: ProviderError) -> bool {
    attempt == 0 && is_stale_client(e)
}

/// Decides whether a failed `/resolve` is retried with a fresh client_id.
pub fn retry_resolve(attempt: u32, e: &ProviderError) -> (b: bool)
    ensures
        b == retries(attempt as nat, *e),
{
    attempt == 0 && is_stale_client_error(e)
}

/// A refused client_id is retried exactly once; no other failure is retried.
pub proof fn law_single_retry(attempt: nat, e: ProviderError)
    ensures
        retries(attempt, e) ==> attempt == 0,
        retries(0, e) <==> is_stale_client(e),
        !is_stale_client(e) ==> !retries(attempt, e),
{
}

// ---------------------------------------------------------------------------
// Choosing a stream
// ---------------------------------------------------------------------------

pub open spec fn protocol(t: Json) -> Seq<char> {
    text_or_empty(json::field(json::field(Some(t), "format"@), "protocol"@))
}

pub open spec fn mime_type(t: Json) -> Seq<char> {
    text_or_empty(json::field(json::field(Some(t), "format"@), "mime_type"@))
}

/// A DRM transcoding (`cbc/ctr-encrypted-hls`): it cannot be played.
pub open spec fn is_drm(t: Json) -> bool {
    text::contains(protocol(t), "encrypted"@)
}

/// Preference of a transcoding: progressive > HLS; mp3 > aac > opus;
/// previews (snipped) are heavily penalised.
pub open spec fn score(t: Json) -> int {
    let proto = protocol(t);
    let mime = mime_type(t);
    let preset = text_or_empty(json::field(Some(t), "preset"@));
    let snipped = json::as_bool(json::field(Some(t), "snipped"@)) == Some(true);
    (if proto == "progressive"@ {
        100int
    } else if proto == "hls"@ {
        50int
    } else {
        0int
    }) + (if text::contains(mime, "mpeg"@) || text::contains(preset, "mp3"@) {
        30int
    } else if text::contains(mime, "mp4"@) || text::contains(mime, "aac"@) || text::contains(
        preset,
        "aac"@,
    ) {
        20int
    } else if text::contains(mime, "opus"@) {
        5int
    } else {
        0int
    }) - (if snipped {
        200int
    } else {
        0int
    })
}

/// The text of an optional JSON string, or the empty text.
fn text_in<'a>(v: Option<&'a Json>) -> (r: &'a str)
    ensures
        r@ == text_or_empty(json::opt(v)),
{
    proof {
        reveal_strlit("");
    }
    match json::str_in(v) {
        Some(s) => s,
        None => "",
    }
}

/// Scores a transcoding (see [`score`]).
pub fn score_transcoding(t: &Json) -> (r: i32)
    ensures
        r == score(*t),
{
    let format = t.get("format");
    let proto = text_in(json::get_in(format, "protocol"));
    let mime = chars_of(text_in(json::get_in(format, "mime_type")));
    let preset = chars_of(text_in(t.get("preset")));
    let snipped = match json::bool_in(t.get("snipped")) {
        Some(b) => b,
        None => false,
    };
    let mut score: i32 = 0;
    if json::same_text(proto, "progressive") {
        score = score + 100;
    } else if json::same_text(proto, "hls") {
        score = score + 50;
    }
    if contains_str(mime.as_slice(), "mpeg") || contains_str(preset.as_slice(), "mp3") {
        score = score + 30;
    } else if contains_str(mime.as_slice(), "mp4") || contains_str(mime.as_slice(), "aac")
        || contains_str(preset.as_slice(), "aac") {
        score = score + 20;
    } else if contains_str(mime.as_slice(), "opus") {
        score = score + 5;
    }
    if snipped {
        score = score - 200;
    }
    score
}

/// The transcodings listed by a resolved track.
pub fn transcodings_of(track: &Json) -> (r: Result<&Vec<Json>, ProviderError>)
    ensures
        match json::as_array(json::field(json::field(Some(*track), "media"@), "transcodings"@)) {
            Some(ts) => r matches Ok(v) && v@ == ts,
            None => r matches Err(e) && providers::is_unavailable(e, "aucun flux disponible"@),
        },
{
    match json::array_in(json::get_in(track.get("media"), "transcodings")) {
        Some(ts) => Ok(ts),
        None => Err(ProviderError::Unavailable("aucun flux disponible".to_owned())),
    }
}

/// `i` is tried before `j`: a better score, or the same score and listed first.
pub open spec fn ranks_before(ts: Seq<Json>, i: int, j: int) -> bool {
    score(ts[i]) > score(ts[j]) || (score(ts[i]) == score(ts[j]) && i < j)
}

/// The order in which to try the transcodings.
pub struct Ranking {
    /// Indices of the playable transcodings, best first.
    pub order: Vec<usize>,
    /// Whether some transcoding was skipped because of DRM.
    pub has_drm: bool,
}

/// Playable transcodings sorted by decreasing score (a stable sort: equal
/// scores keep their listed order), and whether DRM variants were skipped.
pub fn rank_transcodings(ts: &Vec<Json>) -> (r: Ranking)
    ensures
        r.has_drm == exists|k: int| 0 <= k < ts@.len() && is_drm(#[trigger] ts@[k]),
        forall|k: int|
            0 <= k < r.order@.len() ==> (#[trigger] r.order@[k] as int) < ts@.len() && !is_drm(
                ts@[r.order@[k] as int],
            ),
        forall|i: int|
            0 <= i < ts@.len() && !is_drm(#[trigger] ts@[i]) ==> r.order@.contains(i as usize),
        forall|a: int, b: int|
            0 <= a < b < r.order@.len() ==> ranks_before(
                ts@,
                r.order@[a] as int,
                r.order@[b] as int,
            ),
{
    let mut order: Vec<usize> = Vec::new();
    let mut keys: Vec<i32> = Vec::new();
    let mut has_drm = false;
    let mut i: usize = 0;
    while i < ts.len()
        invariant
            i <= ts@.len(),
            order@.len() == keys@.len(),
            has_drm == exists|k: int| 0 <= k < i && is_drm(#[trigger] ts@[k]),
            forall|k: int|
                0 <= k < order@.len() ==> (#[trigger] order@[k] as int) < i && !is_drm(
                    ts@[order@[k] as int],
                ) && keys@[k] == score(ts@[order@[k] as int]),
            forall|j: int| 0 <= j < i && !is_drm(#[trigger] ts@[j]) ==> order@.contains(j as usize),
            forall|a: int, b: int|
                0 <= a < b < order@.len() ==> ranks_before(
                    ts@,
                    order@[a] as int,
                    order@[b] as int,
                ),
        decreases ts@.len() - i,
    {
        let t = &ts[i];
        let proto = chars_of(text_in(json::get_in(t.get("format"), "protocol")));
        if contains_str(proto.as_slice(), "encrypted") {
            has_drm = true;
        } else {
            let s = score_transcoding(t);
            // First position holding a worse score.
            let mut p: usize = 0;
            while p < keys.len() && keys[p] >= s
                invariant
                    p <= keys@.len(),
                    forall|k: int| 0 <= k < p ==> keys@[k] >= s,
                decreases keys@.len() - p,
            {
                p = p + 1;
            }
            let ghost old_order = order@;
            let ghost old_keys = keys@;
            order.insert(p, i);
            keys.insert(p, s);
            proof {
                assert forall|k: int| 0 <= k < order@.len() implies (#[trigger] order@[k] as int)
                    < i + 1 && !is_drm(ts@[order@[k] as int]) && keys@[k] == score(
                    ts@[order@[k] as int],
                ) by {
                    if k > p {
                        assert(order@[k] == old_order[k - 1]);
                    }
                }
                assert forall|a: int, b: int| 0 <= a < b < order@.len() implies ranks_before(
                    ts@,
                    order@[a] as int,
                    order@[b] as int,
                ) by {
                    if b < p {
                    } else if b == p {
                        assert(old_keys[a] >= s);
                    } else if a < p {
                        assert(order@[b] == old_order[b - 1]);
                    } else if a == p {
                        assert(order@[b] == old_order[b - 1]);
                        assert(old_keys[p as int] < s);
                        if b - 1 > p {
                            assert(ranks_before(ts@, old_order[p as int] as int, old_order[b - 1] as int));
                        }
                    } else {
                        assert(order@[a] == old_order[a - 1]);
                        assert(order@[b] == old_order[b - 1]);
                    }
                }
                assert forall|j: int| 0 <= j < i + 1 && !is_drm(#[trigger] ts@[j]) implies order@.contains(
                    j as usize,
                ) by {
                    if j == i {
                        assert(order@[p as int] == i);
                    } else {
                        let k = choose|k: int| 0 <= k < old_order.len() && old_order[k] == j as usize;
                        if k < p {
                            assert(order@[k] == j as usize);
                        } else {
                            assert(order@[k + 1] == j as usize);
                        }
                    }
                }
            }
        }
        i = i + 1;
    }
    Ranking { order, has_drm }
}

/// The error reported when no transcoding could be played: DRM when some
/// variant was protected, else the last failure, else "no playable stream".
pub fn no_stream_error(has_drm: bool, last: Option<ProviderError>) -> (r: ProviderError)
    ensures
        has_drm ==> providers::is_unavailable(r, "titre protégé (DRM SoundCloud) — non lisible"@),
        !has_drm && last is Some ==> Some(r) == last,
        !has_drm && last is None ==> providers::is_unavailable(r, "aucun flux jouable"@),
{
    if has_drm {
        ProviderError::Unavailable("titre protégé (DRM SoundCloud) — non lisible".to_owned())
    } else {
        match last {
            Some(e) => e,
            None => ProviderError::Unavailable("aucun flux jouable".to_owned()),
        }
    }
}

/// What to request for one transcoding.
pub struct TranscodingRequest {
    /// Endpoint that signs the stream URL.
    pub endpoint: String,
    pub container: Container,
    /// Progressive download (else HLS); a missing protocol means progressive.
    pub progressive: bool,
}

/// Reads the endpoint, container and protocol of a transcoding.
pub fn transcoding_request(t: &Json) -> (r: Result<TranscodingRequest, ProviderError>)
    ensures
        match json::as_str(json::field(Some(*t), "url"@)) {
            Some(u) => r matches Ok(q) && q.endpoint@ == u && q.container
                == providers::container_of_mime(mime_type(*t)) && q.progressive == (match json::as_str(
                json::field(json::field(Some(*t), "format"@), "protocol"@),
            ) {
                Some(p) => p == "progressive"@,
                None => true,
            }),
            None => r matches Err(e) && providers::is_malformed(e, "transcoding sans url"@),
        },
{
    let endpoint = match json::str_in(t.get("url")) {
        Some(u) => u.to_owned(),
        None => return Err(ProviderError::Malformed("transcoding sans url".to_owned())),
    };
    let format = t.get("format");
    let mime = text_in(json::get_in(format, "mime_type"));
    let progressive = match json::str_in(json::get_in(format, "protocol")) {
        Some(p) => json::same_text(p, "progressive"),
        None => true,
    };
    Ok(TranscodingRequest { endpoint, container: Container::from_mime(mime), progressive })
}

/// The stream URL of a signing answer.
pub fn signed_stream_url(signed: &Json) -> (r: Result<String, ProviderError>)
    ensures
        match json::as_str(json::field(Some(*signed), "url"@)) {
            Some(u) => r matches Ok(s) && s@ == u,
            None => r matches Err(e) && providers::is_malformed(e, "url signée manquante"@),
        },
{
    match json::str_in(signed.get("url")) {
        Some(u) => Ok(u.to_owned()),
        None => Err(ProviderError::Malformed("url signée manquante".to_owned())),
    }
}

/// How to play a transcoding once its URL is signed: a progressive file is
/// decoded directly, an HLS playlist is unfolded first.
pub fn stream_plan(req: &TranscodingRequest, url: String) -> (r: StreamPlan)
    ensures
        req.progressive ==> (r matches StreamPlan::Direct(src) && src.kind matches StreamKind::Progressive(u)
            && u@ == url@ && src.container == req.container),
        !req.progressive ==> (r matches StreamPlan::Hls(p, c) && p@ == url@ && c == req.container),
{
    if req.progressive {
        StreamPlan::Direct(StreamSource { kind: StreamKind::Progressive(url), container: req.container })
    } else {
        StreamPlan::Hls(url, req.container)
    }
}

/// First step of unfolding a SoundCloud HLS playlist (see [`hls::expand_first`]).
pub fn expand_first(text: &str, url: &str) -> (r: Result<hls::HlsNext, ProviderError>)
    ensures
        hls::encrypted(text@) ==> (r matches Err(e) && providers::is_unavailable(
            e,
            "flux HLS chiffré (AES-128) non supporté"@,
        )),
        !hls::encrypted(text@) && !hls::is_master(text@) ==> (r matches Ok(hls::HlsNext::Segments(v))
            && text::views(v@) == hls::uris_of(url@, hls::lines(text@))),
        !hls::encrypted(text@) && hls::is_master(text@) && hls::uris_of(url@, hls::lines(text@)).len()
            > 0 ==> (r matches Ok(hls::HlsNext::Variant(u)) && u@ == hls::uris_of(
            url@,
            hls::lines(text@),
        )[0]),
        !hls::encrypted(text@) && hls::is_master(text@) && hls::uris_of(url@, hls::lines(text@)).len()
            == 0 ==> (r matches Err(e) && providers::is_malformed(e, "master m3u8 vide"@)),
{
    hls::expand_first(text, url, "flux HLS chiffré (AES-128) non supporté")
}

// ---------------------------------------------------------------------------
// The anonymous client_id
// ---------------------------------------------------------------------------

/// The key that announces a client_id in a JavaScript bundle.
pub open spec fn client_id_key() -> Seq<char> {
    seq!['c', 'l', 'i', 'e', 'n', 't', '_', 'i', 'd']
}

/// First position `>= j` that is an ASCII letter or digit (or the end).
pub open spec fn skip_separators(s: Seq<char>, j: int) -> int
    decreases s.len() - j,
{
    if 0 <= j < s.len() && !text::is_ascii_alnum(s[j]) {
        skip_separators(s, j + 1)
    } else {
        j
    }
}

/// End of the run of ASCII letters and digits starting at `j`.
pub open spec fn alnum_end(s: Seq<char>, j: int) -> int
    decreases s.len() - j,
{
    if 0 <= j < s.len() && text::is_ascii_alnum(s[j]) {
        alnum_end(s, j + 1)
    } else {
        j
    }
}

/// The first client_id announced at or after `from`: after each `client_id`
/// key, the separators (`:`, `=`, quotes, spaces…) are skipped and the
/// following run of letters and digits is taken if it is 32 long.
pub open spec fn client_id_from(js: Seq<char>, from: int) -> Option<Seq<char>>
    decreases js.len() + 1 - from,
{
    if from < 0 || from > js.len() {
        None
    } else {
        match text::find_from(js, client_id_key(), from) {
            None => None,
            Some(p) => {
                proof {
                    text::lemma_find_from(js, client_id_key(), from);
                }
                let i = p + 9;
                let start = skip_separators(js, i);
                let end = alnum_end(js, start);
                if end - start == 32 {
                    Some(js.subrange(start, end))
                } else {
                    client_id_from(js, i)
                }
            },
        }
    }
}

proof fn lemma_skip_separators(s: Seq<char>, j: int)
    requires
        0 <= j <= s.len(),
    ensures
        j <= skip_separators(s, j) <= s.len(),
        skip_separators(s, j) < s.len() ==> text::is_ascii_alnum(s[skip_separators(s, j)]),
        forall|k: int| j <= k < skip_separators(s, j) ==> !text::is_ascii_alnum(s[k]),
    decreases s.len() - j,
{
    if j < s.len() && !text::is_ascii_alnum(s[j]) {
        lemma_skip_separators(s, j + 1);
    }
}

proof fn lemma_alnum_end(s: Seq<char>, j: int)
    requires
        0 <= j <= s.len(),
    ensures
        j <= alnum_end(s, j) <= s.len(),
        alnum_end(s, j) < s.len() ==> !text::is_ascii_alnum(s[alnum_end(s, j)]),
        forall|k: int| j <= k < alnum_end(s, j) ==> text::is_ascii_alnum(s[k]),
    decreases s.len() - j,
{
    if j < s.len() && text::is_ascii_alnum(s[j]) {
        lemma_alnum_end(s, j + 1);
    }
}

/// Looks for a minified `client_id:"<32 letters or digits>"` in a bundle.
pub fn extract_client_id(js: &str) -> (r: Option<String>)
    ensures
        match client_id_from(js@, 0) {
            Some(id) => r matches Some(s) && s@ == id,
            None => r is None,
        },
{
    let cs = chars_of(js);
    let key: [char; 9] = ['c', 'l', 'i', 'e', 'n', 't', '_', 'i', 'd'];
    assert(key@ =~= client_id_key());
    let n = cs.len();
    let mut from: usize = 0;
    while from <= n
        invariant
            n == cs@.len(),
            cs@ == js@,
            key@ == client_id_key(),
            from <= n + 9,
            client_id_from(js@, 0) == client_id_from(js@, from as int),
        decreases n + 10 - from,
    {
        let p = match find_exec(cs.as_slice(), key.as_slice(), from) {
            Some(p) => p,
            None => return None,
        };
        proof {
            text::lemma_find_from(cs@, key@, from as int);
        }
        let i = p + 9;
        let mut j = i;
        proof {
            lemma_skip_separators(cs@, i as int);
        }
        while j < n && !is_ascii_alnum_exec(cs[j])
            invariant
                n == cs@.len(),
                i <= j <= n,
                skip_separators(cs@, i as int) == skip_separators(cs@, j as int),
            decreases n - j,
        {
            j = j + 1;
        }
        let start = j;
        proof {
            lemma_alnum_end(cs@, start as int);
        }
        while j < n && is_ascii_alnum_exec(cs[j])
            invariant
                n == cs@.len(),
                start <= j <= n,
                alnum_end(cs@, start as int) == alnum_end(cs@, j as int),
            decreases n - j,
        {
            j = j + 1;
        }
        if j - start == 32 {
            return Some(string_of_range(cs.as_slice(), start, j));
        }
        from = i;
    }
    None
}

/// The byte length of a text once encoded, as `str::len` returns it.
pub open spec fn byte_len(s: Seq<char>) -> usize {
    vstd::utf8::encode_utf8(s).len() as usize
}

/// A cached client_id is used when, trimmed, it is at least 16 bytes long.
pub fn cached_client_id(cached: &str) -> (r: Option<String>)
    ensures
        byte_len(text::trim(cached@)) >= 16 ==> (r matches Some(s) && s@ == text::trim(cached@)),
        byte_len(text::trim(cached@)) < 16 ==> r is None,
{
    let cs = chars_of(cached);
    let t = trim_exec(cs.as_slice());
    let s = string_of(t.as_slice());
    if s.as_str().len() >= 16 {
        Some(s)
    } else {
        None
    }
}

// ---------------------------------------------------------------------------
// Script URLs of the home page
// ---------------------------------------------------------------------------

/// Value of the HTML attribute `name="…"` in a fragment: the text between
/// the first `name="` and the next `"`.
pub open spec fn attr(fragment: Seq<char>, name: Seq<char>) -> Option<Seq<char>> {
    let needle = name + seq!['=', '"'];
    match text::find(fragment, needle) {
        None => None,
        Some(k) => {
            let start = k + needle.len();
            match text::find_from(fragment, seq!['"'], start) {
                None => None,
                Some(end) => Some(fragment.subrange(start, end)),
            }
        },
    }
}

/// Reads the value of an HTML attribute `name="..."` in a fragment.
fn attr_value(fragment: &[char], name: &str) -> (r: Option<String>)
    ensures
        match attr(fragment@, name@) {
            Some(v) => r matches Some(s) && s@ == v,
            None => r is None,
        },
{
    let mut needle = chars_of(name);
    needle.push('=');
    needle.push('"');
    assert(needle@ =~= name@ + seq!['=', '"']);
    let k = match find_exec(fragment, needle.as_slice(), 0) {
        Some(k) => k,
        None => return None,
    };
    proof {
        text::lemma_find_from(fragment@, needle@, 0);
    }
    let start = k + needle.len();
    let quote: [char; 1] = ['"'];
    assert(quote@ =~= seq!['"']);
    let end = match find_exec(fragment, quote.as_slice(), start) {
        Some(e) => e,
        None => return None,
    };
    proof {
        text::lemma_find_from(fragment@, quote@, start as int);
    }
    Some(string_of_range(fragment, start, end))
}

/// The `<script` opening of the home page.
pub open spec fn script_tag() -> Seq<char> {
    seq!['<', 's', 'c', 'r', 'i', 'p', 't']
}

/// A script URL worth fetching: served by sndcdn and a `.js` file.
pub open spec fn is_bundle(src: Seq<char>) -> bool {
    text::contains(src, "sndcdn.com"@) && text::ends_with(src, ".js"@)
}

/// Bundle URLs of the pieces that start at `pos` (each piece runs up to the
/// next `<script`).
pub open spec fn bundles_from(html: Seq<char>, pos: int) -> Seq<Seq<char>>
    decreases html.len() + 1 - pos,
{
    if pos < 0 || pos > html.len() {
        Seq::empty()
    } else {
        let next = text::find_from(html, script_tag(), pos);
        let end = match next {
            Some(j) => j,
            None => html.len() as int,
        };
        let piece = html.subrange(pos, end);
        let here = match attr(piece, "src"@) {
            Some(src) => if is_bundle(src) {
                seq![src]
            } else {
                Seq::empty()
            },
            None => Seq::empty(),
        };
        match next {
            None => here,
            Some(j) => {
                proof {
                    text::lemma_find_from(html, script_tag(), pos);
                }
                here + bundles_from(html, j + 7)
            },
        }
    }
}

/// The script URLs of the home page (what follows each `<script`), in order.
pub open spec fn bundle_urls(html: Seq<char>) -> Seq<Seq<char>> {
    match text::find(html, script_tag()) {
        None => Seq::empty(),
        Some(i) => bundles_from(html, i + 7),
    }
}

/// Extracts the `<script src="...">` URLs that point to sndcdn bundles.
pub fn find_script_urls(html: &str) -> (r: Vec<String>)
    ensures
        text::views(r@) == bundle_urls(html@),
{
    let cs = chars_of(html);
    let tag: [char; 7] = ['<', 's', 'c', 'r', 'i', 'p', 't'];
    assert(tag@ =~= script_tag());
    let n = cs.len();
    let mut out: Vec<String> = Vec::new();
    let first = match find_exec(cs.as_slice(), tag.as_slice(), 0) {
        Some(i) => i,
        None => {
            assert(text::views(out@) =~= Seq::<Seq<char>>::empty());
            return out;
        },
    };
    proof {
        text::lemma_find_from(cs@, tag@, 0);
    }
    let mut pos = first + 7;
    assert(text::views(out@) =~= Seq::<Seq<char>>::empty());
    loop
        invariant
            n == cs@.len(),
            cs@ == html@,
            tag@ == script_tag(),
            pos <= n,
            text::views(out@) + bundles_from(cs@, pos as int) == bundle_urls(html@),
        decreases n + 1 - pos,
    {
        let next = find_exec(cs.as_slice(), tag.as_slice(), pos);
        proof {
            text::lemma_find_from(cs@, tag@, pos as int);
        }
        let end = match next {
            Some(j) => j,
            None => n,
        };
        let piece = copy_range(cs.as_slice(), pos, end);
        let ghost before = out@;
        if let Some(src) = attr_value(piece.as_slice(), "src") {
            let sc = chars_of(src.as_str());
            if contains_str(sc.as_slice(), "sndcdn.com") && ends_with_str(sc.as_slice(), ".js") {
                out.push(src);
            }
        }
        proof {
            let here = text::views(out@).skip(before.len() as int);
            assert(text::views(out@) =~= text::views(before) + here);
        }
        match next {
            Some(j) => {
                proof {
                    assert(text::views(out@) + bundles_from(cs@, j + 7) =~= text::views(before)
                        + bundles_from(cs@, pos as int));
                }
                pos = j + 7;
            },
            None => {
                proof {
                    assert(text::views(out@) =~= text::views(before) + bundles_from(
                        cs@,
                        pos as int,
                    ));
                }
                return out;
            },
        }
    }
}

// ---------------------------------------------------------------------------
// Properties of the stream preference
// ---------------------------------------------------------------------------

/// The `preset` of a transcoding (empty when absent).
pub open spec fn preset_of(t: Json) -> Seq<char> {
    text_or_empty(json::field(Some(t), "preset"@))
}

/// A preview (`snipped: true`).
pub open spec fn is_snipped(t: Json) -> bool {
    json::as_bool(json::field(Some(t), "snipped"@)) == Some(true)
}

/// An MP3 transcoding: its MIME type names `mpeg` or its preset `mp3`.
pub open spec fn is_mp3(t: Json) -> bool {
    text::contains(mime_type(t), "mpeg"@) || text::contains(preset_of(t), "mp3"@)
}

/// An AAC transcoding (not MP3): MIME type `mp4` or `aac`, or preset `aac`.
pub open spec fn is_aac(t: Json) -> bool {
    !is_mp3(t) && (text::contains(mime_type(t), "mp4"@) || text::contains(mime_type(t), "aac"@)
        || text::contains(preset_of(t), "aac"@))
}

/// An Opus transcoding (neither MP3 nor AAC): MIME type `opus`.
pub open spec fn is_opus(t: Json) -> bool {
    !is_mp3(t) && !is_aac(t) && text::contains(mime_type(t), "opus"@)
}

/// Same delivery: same protocol and both previews or both full.
pub open spec fn same_delivery(a: Json, b: Json) -> bool {
    protocol(a) == protocol(b) && is_snipped(a) == is_snipped(b)
}

/// Same codec class.
pub open spec fn same_codec(a: Json, b: Json) -> bool {
    is_mp3(a) == is_mp3(b) && is_aac(a) == is_aac(b) && is_opus(a) == is_opus(b)
}

/// The codec preference: with the same delivery, MP3 scores 10 above AAC,
/// AAC 15 above Opus (which cannot be decoded), and Opus 5 above anything
/// else; the same codec scores the same.
pub proof fn law_score_codec(a: Json, b: Json)
    requires
        same_delivery(a, b),
    ensures
        is_mp3(a) && is_aac(b) ==> score(a) == score(b) + 10,
        is_aac(a) && is_opus(b) ==> score(a) == score(b) + 15,
        is_opus(a) && !is_mp3(b) && !is_aac(b) && !is_opus(b) ==> score(a) == score(b) + 5,
        same_codec(a, b) ==> score(a) == score(b),
{
}

/// The delivery preference: with the same codec and snipping, progressive
/// scores 50 above HLS, and HLS 50 above any other protocol.
pub proof fn law_score_protocol(a: Json, b: Json)
    requires
        same_codec(a, b),
        is_snipped(a) == is_snipped(b),
    ensures
        protocol(a) == "progressive"@ && protocol(b) == "hls"@ ==> score(a) == score(b) + 50,
        protocol(a) == "hls"@ && protocol(b) != "progressive"@ && protocol(b) != "hls"@ ==> score(
            a,
        ) == score(b) + 50,
{
    reveal_strlit("progressive");
    reveal_strlit("hls");
    assert("progressive"@.len() == 11 && "hls"@.len() == 3);
    assert("progressive"@ != "hls"@);
}

/// A preview loses 200 points, so it ranks below every full transcoding;
/// a full transcoding that is neither progressive nor HLS and names no
/// known codec scores 0.
pub proof fn law_score_snipped(a: Json, b: Json)
    ensures
        !is_snipped(a) && is_snipped(b) ==> score(a) > score(b),
        same_codec(a, b) && protocol(a) == protocol(b) && !is_snipped(a) && is_snipped(b)
            ==> score(a) == score(b) + 200,
        !is_snipped(a) && protocol(a) != "progressive"@ && protocol(a) != "hls"@ && !is_mp3(a)
            && !is_aac(a) && !is_opus(a) ==> score(a) == 0,
{
}

/// Among full transcodings of the same protocol, an AAC one is tried before
/// an Opus one, whatever their positions in the list.
pub proof fn law_aac_before_opus(ts: Seq<Json>, i: int, j: int)
    requires
        0 <= i < ts.len(),
        0 <= j < ts.len(),
        same_delivery(ts[i], ts[j]),
        is_aac(ts[i]),
        is_opus(ts[j]),
    ensures
        ranks_before(ts, i, j),
        !ranks_before(ts, j, i),
{
    law_score_codec(ts[i], ts[j]);
}

/// What a track built from a SoundCloud object holds, read off its fields:
/// it exists exactly when `title` is a string, which becomes its title; its
/// page URL is `permalink_url` (empty when absent), its duration `duration`,
/// its identifier `urn` when given (else the decimal `id`, else empty), its
/// artist `user.username` when given (else "Inconnu").
pub proof fn law_track_fields(v: Json)
    ensures
        sc_track(v) is Some <==> json::as_str(json::field(Some(v), "title"@)) is Some,
        sc_track(v) matches Some(t) ==> {
            &&& t.platform == Platform::SoundCloud
            &&& json::as_str(json::field(Some(v), "title"@)) == Some(t.title)
            &&& (json::as_str(json::field(Some(v), "permalink_url"@)) matches Some(p) ==> t.permalink
                == p)
            &&& (json::as_str(json::field(Some(v), "permalink_url"@)) is None ==> t.permalink.len()
                == 0)
            &&& t.duration_ms == json::as_u64(json::field(Some(v), "duration"@))
            &&& (json::as_str(json::field(Some(v), "urn"@)) matches Some(u) ==> t.id == u)
            &&& (json::as_str(json::field(json::field(Some(v), "user"@), "username"@)) matches Some(
                a,
            ) ==> t.artist == a)
            &&& (json::as_str(json::field(json::field(Some(v), "user"@), "username"@)) is None
                ==> t.artist == "Inconnu"@)
            &&& (json::as_str(json::field(Some(v), "urn"@)) is None ==> match json::as_i64(
                json::field(Some(v), "id"@),
            ) {
                Some(i) => t.id == text::signed_decimal(i as int),
                None => t.id.len() == 0,
            })
        },
{
}

} // verus!

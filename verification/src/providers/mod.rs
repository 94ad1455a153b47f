//! Providers: turn SoundCloud and Mixcloud answers into the unified
//! [`Track`](crate::model::Track) model and a playable stream.
use vstd::prelude::*;
use crate::http::{self, HttpError};
use crate::app::Section;
use crate::model::{Platform, Track};
use crate::text;
use crate::text::{chars_of, contains_str, lower_exec, push_str};

pub mod hls;
pub mod soundcloud;
pub mod mixcloud;

verus! {

/// Container / codec of a stream, to steer the audio decoder.
#[derive(Debug, Clone, Copy, PartialEq, Eq, Structural)]
pub enum Container {
    Mp3,
    Aac,
    Mp4,
    Ogg,
    Unknown,
}

/// The container guessed from a MIME type.
pub open spec fn container_of_mime(mime: Seq<char>) -> Container {
    let m = text::lower(mime);
    if text::contains(m, "mpeg"@) || text::contains(m, "mp3"@) {
        Container::Mp3
    } else if text::contains(m, "mp4"@) || text::contains(m, "m4a"@) || text::contains(m, "aac"@) {
        Container::Mp4
    } else if text::contains(m, "ogg"@) || text::contains(m, "opus"@) || text::contains(
        m,
        "vorbis"@,
    ) {
        Container::Ogg
    } else {
        Container::Unknown
    }
}

impl Container {
    /// Guesses the container from a SoundCloud/Mixcloud MIME type.
    pub fn from_mime(mime: &str) -> (r: Container)
        ensures
            r == container_of_mime(mime@),
    {
        let cs = chars_of(mime);
        let m = lower_exec(cs.as_slice());
        let m = m.as_slice();
        if contains_str(m, "mpeg") || contains_str(m, "mp3") {
            Container::Mp3
        } else if contains_str(m, "mp4") || contains_str(m, "m4a") || contains_str(m, "aac") {
            Container::Mp4
        } else if contains_str(m, "ogg") || contains_str(m, "opus") || contains_str(m, "vorbis") {
            Container::Ogg
        } else {
            Container::Unknown
        }
    }
}

/// How the audio bytes are fetched.
#[derive(Debug, Clone)]
pub enum StreamKind {
    /// A single HTTP file (usually supports `Range` requests).
    Progressive(String),
    /// Ordered list of HLS segments to concatenate.
    HlsSegments(Vec<String>),
}

/// A resolved stream ready to be decoded, with its container hint.
#[derive(Debug, Clone)]
pub struct StreamSource {
    pub kind: StreamKind,
    pub container: Container,
}

/// How to obtain the bytes of a resolved stream.
#[derive(Debug)]
pub enum StreamPlan {
    /// Ready to decode.
    Direct(StreamSource),
    /// An HLS playlist to unfold into segments, then decode as this container.
    Hls(String, Container),
}

/// Errors of the provider layer.
#[derive(Debug, Clone, PartialEq, Eq)]
pub enum ProviderError {
    Http(HttpError),
    /// URL not recognised as SoundCloud or Mixcloud.
    Unsupported(String),
    /// Malformed API answer or missing expected field.
    Malformed(String),
    /// Content present but not retrievable (preview only, exclusive, DRM…).
    Unavailable(String),
}

/// `e` is a malformed-answer error with message `m`.
pub open spec fn is_malformed(e: ProviderError, m: Seq<char>) -> bool {
    e matches ProviderError::Malformed(x) && x@ == m
}

/// `e` is an unavailable-content error with message `m`.
pub open spec fn is_unavailable(e: ProviderError, m: Seq<char>) -> bool {
    e matches ProviderError::Unavailable(x) && x@ == m
}

/// Text shown to the user for a provider error.
pub open spec fn provider_message(e: ProviderError) -> Seq<char> {
    match e {
        ProviderError::Http(h) => http::http_message(h),
        ProviderError::Unsupported(u) => "URL non supportée : "@ + u@,
        ProviderError::Malformed(m) => "réponse inattendue : "@ + m@,
        ProviderError::Unavailable(m) => "indisponible : "@ + m@,
    }
}

impl ProviderError {
    /// Text shown to the user (what `Display` prints).
    pub fn message(&self) -> (r: String)
        ensures
            r@ == provider_message(*self),
    {
        match self {
            ProviderError::Http(e) => e.message(),
            ProviderError::Unsupported(u) => {
                let mut r = "URL non supportée : ".to_owned();
                push_str(&mut r, u.as_str());
                r
            },
            ProviderError::Malformed(m) => {
                let mut r = "réponse inattendue : ".to_owned();
                push_str(&mut r, m.as_str());
                r
            },
            ProviderError::Unavailable(m) => {
                let mut r = "indisponible : ".to_owned();
                push_str(&mut r, m.as_str());
                r
            },
        }
    }
}

/// The platform a URL belongs to, if any.
pub open spec fn platform_of_url(url: Seq<char>) -> Option<Platform> {
    let u = text::lower(url);
    if text::contains(u, "soundcloud.com"@) || text::contains(u, "snd.sc"@) {
        Some(Platform::SoundCloud)
    } else if text::contains(u, "mixcloud.com"@) {
        Some(Platform::Mixcloud)
    } else {
        None
    }
}

/// Detects the platform of a URL.
pub fn platform_of(url: &str) -> (r: Option<Platform>)
    ensures
        r == platform_of_url(url@),
{
    let cs = chars_of(url);
    let u = lower_exec(cs.as_slice());
    let u = u.as_slice();
    if contains_str(u, "soundcloud.com") || contains_str(u, "snd.sc") {
        Some(Platform::SoundCloud)
    } else if contains_str(u, "mixcloud.com") {
        Some(Platform::Mixcloud)
    } else {
        None
    }
}

/// Which provider resolves a public URL: the platform, or `Unsupported`
/// carrying the URL when it belongs to neither.
pub fn resolve_target(url: &str) -> (r: Result<Platform, ProviderError>)
    ensures
        match platform_of_url(url@) {
            Some(p) => r == Ok::<Platform, ProviderError>(p),
            None => r matches Err(ProviderError::Unsupported(u)) && u@ == url@,
        },
{
    match platform_of(url) {
        Some(p) => Ok(p),
        None => Err(ProviderError::Unsupported(url.to_owned())),
    }
}

/// The container never comes out as bare AAC (AAC streams are MP4); the
/// guess ignores ASCII case; `mpeg`/`mp3` win over every other keyword; a
/// type naming none of the keywords is unknown.
pub proof fn law_mime_container(m: Seq<char>)
    ensures
        container_of_mime(m) != Container::Aac,
        container_of_mime(text::upper(m)) == container_of_mime(m),
        text::contains(text::lower(m), "mpeg"@) || text::contains(text::lower(m), "mp3"@)
            ==> container_of_mime(m) == Container::Mp3,
        !text::contains(text::lower(m), "mpeg"@) && !text::contains(text::lower(m), "mp3"@)
            && !text::contains(text::lower(m), "mp4"@) && !text::contains(text::lower(m), "m4a"@)
            && !text::contains(text::lower(m), "aac"@) && !text::contains(text::lower(m), "ogg"@)
            && !text::contains(text::lower(m), "opus"@) && !text::contains(
            text::lower(m),
            "vorbis"@,
        ) ==> container_of_mime(m) == Container::Unknown,
{
    text::lemma_lower_upper(m);
}

// ---------------------------------------------------------------------------
// Sections filled from the users' public lists
// ---------------------------------------------------------------------------

/// A public list of the configured user on one platform.
#[derive(Debug, Clone, Copy, PartialEq, Eq, Structural)]
pub enum Source {
    SoundCloudLikes,
    SoundCloudPlaylists,
    MixcloudFavorites,
    MixcloudPlaylists,
    MixcloudListens,
}

/// The public lists a sidebar section shows, SoundCloud first: likes and
/// favourites, playlists of both platforms, the Mixcloud listening history.
/// The other sections have no public list.
pub open spec fn section_sources(s: Section) -> Seq<Source> {
    match s {
        Section::Likes => seq![Source::SoundCloudLikes, Source::MixcloudFavorites],
        Section::Playlists => seq![Source::SoundCloudPlaylists, Source::MixcloudPlaylists],
        Section::History => seq![Source::MixcloudListens],
        _ => Seq::empty(),
    }
}

/// The public lists to fetch for a section.
pub fn sources_of(s: Section) -> (r: Vec<Source>)
    ensures
        r@ == section_sources(s),
{
    match s {
        Section::Likes => vec![Source::SoundCloudLikes, Source::MixcloudFavorites],
        Section::Playlists => vec![Source::SoundCloudPlaylists, Source::MixcloudPlaylists],
        Section::History => vec![Source::MixcloudListens],
        _ => Vec::new(),
    }
}

/// The first `n` rounds of alternation: round `i` takes `a[i]`, then `b[i]`,
/// each when it exists.
pub open spec fn interleave_upto(a: Seq<Track>, b: Seq<Track>, n: int) -> Seq<Track>
    decreases n,
{
    if n <= 0 {
        Seq::empty()
    } else {
        let r = interleave_upto(a, b, n - 1);
        let r1 = if n - 1 < a.len() {
            r.push(a[n - 1])
        } else {
            r
        };
        if n - 1 < b.len() {
            r1.push(b[n - 1])
        } else {
            r1
        }
    }
}

/// Two lists merged by alternation, the rest of the longer one at the end.
pub open spec fn interleaved(a: Seq<Track>, b: Seq<Track>) -> Seq<Track> {
    interleave_upto(a, b, if a.len() < b.len() { b.len() as int } else { a.len() as int })
}

/// Merges the tracks of two platforms by alternation (the longer list's
/// rest at the end).
pub fn interleave(a: &Vec<Track>, b: &Vec<Track>) -> (r: Vec<Track>)
    ensures
        r@ == interleaved(a@, b@),
{
    let n = if a.len() < b.len() {
        b.len()
    } else {
        a.len()
    };
    let mut r: Vec<Track> = Vec::new();
    let mut i: usize = 0;
    while i < n
        invariant
            i <= n,
            n == (if a@.len() < b@.len() { b@.len() } else { a@.len() }),
            r@ == interleave_upto(a@, b@, i as int),
        decreases n - i,
    {
        if i < a.len() {
            r.push(a[i].duplicate());
        }
        if i < b.len() {
            r.push(b[i].duplicate());
        }
        i = i + 1;
    }
    r
}

proof fn lemma_interleave_len(a: Seq<Track>, b: Seq<Track>, n: int)
    requires
        0 <= n,
    ensures
        interleave_upto(a, b, n).len() == (if n < a.len() { n } else { a.len() as int }) + (
        if n < b.len() {
            n
        } else {
            b.len() as int
        }),
    decreases n,
{
    if n > 0 {
        lemma_interleave_len(a, b, n - 1);
    }
}

/// The merged list is exactly as long as both lists together.
pub proof fn law_interleave_length(a: Seq<Track>, b: Seq<Track>)
    ensures
        interleaved(a, b).len() == a.len() + b.len(),
{
    lemma_interleave_len(a, b, if a.len() < b.len() { b.len() as int } else { a.len() as int });
}

} // verus!

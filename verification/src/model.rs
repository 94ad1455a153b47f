//! Unified data model shared by both platforms: SoundCloud tracks and
//! Mixcloud cloudcasts are both turned into a [`Track`].
use vstd::prelude::*;
use crate::text;
use crate::text::{push_char, push_decimal, push_decimal2, string_of};

verus! {

/// Platform a track comes from.
#[derive(Debug, Clone, Copy, PartialEq, Eq, Structural, Hash)]
pub enum Platform {
    SoundCloud,
    Mixcloud,
}

pub open spec fn spec_tag(p: Platform) -> Seq<char> {
    match p {
        Platform::SoundCloud => seq!['S', 'C'],
        Platform::Mixcloud => seq!['M', 'C'],
    }
}

/// Full platform name, as displayed to the user.
pub open spec fn platform_name(p: Platform) -> Seq<char> {
    match p {
        Platform::SoundCloud => "SoundCloud"@,
        Platform::Mixcloud => "Mixcloud"@,
    }
}

impl Platform {
    /// Short label shown in the platform column.
    pub fn tag(self) -> (r: &'static str)
        ensures
            r@ == spec_tag(self),
    {
        proof {
            reveal_strlit("SC");
            reveal_strlit("MC");
        }
        match self {
            Platform::SoundCloud => "SC",
            Platform::Mixcloud => "MC",
        }
    }

    /// Full platform name ("SoundCloud", "Mixcloud").
    pub fn to_string(self) -> (r: String)
        ensures
            r@ == platform_name(self),
    {
        match self {
            Platform::SoundCloud => "SoundCloud".to_owned(),
            Platform::Mixcloud => "Mixcloud".to_owned(),
        }
    }
}

/// A track or mix, independent of its platform.
#[derive(Debug, Clone)]
pub struct Track {
    pub platform: Platform,
    /// Stable platform identifier (SoundCloud urn, Mixcloud key).
    pub id: String,
    pub title: String,
    pub artist: String,
    /// Canonical page URL (lets the stream be resolved later).
    pub permalink: String,
    /// Duration in milliseconds, when known.
    pub duration_ms: Option<u64>,
}

/// Mathematical model of a [`Track`].
pub struct TrackView {
    pub platform: Platform,
    pub id: Seq<char>,
    pub title: Seq<char>,
    pub artist: Seq<char>,
    pub permalink: Seq<char>,
    pub duration_ms: Option<u64>,
}

impl View for Track {
    type V = TrackView;

    open spec fn view(&self) -> TrackView {
        TrackView {
            platform: self.platform,
            id: self.id@,
            title: self.title@,
            artist: self.artist@,
            permalink: self.permalink@,
            duration_ms: self.duration_ms,
        }
    }
}

/// The views of a sequence of tracks.
pub open spec fn track_views(ts: Seq<Track>) -> Seq<TrackView> {
    ts.map_values(|t: Track| t@)
}

/// `fmt_duration`: `H:MM:SS` when at least an hour, else `M:SS`.
pub open spec fn duration_text(ms: nat) -> Seq<char> {
    let total = ms / 1000;
    let h = total / 3600;
    let m = (total % 3600) / 60;
    let s = total % 60;
    if h > 0 {
        text::decimal(h) + seq![':'] + text::decimal2(m) + seq![':'] + text::decimal2(s)
    } else {
        text::decimal(m) + seq![':'] + text::decimal2(s)
    }
}

/// Placeholder shown for an unknown duration.
pub open spec fn unknown_duration() -> Seq<char> {
    seq!['-', '-', ':', '-', '-']
}

impl Track {
    /// An identical copy of this track.
    pub fn duplicate(&self) -> (r: Track)
        ensures
            r == *self,
    {
        Track {
            platform: self.platform,
            id: self.id.clone(),
            title: self.title.clone(),
            artist: self.artist.clone(),
            permalink: self.permalink.clone(),
            duration_ms: self.duration_ms,
        }
    }

    /// Formatted duration, or `--:--` when unknown.
    pub fn duration_human(&self) -> (r: String)
        ensures
            r@ == match self.duration_ms {
                Some(ms) => duration_text(ms as nat),
                None => unknown_duration(),
            },
    {
        match self.duration_ms {
            Some(ms) => fmt_duration(ms),
            None => {
                let r = string_of(&['-', '-', ':', '-', '-']);
                proof { assert(r@ =~= unknown_duration()); }
                r
            },
        }
    }
}

/// Formats a duration in milliseconds: `1:02:11` or `4:50`.
pub fn fmt_duration(ms: u64) -> (r: String)
    ensures
        r@ == duration_text(ms as nat),
{
    let total = ms / 1000;
    let h = total / 3600;
    let m = (total % 3600) / 60;
    let s = total % 60;
    let mut out = String::new();
    if h > 0 {
        push_decimal(&mut out, h);
        push_char(&mut out, ':');
        push_decimal2(&mut out, m);
        push_char(&mut out, ':');
        push_decimal2(&mut out, s);
    } else {
        push_decimal(&mut out, m);
        push_char(&mut out, ':');
        push_decimal2(&mut out, s);
    }
    proof {
        assert(out@ =~= duration_text(ms as nat));
    }
    out
}

} // verus!

//! Application state and its update logic: pure, without any I/O.
//!
//! `App` receives high-level intents ([`Action`]) and changes its state; the
//! rendering and the event loop stay outside, so navigation can be checked
//! without a terminal.
use vstd::prelude::*;
use crate::model::{Platform, Track};
use crate::model;
use crate::text;
use crate::text::{chars_of, push_chars, push_decimal, push_str, trim_exec};

verus! {

/// Sections of the left sidebar.
#[derive(Debug, Clone, Copy, PartialEq, Eq, Structural)]
pub enum Section {
    Likes,
    Playlists,
    Feed,
    Search,
    History,
    Queue,
}

/// Number of sidebar sections.
pub const SECTION_COUNT: usize = 6;

/// The section shown at sidebar row `i` (rows beyond the last repeat it).
pub open spec fn section_of(i: int) -> Section {
    if i == 0 {
        Section::Likes
    } else if i == 1 {
        Section::Playlists
    } else if i == 2 {
        Section::Feed
    } else if i == 3 {
        Section::Search
    } else if i == 4 {
        Section::History
    } else {
        Section::Queue
    }
}

pub open spec fn section_label(s: Section) -> Seq<char> {
    match s {
        Section::Likes => "♥  Likes"@,
        Section::Playlists => "☰  Playlists"@,
        Section::Feed => "◎  Feed"@,
        Section::Search => "⌕  Recherche"@,
        Section::History => "⧗  Historique"@,
        Section::Queue => "▤  File"@,
    }
}

impl Section {
    /// All sections, in sidebar order.
    pub fn all() -> (r: [Section; 6])
        ensures
            forall|i: int| 0 <= i < 6 ==> r@[i] == section_of(i),
    {
        [
            Section::Likes,
            Section::Playlists,
            Section::Feed,
            Section::Search,
            Section::History,
            Section::Queue,
        ]
    }

    /// The section at sidebar row `i`.
    pub fn at(i: usize) -> (r: Section)
        requires
            i < SECTION_COUNT,
        ensures
            r == section_of(i as int),
    {
        let all = Section::all();
        all[i]
    }

    /// Label shown in the sidebar.
    pub fn label(self) -> (r: &'static str)
        ensures
            r@ == section_label(self),
    {
        match self {
            Section::Likes => "♥  Likes",
            Section::Playlists => "☰  Playlists",
            Section::Feed => "◎  Feed",
            Section::Search => "⌕  Recherche",
            Section::History => "⧗  Historique",
            Section::Queue => "▤  File",
        }
    }
}

/// Platform filter applied to the central list.
#[derive(Debug, Clone, Copy, PartialEq, Eq, Structural)]
pub enum Filter {
    All,
    Only(Platform),
}

pub open spec fn filter_label(f: Filter) -> Seq<char> {
    match f {
        Filter::All => "Tout"@,
        Filter::Only(p) => model::platform_name(p),
    }
}

/// Whether the filter lets track `t` through.
pub open spec fn keeps(f: Filter, t: Track) -> bool {
    match f {
        Filter::All => true,
        Filter::Only(p) => t.platform == p,
    }
}

impl Filter {
    /// Label shown in the list title and the status line.
    pub fn label(self) -> (r: String)
        ensures
            r@ == filter_label(self),
    {
        match self {
            Filter::All => "Tout".to_owned(),
            Filter::Only(p) => p.to_string(),
        }
    }

    fn keep(self, t: &Track) -> (b: bool)
        ensures
            b == keeps(self, *t),
    {
        match self {
            Filter::All => true,
            Filter::Only(p) => t.platform == p,
        }
    }
}

/// Which panel has the keyboard focus.
#[derive(Debug, Clone, Copy, PartialEq, Eq, Structural)]
pub enum Focus {
    Sidebar,
    List,
}

/// Current playback state.
#[derive(Debug, Clone, Default)]
pub struct Playback {
    pub current: Option<Track>,
    pub playing: bool,
    pub position_ms: u64,
    /// 0..=100
    pub volume: u8,
}

/// High-level intents, independent of keyboard or mouse.
#[derive(Debug, Clone, Copy, PartialEq, Eq, Structural)]
pub enum Action {
    Up,
    Down,
    Top,
    Bottom,
    Activate,
    FocusSidebar,
    FocusList,
    ToggleFocus,
    PlayPause,
    Next,
    Prev,
    VolumeUp,
    VolumeDown,
    FilterAll,
    FilterSoundCloud,
    FilterMixcloud,
    Stop,
    /// Open the command line to paste a URL.
    BeginCommand,
    /// Open the command line to search both platforms.
    BeginSearch,
    /// Open the command line to type the account handles.
    BeginHandles,
    /// Switch to the next visualiser style.
    CycleVisual,
    Quit,
}

/// Style of the audio visualiser.
#[derive(Debug, Clone, Copy, PartialEq, Eq, Structural)]
pub enum Visual {
    /// Spectrum bars.
    Bars,
    /// Spectrum mirrored around the middle line.
    Mirror,
    /// Oscilloscope of the waveform.
    Scope,
}

/// The next visualiser style, in a cycle.
pub open spec fn next_visual(v: Visual) -> Visual {
    match v {
        Visual::Bars => Visual::Mirror,
        Visual::Mirror => Visual::Scope,
        Visual::Scope => Visual::Bars,
    }
}

/// The command line: closed, or open with what has been typed so far.
#[derive(Debug, Clone, PartialEq, Eq)]
pub enum Input {
    Normal,
    /// A URL to play.
    Command(String),
    /// A search query.
    Search(String),
    /// The account handle of a platform.
    Handle(Platform, String),
}

/// Mathematical model of an [`Input`].
pub enum InputView {
    Normal,
    Command(Seq<char>),
    Search(Seq<char>),
    Handle(Platform, Seq<char>),
}

impl View for Input {
    type V = InputView;

    open spec fn view(&self) -> InputView {
        match self {
            Input::Normal => InputView::Normal,
            Input::Command(b) => InputView::Command(b@),
            Input::Search(b) => InputView::Search(b@),
            Input::Handle(p, b) => InputView::Handle(*p, b@),
        }
    }
}

/// What the audio engine must do after an intent.
#[derive(Debug, Clone, PartialEq, Eq)]
pub enum Effect {
    /// Resolve and play the track whose page URL is given.
    Play(String),
    /// Pause or resume the current track.
    Toggle,
    /// Stop the playback.
    Stop,
    /// Set the output volume (0..=100).
    SetVolume(u8),
    /// Fill the list with the tracks of a sidebar section.
    Load(Section),
    /// Search both platforms and list the results.
    Search(String),
    /// Remember the account handle of a platform (`None`: no account).
    SetHandle(Platform, Option<String>),
}

/// Mathematical model of an [`Effect`].
pub enum EffectView {
    Play(Seq<char>),
    Toggle,
    Stop,
    SetVolume(u8),
    Load(Section),
    Search(Seq<char>),
    SetHandle(Platform, Option<Seq<char>>),
}

impl View for Effect {
    type V = EffectView;

    open spec fn view(&self) -> EffectView {
        match self {
            Effect::Play(u) => EffectView::Play(u@),
            Effect::Toggle => EffectView::Toggle,
            Effect::Stop => EffectView::Stop,
            Effect::SetVolume(v) => EffectView::SetVolume(*v),
            Effect::Load(sec) => EffectView::Load(*sec),
            Effect::Search(q) => EffectView::Search(q@),
            Effect::SetHandle(p, h) => EffectView::SetHandle(
                *p,
                match h {
                    Some(h) => Some(h@),
                    None => None,
                },
            ),
        }
    }
}

/// Global application state.
pub struct App {
    pub should_quit: bool,
    pub focus: Focus,
    pub section: Section,
    pub section_index: usize,
    pub filter: Filter,
    pub tracks: Vec<Track>,
    pub list_index: usize,
    pub playback: Playback,
    pub status: String,
    pub input: Input,
    pub visual: Visual,
}

/// Mathematical model of an [`App`].
pub struct AppView {
    pub should_quit: bool,
    pub focus: Focus,
    pub section: Section,
    pub section_index: int,
    pub filter: Filter,
    pub tracks: Seq<Track>,
    pub list_index: int,
    pub current: Option<Track>,
    pub playing: bool,
    pub position_ms: u64,
    pub volume: u8,
    pub status: Seq<char>,
    pub input: InputView,
    pub visual: Visual,
}

impl View for App {
    type V = AppView;

    open spec fn view(&self) -> AppView {
        AppView {
            should_quit: self.should_quit,
            focus: self.focus,
            section: self.section,
            section_index: self.section_index as int,
            filter: self.filter,
            tracks: self.tracks@,
            list_index: self.list_index as int,
            current: self.playback.current,
            playing: self.playback.playing,
            position_ms: self.playback.position_ms,
            volume: self.playback.volume,
            status: self.status@,
            input: self.input@,
            visual: self.visual,
        }
    }
}

// ---------------------------------------------------------------------------
// Specification of the state machine
// ---------------------------------------------------------------------------

/// Indices of the first `n` tracks that the filter keeps, in order.
pub open spec fn visible_upto(tracks: Seq<Track>, f: Filter, n: int) -> Seq<int>
    decreases n,
{
    if n <= 0 {
        Seq::empty()
    } else {
        let r = visible_upto(tracks, f, n - 1);
        if keeps(f, tracks[n - 1]) {
            r.push(n - 1)
        } else {
            r
        }
    }
}

/// Indices of the tracks that the filter keeps, in list order.
pub open spec fn visible(tracks: Seq<Track>, f: Filter) -> Seq<int> {
    visible_upto(tracks, f, tracks.len() as int)
}

/// The highlighted track: the `list_index`-th visible one, if any.
pub open spec fn selected(v: AppView) -> Option<Track> {
    let vis = visible(v.tracks, v.filter);
    if 0 <= v.list_index < vis.len() {
        Some(v.tracks[vis[v.list_index]])
    } else {
        None
    }
}

pub open spec fn clamp(x: int, lo: int, hi: int) -> int {
    if x < lo {
        lo
    } else if x > hi {
        hi
    } else {
        x
    }
}

/// The invariant every reachable state keeps.
pub open spec fn wf(v: AppView) -> bool {
    &&& 0 <= v.section_index < SECTION_COUNT
    &&& v.section == section_of(v.section_index)
    &&& v.tracks.len() <= i32::MAX
    &&& 0 <= v.list_index < i32::MAX
}

pub open spec fn move_cursor(v: AppView, delta: int) -> AppView {
    match v.focus {
        Focus::Sidebar => {
            let i = (v.section_index + delta) % (SECTION_COUNT as int);
            AppView { section_index: i, section: section_of(i), ..v }
        },
        Focus::List => {
            let n = visible(v.tracks, v.filter).len() as int;
            if n == 0 {
                v
            } else {
                AppView { list_index: clamp(v.list_index + delta, 0, n - 1), ..v }
            }
        },
    }
}

pub open spec fn move_to_edge(v: AppView, top: bool) -> AppView {
    match v.focus {
        Focus::Sidebar => {
            let i = if top {
                0
            } else {
                SECTION_COUNT - 1
            };
            AppView { section_index: i, section: section_of(i), ..v }
        },
        Focus::List => {
            let n = visible(v.tracks, v.filter).len() as int;
            AppView {
                list_index: if top || n == 0 {
                    0
                } else {
                    n - 1
                },
                ..v
            }
        },
    }
}

/// Status line shown when a track starts.
pub open spec fn playing_status(t: Track) -> Seq<char> {
    "▶ "@ + t.artist@ + " — "@ + t.title@
}

/// Starting the playback of `t`.
pub open spec fn play_track(v: AppView, t: Track) -> AppView {
    AppView {
        status: playing_status(t),
        current: Some(t),
        playing: true,
        position_ms: 0,
        ..v
    }
}

pub open spec fn activate(v: AppView) -> AppView {
    match v.focus {
        Focus::Sidebar => AppView {
            focus: Focus::List,
            status: "Section : "@ + text::trim(section_label(v.section)),
            ..v
        },
        Focus::List => match selected(v) {
            Some(t) => play_track(v, t),
            None => v,
        },
    }
}

pub open spec fn toggle_play(v: AppView) -> AppView {
    if v.current is Some {
        AppView { playing: !v.playing, ..v }
    } else {
        match selected(v) {
            Some(t) => play_track(v, t),
            None => v,
        }
    }
}

pub open spec fn skip(v: AppView, delta: int) -> AppView {
    let n = visible(v.tracks, v.filter).len() as int;
    if n == 0 {
        v
    } else {
        let w = AppView { list_index: clamp(v.list_index + delta, 0, n - 1), ..v };
        match selected(w) {
            Some(t) => play_track(w, t),
            None => w,
        }
    }
}

pub open spec fn volume_status(vol: u8) -> Seq<char> {
    "Volume : "@ + text::decimal(vol as nat) + "%"@
}

pub open spec fn set_volume(v: AppView, vol: int) -> AppView {
    let nv = if vol < 100 {
        vol as u8
    } else {
        100u8
    };
    AppView { volume: nv, status: volume_status(nv), ..v }
}

pub open spec fn set_filter(v: AppView, f: Filter) -> AppView {
    AppView { filter: f, list_index: 0, status: "Filtre : "@ + filter_label(f), ..v }
}

/// Stopping: no current track, nothing playing, position back to zero.
pub open spec fn stopped(v: AppView) -> AppView {
    AppView { current: None, playing: false, position_ms: 0, ..v }
}

/// The state after applying `a` to `v`.
pub open spec fn step(v: AppView, a: Action) -> AppView {
    match a {
        Action::Quit => AppView { should_quit: true, ..v },
        Action::Stop => stopped(v),
        Action::BeginCommand => AppView { input: InputView::Command(Seq::empty()), ..v },
        Action::BeginSearch => AppView { input: InputView::Search(Seq::empty()), ..v },
        Action::BeginHandles => AppView {
            input: InputView::Handle(Platform::SoundCloud, Seq::empty()),
            ..v
        },
        Action::CycleVisual => AppView { visual: next_visual(v.visual), ..v },
        Action::ToggleFocus => AppView {
            focus: match v.focus {
                Focus::Sidebar => Focus::List,
                Focus::List => Focus::Sidebar,
            },
            ..v
        },
        Action::FocusSidebar => AppView { focus: Focus::Sidebar, ..v },
        Action::FocusList => AppView { focus: Focus::List, ..v },
        Action::Up => move_cursor(v, -1),
        Action::Down => move_cursor(v, 1),
        Action::Top => move_to_edge(v, true),
        Action::Bottom => move_to_edge(v, false),
        Action::Activate => activate(v),
        Action::PlayPause => toggle_play(v),
        Action::Next => skip(v, 1),
        Action::Prev => skip(v, -1),
        Action::VolumeUp => set_volume(v, if v.volume + 5 > 255 { 255 } else { v.volume + 5 }),
        Action::VolumeDown => set_volume(v, if v.volume < 5 { 0 } else { v.volume - 5 }),
        Action::FilterAll => set_filter(v, Filter::All),
        Action::FilterSoundCloud => set_filter(v, Filter::Only(Platform::SoundCloud)),
        Action::FilterMixcloud => set_filter(v, Filter::Only(Platform::Mixcloud)),
    }
}

/// Playing the page of track `t`.
pub open spec fn play_effect(t: Option<Track>) -> Option<EffectView> {
    match t {
        Some(t) => Some(EffectView::Play(t.permalink@)),
        None => None,
    }
}

/// What the engine must do after applying `a` to `v`: play the track that
/// the intent started, toggle the current one, or set the new volume.
pub open spec fn step_effect(v: AppView, a: Action) -> Option<EffectView> {
    match a {
        Action::Activate => match v.focus {
            Focus::List => play_effect(selected(v)),
            Focus::Sidebar => Some(EffectView::Load(v.section)),
        },
        Action::PlayPause => if v.current is Some {
            Some(EffectView::Toggle)
        } else {
            play_effect(selected(v))
        },
        Action::Next | Action::Prev => if visible(v.tracks, v.filter).len() == 0 {
            None
        } else {
            play_effect(selected(step(v, a)))
        },
        Action::VolumeUp | Action::VolumeDown => Some(EffectView::SetVolume(step(v, a).volume)),
        Action::Stop => Some(EffectView::Stop),
        _ => None,
    }
}

/// The model of an optional effect.
pub open spec fn effect_view(e: Option<Effect>) -> Option<EffectView> {
    match e {
        Some(e) => Some(e@),
        None => None,
    }
}

/// Status line right after start-up.
pub open spec fn welcome_status() -> Seq<char> {
    "Bienvenue dans waveline — appuie sur ? pour l'aide"@
}

// ---------------------------------------------------------------------------
// Implementation
// ---------------------------------------------------------------------------

impl App {
    /// A fresh application: list focused, first section, everything visible,
    /// nothing playing, volume 80.
    pub fn new() -> (a: App)
        ensures
            wf(a@),
            a@.should_quit == false,
            a@.focus == Focus::List,
            a@.section == Section::Likes,
            a@.section_index == 0,
            a@.filter == Filter::All,
            a@.tracks.len() == 0,
            a@.list_index == 0,
            a@.current is None,
            a@.playing == false,
            a@.position_ms == 0,
            a@.volume == 80,
            a@.status == welcome_status(),
            a@.input == InputView::Normal,
            a@.visual == Visual::Bars,
    {
        App {
            should_quit: false,
            focus: Focus::List,
            section: Section::Likes,
            section_index: 0,
            filter: Filter::All,
            tracks: Vec::new(),
            list_index: 0,
            playback: Playback { current: None, playing: false, position_ms: 0, volume: 80 },
            status: "Bienvenue dans waveline — appuie sur ? pour l'aide".to_owned(),
            input: Input::Normal,
            visual: Visual::Bars,
        }
    }

    /// Whether the state is well formed, as [`App::apply`] needs it.
    pub fn well_formed(&self) -> (b: bool)
        ensures
            b == wf(self@),
    {
        self.section_index < SECTION_COUNT && self.section == Section::at(self.section_index)
            && self.tracks.len() <= 2147483647usize && self.list_index < 2147483647usize
    }

    /// Indices of the tracks that pass the current filter.
    pub fn visible_indices(&self) -> (r: Vec<usize>)
        ensures
            r@.len() == visible(self.tracks@, self.filter).len(),
            forall|k: int|
                0 <= k < r@.len() ==> r@[k] as int == visible(self.tracks@, self.filter)[k],
    {
        let mut r: Vec<usize> = Vec::new();
        let mut i: usize = 0;
        while i < self.tracks.len()
            invariant
                i <= self.tracks@.len(),
                r@.len() == visible_upto(self.tracks@, self.filter, i as int).len(),
                forall|k: int|
                    0 <= k < r@.len() ==> r@[k] as int == visible_upto(
                        self.tracks@,
                        self.filter,
                        i as int,
                    )[k],
            decreases self.tracks@.len() - i,
        {
            if self.filter.keep(&self.tracks[i]) {
                r.push(i);
            }
            i = i + 1;
        }
        r
    }

    /// The highlighted track, if the cursor is on a visible one.
    pub fn selected_track(&self) -> (r: Option<&Track>)
        ensures
            r is None <==> selected(self@) is None,
            r matches Some(t) ==> selected(self@) == Some(*t),
    {
        let vis = self.visible_indices();
        if self.list_index < vis.len() {
            let i = vis[self.list_index];
            proof {
                lemma_visible_bounds(self.tracks@, self.filter);
            }
            Some(&self.tracks[i])
        } else {
            None
        }
    }

    /// Applies one intent: the single entry point for state changes. Returns
    /// what the audio engine must do, if anything.
    pub fn apply(&mut self, action: Action) -> (r: Option<Effect>)
        requires
            wf(old(self)@),
        ensures
            final(self)@ == step(old(self)@, action),
            wf(final(self)@),
            effect_view(r) == step_effect(old(self)@, action),
    {
        let r = match action {
            Action::Quit => {
                self.should_quit = true;
                None
            },
            Action::BeginCommand => {
                self.input = Input::Command(String::new());
                None
            },
            Action::BeginSearch => {
                self.input = Input::Search(String::new());
                None
            },
            Action::BeginHandles => {
                self.input = Input::Handle(Platform::SoundCloud, String::new());
                None
            },
            Action::CycleVisual => {
                self.visual = match self.visual {
                    Visual::Bars => Visual::Mirror,
                    Visual::Mirror => Visual::Scope,
                    Visual::Scope => Visual::Bars,
                };
                None
            },
            Action::Stop => {
                self.playback.current = None;
                self.playback.playing = false;
                self.playback.position_ms = 0;
                Some(Effect::Stop)
            },
            Action::ToggleFocus => {
                self.focus = match self.focus {
                    Focus::Sidebar => Focus::List,
                    Focus::List => Focus::Sidebar,
                };
                None
            },
            Action::FocusSidebar => {
                self.focus = Focus::Sidebar;
                None
            },
            Action::FocusList => {
                self.focus = Focus::List;
                None
            },
            Action::Up => {
                self.move_cursor(false);
                None
            },
            Action::Down => {
                self.move_cursor(true);
                None
            },
            Action::Top => {
                self.move_to_edge(true);
                None
            },
            Action::Bottom => {
                self.move_to_edge(false);
                None
            },
            Action::Activate => self.activate(),
            Action::PlayPause => self.toggle_play(),
            Action::Next => self.skip(true),
            Action::Prev => self.skip(false),
            Action::VolumeUp => {
                let v = self.playback.volume.saturating_add(5);
                self.set_volume(v);
                Some(Effect::SetVolume(self.playback.volume))
            },
            Action::VolumeDown => {
                let v = self.playback.volume.saturating_sub(5);
                self.set_volume(v);
                Some(Effect::SetVolume(self.playback.volume))
            },
            Action::FilterAll => {
                self.set_filter(Filter::All);
                None
            },
            Action::FilterSoundCloud => {
                self.set_filter(Filter::Only(Platform::SoundCloud));
                None
            },
            Action::FilterMixcloud => {
                self.set_filter(Filter::Only(Platform::Mixcloud));
                None
            },
        };
        proof {
            lemma_step_wf(old(self)@, action);
        }
        r
    }

    fn move_cursor(&mut self, forward: bool)
        requires
            wf(old(self)@),
        ensures
            final(self)@ == move_cursor(old(self)@, if forward { 1 } else { -1 }),
    {
        match self.focus {
            Focus::Sidebar => {
                let i = if forward {
                    if self.section_index + 1 == SECTION_COUNT {
                        0
                    } else {
                        self.section_index + 1
                    }
                } else {
                    if self.section_index == 0 {
                        SECTION_COUNT - 1
                    } else {
                        self.section_index - 1
                    }
                };
                self.section_index = i;
                self.section = Section::at(i);
            },
            Focus::List => {
                let n = self.visible_indices().len();
                if n == 0 {
                    return ;
                }
                let i = if forward {
                    if self.list_index + 1 > n - 1 {
                        n - 1
                    } else {
                        self.list_index + 1
                    }
                } else {
                    if self.list_index == 0 {
                        0
                    } else if self.list_index - 1 > n - 1 {
                        n - 1
                    } else {
                        self.list_index - 1
                    }
                };
                self.list_index = i;
            },
        }
    }

    fn move_to_edge(&mut self, top: bool)
        requires
            wf(old(self)@),
        ensures
            final(self)@ == move_to_edge(old(self)@, top),
    {
        match self.focus {
            Focus::Sidebar => {
                self.section_index = if top {
                    0
                } else {
                    SECTION_COUNT - 1
                };
                self.section = Section::at(self.section_index);
            },
            Focus::List => {
                let n = self.visible_indices().len();
                self.list_index = if top || n == 0 {
                    0
                } else {
                    n - 1
                };
            },
        }
    }

    fn activate(&mut self) -> (r: Option<Effect>)
        requires
            wf(old(self)@),
        ensures
            final(self)@ == activate(old(self)@),
            effect_view(r) == match old(self)@.focus {
                Focus::List => play_effect(selected(old(self)@)),
                Focus::Sidebar => Some(EffectView::Load(old(self)@.section)),
            },
    {
        match self.focus {
            Focus::Sidebar => {
                self.focus = Focus::List;
                let label = chars_of(self.section.label());
                let trimmed = trim_exec(label.as_slice());
                let mut status = "Section : ".to_owned();
                push_chars(&mut status, trimmed.as_slice());
                self.status = status;
                Some(Effect::Load(self.section))
            },
            Focus::List => {
                let sel = match self.selected_track() {
                    Some(t) => Some(t.duplicate()),
                    None => None,
                };
                self.start(sel)
            },
        }
    }

    /// Plays `sel` when there is one, and says which page to play.
    fn start(&mut self, sel: Option<Track>) -> (r: Option<Effect>)
        ensures
            final(self)@ == match sel {
                Some(t) => play_track(old(self)@, t),
                None => old(self)@,
            },
            effect_view(r) == play_effect(sel),
    {
        match sel {
            Some(t) => {
                let url = t.permalink.clone();
                self.play(t);
                Some(Effect::Play(url))
            },
            None => None,
        }
    }

    /// Starts playing a track (status line, current track, position reset).
    pub fn play(&mut self, t: Track)
        ensures
            final(self)@ == play_track(old(self)@, t),
    {
        let mut status = "▶ ".to_owned();
        push_str(&mut status, t.artist.as_str());
        push_str(&mut status, " — ");
        push_str(&mut status, t.title.as_str());
        self.status = status;
        self.playback.current = Some(t);
        self.playback.playing = true;
        self.playback.position_ms = 0;
    }

    /// Replaces the listed tracks (a loaded section) and puts the cursor on
    /// the first row.
    pub fn set_tracks(&mut self, tracks: Vec<Track>)
        requires
            wf(old(self)@),
            tracks@.len() <= i32::MAX,
        ensures
            final(self)@ == (AppView { tracks: tracks@, list_index: 0, ..old(self)@ }),
            wf(final(self)@),
    {
        self.tracks = tracks;
        self.list_index = 0;
    }

    fn toggle_play(&mut self) -> (r: Option<Effect>)
        requires
            wf(old(self)@),
        ensures
            final(self)@ == toggle_play(old(self)@),
            effect_view(r) == if old(self)@.current is Some {
                Some(EffectView::Toggle)
            } else {
                play_effect(selected(old(self)@))
            },
    {
        if self.playback.current.is_some() {
            self.playback.playing = !self.playback.playing;
            Some(Effect::Toggle)
        } else {
            let sel = match self.selected_track() {
                Some(t) => Some(t.duplicate()),
                None => None,
            };
            self.start(sel)
        }
    }

    fn skip(&mut self, forward: bool) -> (r: Option<Effect>)
        requires
            wf(old(self)@),
        ensures
            final(self)@ == skip(old(self)@, if forward { 1 } else { -1 }),
            effect_view(r) == if visible(old(self)@.tracks, old(self)@.filter).len() == 0 {
                None
            } else {
                play_effect(selected(final(self)@))
            },
    {
        let n = self.visible_indices().len();
        if n == 0 {
            return None;
        }
        let i = if forward {
            if self.list_index + 1 > n - 1 {
                n - 1
            } else {
                self.list_index + 1
            }
        } else {
            if self.list_index == 0 {
                0
            } else if self.list_index - 1 > n - 1 {
                n - 1
            } else {
                self.list_index - 1
            }
        };
        self.list_index = i;
        let sel = match self.selected_track() {
            Some(t) => Some(t.duplicate()),
            None => None,
        };
        self.start(sel)
    }

    fn set_volume(&mut self, v: u8)
        ensures
            final(self)@ == set_volume(old(self)@, v as int),
    {
        self.playback.volume = if v < 100 {
            v
        } else {
            100
        };
        let mut status = "Volume : ".to_owned();
        push_decimal(&mut status, self.playback.volume as u64);
        push_str(&mut status, "%");
        self.status = status;
    }

    fn set_filter(&mut self, f: Filter)
        ensures
            final(self)@ == set_filter(old(self)@, f),
    {
        self.filter = f;
        self.list_index = 0;
        let mut status = "Filtre : ".to_owned();
        let label = f.label();
        push_str(&mut status, label.as_str());
        self.status = status;
    }
}

// ---------------------------------------------------------------------------
// Properties
// ---------------------------------------------------------------------------

/// Visible indices are valid positions of kept tracks, in increasing order,
/// and there are never more of them than tracks.
pub proof fn lemma_visible_upto(tracks: Seq<Track>, f: Filter, n: int)
    requires
        0 <= n <= tracks.len(),
    ensures
        visible_upto(tracks, f, n).len() <= n,
        forall|k: int|
            0 <= k < visible_upto(tracks, f, n).len() ==> {
                let i = #[trigger] visible_upto(tracks, f, n)[k];
                0 <= i < n && keeps(f, tracks[i])
            },
        forall|k1: int, k2: int|
            0 <= k1 < k2 < visible_upto(tracks, f, n).len() ==> visible_upto(tracks, f, n)[k1]
                < visible_upto(tracks, f, n)[k2],
        forall|i: int|
            0 <= i < n && keeps(f, tracks[i]) ==> exists|k: int|
                0 <= k < visible_upto(tracks, f, n).len() && visible_upto(tracks, f, n)[k] == i,
    decreases n,
{
    if n > 0 {
        lemma_visible_upto(tracks, f, n - 1);
        let r = visible_upto(tracks, f, n - 1);
        if keeps(f, tracks[n - 1]) {
            assert(visible_upto(tracks, f, n)[r.len() as int] == n - 1);
            assert forall|i: int| 0 <= i < n && keeps(f, tracks[i]) implies exists|k: int|
                0 <= k < visible_upto(tracks, f, n).len() && visible_upto(tracks, f, n)[k]
                    == i by {
                if i < n - 1 {
                    let k = choose|k: int| 0 <= k < r.len() && r[k] == i;
                    assert(visible_upto(tracks, f, n)[k] == i);
                } else {
                    assert(visible_upto(tracks, f, n)[r.len() as int] == i);
                }
            }
        }
    }
}

pub proof fn lemma_visible_bounds(tracks: Seq<Track>, f: Filter)
    ensures
        visible(tracks, f).len() <= tracks.len(),
        forall|k: int|
            0 <= k < visible(tracks, f).len() ==> 0 <= #[trigger] visible(tracks, f)[k]
                < tracks.len(),
{
    lemma_visible_upto(tracks, f, tracks.len() as int);
}

/// Every transition keeps the state well formed.
pub proof fn lemma_step_wf(v: AppView, a: Action)
    requires
        wf(v),
    ensures
        wf(step(v, a)),
{
    lemma_visible_bounds(v.tracks, v.filter);
}


/// `n` applications of the same action.
pub open spec fn repeat(v: AppView, a: Action, n: nat) -> AppView
    decreases n,
{
    if n == 0 {
        v
    } else {
        step(repeat(v, a, (n - 1) as nat), a)
    }
}

/// The filter shows exactly the tracks it keeps, in list order.
pub proof fn law_visible_exact(tracks: Seq<Track>, f: Filter, i: int)
    ensures
        (exists|k: int| 0 <= k < visible(tracks, f).len() && visible(tracks, f)[k] == i) <==> (0
            <= i < tracks.len() && keeps(f, tracks[i])),
        forall|k1: int, k2: int|
            0 <= k1 < k2 < visible(tracks, f).len() ==> visible(tracks, f)[k1] < visible(
                tracks,
                f,
            )[k2],
{
    lemma_visible_upto(tracks, f, tracks.len() as int);
    if exists|k: int| 0 <= k < visible(tracks, f).len() && visible(tracks, f)[k] == i {
        let k = choose|k: int| 0 <= k < visible(tracks, f).len() && visible(tracks, f)[k] == i;
        assert(visible_upto(tracks, f, tracks.len() as int)[k] == i);
    }
    if 0 <= i < tracks.len() && keeps(f, tracks[i]) {
        let vis = visible_upto(tracks, f, tracks.len() as int);
        assert(exists|k: int| 0 <= k < vis.len() && vis[k] == i);
        let k = choose|k: int| 0 <= k < vis.len() && vis[k] == i;
        assert(visible(tracks, f)[k] == i);
    }
}

/// With the "all" filter every track is listed, in order.
pub proof fn law_filter_all_lists_everything(tracks: Seq<Track>)
    ensures
        visible(tracks, Filter::All) == Seq::new(tracks.len(), |i: int| i),
{
    lemma_visible_all(tracks, tracks.len() as int);
    assert(visible(tracks, Filter::All) =~= Seq::new(tracks.len(), |i: int| i));
}

proof fn lemma_visible_all(tracks: Seq<Track>, n: int)
    requires
        0 <= n <= tracks.len(),
    ensures
        visible_upto(tracks, Filter::All, n) =~= Seq::new(n as nat, |i: int| i),
    decreases n,
{
    if n > 0 {
        lemma_visible_all(tracks, n - 1);
    }
}

/// No intent changes the track list.
pub proof fn law_step_keeps_tracks(v: AppView, a: Action)
    ensures
        step(v, a).tracks == v.tracks,
{
}

/// Once quitting has been asked for, it stays asked for.
pub proof fn law_quit_is_sticky(v: AppView, a: Action)
    ensures
        step(v, Action::Quit).should_quit,
        v.should_quit ==> step(v, a).should_quit,
{
}

/// Toggling the focus twice changes nothing.
pub proof fn law_toggle_focus_twice(v: AppView)
    ensures
        step(step(v, Action::ToggleFocus), Action::ToggleFocus) == v,
{
}

/// With a track loaded, play/pause twice changes nothing.
pub proof fn law_play_pause_twice(v: AppView)
    requires
        v.current is Some,
    ensures
        step(step(v, Action::PlayPause), Action::PlayPause) == v,
{
}

/// The volume never leaves 0..=100: a volume key always lands inside, and
/// no other intent moves it.
pub proof fn law_volume_bounded(v: AppView, a: Action)
    ensures
        (a == Action::VolumeUp || a == Action::VolumeDown) ==> step(v, a).volume <= 100,
        v.volume <= 100 ==> step(v, a).volume <= 100,
        !(a == Action::VolumeUp || a == Action::VolumeDown) ==> step(v, a).volume == v.volume,
{
}

/// Volume up then down restores the volume when it was not clipped.
pub proof fn law_volume_up_down(v: AppView)
    requires
        v.volume <= 95,
    ensures
        step(step(v, Action::VolumeUp), Action::VolumeDown).volume == v.volume,
{
}

/// In the sidebar, six moves in the same direction come back to the start.
pub proof fn law_sidebar_cycle(v: AppView, a: Action)
    requires
        wf(v),
        v.focus == Focus::Sidebar,
        a == Action::Up || a == Action::Down,
    ensures
        repeat(v, a, 6) == v,
{
    let d: int = if a == Action::Down {
        1
    } else {
        -1
    };
    lemma_sidebar_repeat(v, a, d, 6);
    assert((v.section_index + 6 * d) % 6 == v.section_index);
}

proof fn lemma_sidebar_repeat(v: AppView, a: Action, d: int, n: nat)
    requires
        wf(v),
        v.focus == Focus::Sidebar,
        a == Action::Up || a == Action::Down,
        a == Action::Down ==> d == 1,
        a == Action::Up ==> d == -1,
        n <= 6,
    ensures
        repeat(v, a, n) == (AppView {
            section_index: (v.section_index + n * d) % 6,
            section: section_of((v.section_index + n * d) % 6),
            ..v
        }),
    decreases n,
{
    if n == 0 {
        assert((v.section_index + 0 * d) % 6 == v.section_index);
    } else {
        lemma_sidebar_repeat(v, a, d, (n - 1) as nat);
        let prev = (v.section_index + (n - 1) * d) % 6;
        assert((prev + d) % 6 == (v.section_index + n * d) % 6) by (nonlinear_arith)
            requires
                prev == (v.section_index + (n - 1) * d) % 6,
        ;
    }
}

/// After any list navigation in a non-empty list, the cursor is on a
/// visible track.
pub proof fn law_cursor_on_visible(v: AppView, a: Action)
    requires
        wf(v),
        v.focus == Focus::List,
        visible(v.tracks, v.filter).len() > 0,
        a == Action::Up || a == Action::Down || a == Action::Top || a == Action::Bottom
            || a == Action::Next || a == Action::Prev,
    ensures
        selected(step(v, a)) is Some,
{
    lemma_visible_bounds(v.tracks, v.filter);
}

/// Down then up comes back to the same row when not on the last row.
pub proof fn law_down_then_up(v: AppView)
    requires
        wf(v),
        v.focus == Focus::List,
        0 <= v.list_index < visible(v.tracks, v.filter).len() - 1,
    ensures
        step(step(v, Action::Down), Action::Up) == v,
{
}

/// Activating the list plays the highlighted track from the start.
pub proof fn law_activate_plays_selection(v: AppView)
    requires
        v.focus == Focus::List,
        selected(v) is Some,
    ensures
        step(v, Action::Activate).current == selected(v),
        step(v, Action::Activate).playing,
        step(v, Action::Activate).position_ms == 0,
        step(v, Action::Activate).status == playing_status(selected(v)->0),
{
}

/// "Next" plays the following visible track.
pub proof fn law_next_plays_following(v: AppView)
    requires
        0 <= v.list_index < visible(v.tracks, v.filter).len() - 1,
    ensures
        step(v, Action::Next).list_index == v.list_index + 1,
        step(v, Action::Next).current == Some(
            v.tracks[visible(v.tracks, v.filter)[v.list_index + 1]],
        ),
        step(v, Action::Next).playing,
{
}

/// Choosing a platform filter lists only that platform's tracks and puts the
/// cursor back on the first row.
pub proof fn law_platform_filter(v: AppView, a: Action, k: int)
    requires
        a == Action::FilterSoundCloud || a == Action::FilterMixcloud,
        0 <= k < visible(step(v, a).tracks, step(v, a).filter).len(),
    ensures
        step(v, a).list_index == 0,
        step(v, a).tracks[visible(step(v, a).tracks, step(v, a).filter)[k]].platform == (
        if a == Action::FilterSoundCloud {
            Platform::SoundCloud
        } else {
            Platform::Mixcloud
        }),
{
    let w = step(v, a);
    lemma_visible_upto(w.tracks, w.filter, w.tracks.len() as int);
}

/// The engine hears of every change of playback: a `Play` effect names the
/// page of the track that is now current and playing from the start, a
/// `Toggle` flips the playing flag of the same track, a `SetVolume` carries
/// the new volume, a `Stop` leaves no current track, a `Load` names the
/// section now shown without touching playback, and an intent without effect leaves the current track,
/// the playing flag and the volume as they were.
pub proof fn law_effect_matches_state(v: AppView, a: Action)
    ensures
        step_effect(v, a) matches Some(EffectView::Play(u)) ==> (step(v, a).current matches Some(
            t,
        ) && t.permalink@ == u && step(v, a).playing && step(v, a).position_ms == 0),
        step_effect(v, a) == Some(EffectView::Toggle) ==> step(v, a).current == v.current
            && step(v, a).playing == !v.playing,
        step_effect(v, a) matches Some(EffectView::SetVolume(x)) ==> step(v, a).volume == x,
        step_effect(v, a) == Some(EffectView::Stop) ==> step(v, a).current is None
            && !step(v, a).playing && step(v, a).position_ms == 0,
        step_effect(v, a) matches Some(EffectView::Load(sec)) ==> sec == step(v, a).section
            && step(v, a).focus == Focus::List && step(v, a).current == v.current && step(
            v,
            a,
        ).playing == v.playing && step(v, a).volume == v.volume,
        step_effect(v, a) is None ==> step(v, a).current == v.current && step(v, a).playing
            == v.playing && step(v, a).volume == v.volume,
{
}

/// Three visualiser switches come back to the style shown before.
pub proof fn law_visual_cycle(v: AppView)
    ensures
        repeat(v, Action::CycleVisual, 3) == v,
{
    reveal_with_fuel(repeat, 4);
}

/// `Top` and `Bottom` reach the ends: in the list, the first row and the
/// last visible row (the first one when nothing is visible); in the
/// sidebar, the first and the last section. Nothing else moves.
pub proof fn law_edges(v: AppView)
    ensures
        v.focus == Focus::List ==> step(v, Action::Top).list_index == 0,
        v.focus == Focus::List && visible(v.tracks, v.filter).len() > 0 ==> step(
            v,
            Action::Bottom,
        ).list_index == visible(v.tracks, v.filter).len() - 1 && selected(step(v, Action::Bottom))
            == Some(v.tracks[visible(v.tracks, v.filter).last()]),
        v.focus == Focus::List && visible(v.tracks, v.filter).len() == 0 ==> step(
            v,
            Action::Bottom,
        ).list_index == 0,
        v.focus == Focus::Sidebar ==> step(v, Action::Top).section_index == 0 && step(
            v,
            Action::Top,
        ).section == Section::Likes,
        v.focus == Focus::Sidebar ==> step(v, Action::Bottom).section_index == SECTION_COUNT - 1
            && step(v, Action::Bottom).section == Section::Queue,
        step(v, Action::Top).current == v.current && step(v, Action::Bottom).current == v.current,
        step(v, Action::Top).focus == v.focus && step(v, Action::Bottom).focus == v.focus,
{
}

/// In the sidebar, `Down` goes to the next section and `Up` to the previous
/// one, wrapping around at the ends; the list is left alone.
pub proof fn law_sidebar_moves(v: AppView)
    requires
        wf(v),
        v.focus == Focus::Sidebar,
    ensures
        step(v, Action::Down).section_index == (if v.section_index == SECTION_COUNT - 1 {
            0
        } else {
            v.section_index + 1
        }),
        step(v, Action::Up).section_index == (if v.section_index == 0 {
            SECTION_COUNT - 1
        } else {
            v.section_index - 1
        }),
        step(v, Action::Down).section == section_of(step(v, Action::Down).section_index),
        step(v, Action::Down).list_index == v.list_index && step(v, Action::Up).list_index
            == v.list_index,
{
}

} // verus!

//! Decisions of the terminal front end: which intent a key stands for,
//! how long texts are shortened, and the demonstration playlist.
use vstd::prelude::*;
use crate::app::{self, Action, App, AppView, Effect, EffectView, Filter, Focus, Input, InputView, Visual};
use crate::config::{handle_of, normalize_handle};
use crate::model::{Platform, Track};
use crate::text;
use crate::text::{chars_of, push_char, string_of, string_of_range, trim_exec};

verus! {

/// A key press, as far as the front end tells keys apart.
#[derive(Debug, Clone, Copy, PartialEq, Eq, Structural)]
pub enum Key {
    Char(char),
    Up,
    Down,
    Left,
    Right,
    Enter,
    Tab,
    Esc,
    Backspace,
    Other,
}

/// What a key press does.
#[derive(Debug, Clone, Copy, PartialEq, Eq, Structural)]
pub enum KeyEffect {
    /// Apply an intent to the application state.
    Apply(Action),
    /// Show the key help in the status line.
    ShowHelp,
    /// Nothing.
    Ignore,
}

/// The key bindings (vim style, plus arrows); Ctrl-C always quits.
pub open spec fn effect_of(key: Key, ctrl: bool) -> KeyEffect {
    if ctrl && key == Key::Char('c') {
        KeyEffect::Apply(Action::Quit)
    } else {
        match key {
            Key::Char('q') => KeyEffect::Apply(Action::Quit),
            Key::Char(' ') => KeyEffect::Apply(Action::PlayPause),
            Key::Char('j') | Key::Down => KeyEffect::Apply(Action::Down),
            Key::Char('k') | Key::Up => KeyEffect::Apply(Action::Up),
            Key::Char('g') => KeyEffect::Apply(Action::Top),
            Key::Char('G') => KeyEffect::Apply(Action::Bottom),
            Key::Enter => KeyEffect::Apply(Action::Activate),
            Key::Tab => KeyEffect::Apply(Action::ToggleFocus),
            Key::Char('h') | Key::Left => KeyEffect::Apply(Action::FocusSidebar),
            Key::Char('l') | Key::Right => KeyEffect::Apply(Action::FocusList),
            Key::Char('n') => KeyEffect::Apply(Action::Next),
            Key::Char('p') => KeyEffect::Apply(Action::Prev),
            Key::Char('+') | Key::Char('=') => KeyEffect::Apply(Action::VolumeUp),
            Key::Char('-') => KeyEffect::Apply(Action::VolumeDown),
            Key::Char('1') => KeyEffect::Apply(Action::FilterAll),
            Key::Char('2') => KeyEffect::Apply(Action::FilterSoundCloud),
            Key::Char('3') => KeyEffect::Apply(Action::FilterMixcloud),
            Key::Char('s') => KeyEffect::Apply(Action::Stop),
            Key::Char(':') => KeyEffect::Apply(Action::BeginCommand),
            Key::Char('/') => KeyEffect::Apply(Action::BeginSearch),
            Key::Char('c') => KeyEffect::Apply(Action::BeginHandles),
            Key::Char('v') => KeyEffect::Apply(Action::CycleVisual),
            Key::Char('?') => KeyEffect::ShowHelp,
            _ => KeyEffect::Ignore,
        }
    }
}

/// What a key press does (`ctrl`: the Control modifier is held).
pub fn key_effect(key: Key, ctrl: bool) -> (r: KeyEffect)
    ensures
        r == effect_of(key, ctrl),
{
    if ctrl && key == Key::Char('c') {
        return KeyEffect::Apply(Action::Quit);
    }
    match key {
        Key::Char('q') => KeyEffect::Apply(Action::Quit),
        Key::Char(' ') => KeyEffect::Apply(Action::PlayPause),
        Key::Char('j') | Key::Down => KeyEffect::Apply(Action::Down),
        Key::Char('k') | Key::Up => KeyEffect::Apply(Action::Up),
        Key::Char('g') => KeyEffect::Apply(Action::Top),
        Key::Char('G') => KeyEffect::Apply(Action::Bottom),
        Key::Enter => KeyEffect::Apply(Action::Activate),
        Key::Tab => KeyEffect::Apply(Action::ToggleFocus),
        Key::Char('h') | Key::Left => KeyEffect::Apply(Action::FocusSidebar),
        Key::Char('l') | Key::Right => KeyEffect::Apply(Action::FocusList),
        Key::Char('n') => KeyEffect::Apply(Action::Next),
        Key::Char('p') => KeyEffect::Apply(Action::Prev),
        Key::Char('+') | Key::Char('=') => KeyEffect::Apply(Action::VolumeUp),
        Key::Char('-') => KeyEffect::Apply(Action::VolumeDown),
        Key::Char('1') => KeyEffect::Apply(Action::FilterAll),
        Key::Char('2') => KeyEffect::Apply(Action::FilterSoundCloud),
        Key::Char('3') => KeyEffect::Apply(Action::FilterMixcloud),
        Key::Char('s') => KeyEffect::Apply(Action::Stop),
        Key::Char(':') => KeyEffect::Apply(Action::BeginCommand),
        Key::Char('/') => KeyEffect::Apply(Action::BeginSearch),
        Key::Char('c') => KeyEffect::Apply(Action::BeginHandles),
        Key::Char('v') => KeyEffect::Apply(Action::CycleVisual),
        Key::Char('?') => KeyEffect::ShowHelp,
        _ => KeyEffect::Ignore,
    }
}

/// The key help shown in the status line.
pub open spec fn help_text() -> Seq<char> {
    "Aide : ':' URL · j/k naviguer · enter/clic jouer · space pause · n/p · 1/2/3 filtre · q quitter"@
}

/// The key help shown in the status line.
pub fn help() -> (r: String)
    ensures
        r@ == help_text(),
{
    "Aide : ':' URL · j/k naviguer · enter/clic jouer · space pause · n/p · 1/2/3 filtre · q quitter".to_owned()
}

/// A text shortened to `n` characters, marked with `…` when cut.
pub open spec fn shortened(s: Seq<char>, n: int) -> Seq<char> {
    if s.len() <= n {
        s
    } else {
        s.take(n).push('…')
    }
}

/// Shortens a text to `n` characters, adding `…` when it was longer.
pub fn truncate(s: &str, n: usize) -> (r: String)
    ensures
        r@ == shortened(s@, n as int),
{
    let cs = chars_of(s);
    if cs.len() <= n {
        s.to_owned()
    } else {
        let mut r = string_of_range(cs.as_slice(), 0, n);
        push_char(&mut r, '…');
        assert(cs@.subrange(0, n as int) =~= cs@.take(n as int));
        r
    }
}

/// Two playable demonstration tracks, one per platform.
pub fn demo_tracks() -> (r: Vec<Track>)
    ensures
        r@.len() == 2,
        r@[0].platform == Platform::SoundCloud,
        r@[0].artist@ == "Hidaka"@,
        r@[0].title@ == "90's J-POP NON STOP DJ MIX"@,
        r@[0].id@ == "https://soundcloud.com/user-885578460/90s-j-pop-non-stop-mix"@,
        r@[0].permalink@ == "https://soundcloud.com/user-885578460/90s-j-pop-non-stop-mix"@,
        r@[0].duration_ms == Some(4_233_000u64),
        r@[1].platform == Platform::Mixcloud,
        r@[1].artist@ == "NTS Radio"@,
        r@[1].title@ == "Andy Butler / Hercules & Love Affair"@,
        r@[1].id@
            == "https://www.mixcloud.com/NTSRadio/andy-butler-hercules-love-affair-19th-june-2026/"@,
        r@[1].permalink@
            == "https://www.mixcloud.com/NTSRadio/andy-butler-hercules-love-affair-19th-june-2026/"@,
        r@[1].duration_ms == Some(3_584_000u64),
{
    let mut v: Vec<Track> = Vec::new();
    v.push(
        Track {
            platform: Platform::SoundCloud,
            id: "https://soundcloud.com/user-885578460/90s-j-pop-non-stop-mix".to_owned(),
            title: "90's J-POP NON STOP DJ MIX".to_owned(),
            artist: "Hidaka".to_owned(),
            permalink: "https://soundcloud.com/user-885578460/90s-j-pop-non-stop-mix".to_owned(),
            duration_ms: Some(4_233_000),
        },
    );
    v.push(
        Track {
            platform: Platform::Mixcloud,
            id: "https://www.mixcloud.com/NTSRadio/andy-butler-hercules-love-affair-19th-june-2026/".to_owned(),
            title: "Andy Butler / Hercules & Love Affair".to_owned(),
            artist: "NTS Radio".to_owned(),
            permalink: "https://www.mixcloud.com/NTSRadio/andy-butler-hercules-love-affair-19th-june-2026/".to_owned(),
            duration_ms: Some(3_584_000),
        },
    );
    v
}

// ---------------------------------------------------------------------------
// The command line
// ---------------------------------------------------------------------------

/// The text typed so far.
pub open spec fn buffer(i: InputView) -> Seq<char> {
    match i {
        InputView::Command(b) => b,
        InputView::Search(b) => b,
        InputView::Handle(_, b) => b,
        InputView::Normal => Seq::empty(),
    }
}

/// The same command line holding another text.
pub open spec fn with_buffer(i: InputView, b: Seq<char>) -> InputView {
    match i {
        InputView::Command(_) => InputView::Command(b),
        InputView::Search(_) => InputView::Search(b),
        InputView::Handle(p, _) => InputView::Handle(p, b),
        InputView::Normal => InputView::Normal,
    }
}

/// The state after `Enter`: a URL or a query closes the line; the
/// SoundCloud handle moves on to the Mixcloud one, which closes it.
pub open spec fn submitted(v: AppView) -> AppView {
    match v.input {
        InputView::Handle(Platform::SoundCloud, _) => AppView {
            input: InputView::Handle(Platform::Mixcloud, Seq::empty()),
            ..v
        },
        _ => AppView { input: InputView::Normal, ..v },
    }
}

/// What `Enter` asks for: play the pasted URL, search the query (both
/// trimmed, nothing when blank), or remember the normalised handle.
pub open spec fn submit_effect(i: InputView) -> Option<EffectView> {
    match i {
        InputView::Command(b) => if text::trim(b).len() == 0 {
            None
        } else {
            Some(EffectView::Play(text::trim(b)))
        },
        InputView::Search(b) => if text::trim(b).len() == 0 {
            None
        } else {
            Some(EffectView::Search(text::trim(b)))
        },
        InputView::Handle(p, b) => Some(EffectView::SetHandle(p, handle_of(b))),
        InputView::Normal => None,
    }
}

/// The state after a key typed on the open command line: `Esc` closes it,
/// `Backspace` removes the last character, a character is appended,
/// `Enter` submits; other keys do nothing, and so does any key when the
/// line is closed.
pub open spec fn typed_state(v: AppView, key: Key) -> AppView {
    if v.input is Normal {
        v
    } else {
        match key {
            Key::Esc => AppView { input: InputView::Normal, ..v },
            Key::Backspace => AppView {
                input: with_buffer(
                    v.input,
                    if buffer(v.input).len() > 0 {
                        buffer(v.input).drop_last()
                    } else {
                        buffer(v.input)
                    },
                ),
                ..v
            },
            Key::Char(c) => AppView { input: with_buffer(v.input, buffer(v.input).push(c)), ..v },
            Key::Enter => submitted(v),
            _ => v,
        }
    }
}

/// What the engine or the front end must do after a typed key.
pub open spec fn typed_effect(v: AppView, key: Key) -> Option<EffectView> {
    if key == Key::Enter {
        submit_effect(v.input)
    } else {
        None
    }
}

impl App {
    fn set_buffer(&mut self, b: String)
        requires
            !(old(self)@.input is Normal),
        ensures
            final(self)@ == (AppView { input: with_buffer(old(self)@.input, b@), ..old(self)@ }),
    {
        self.input = match &self.input {
            Input::Command(_) => Input::Command(b),
            Input::Search(_) => Input::Search(b),
            Input::Handle(p, _) => Input::Handle(*p, b),
            Input::Normal => Input::Normal,
        };
    }

    /// Handles a key typed on the open command line; returns what must be
    /// done, if anything.
    pub fn type_key(&mut self, key: Key) -> (r: Option<Effect>)
        requires
            app::wf(old(self)@),
        ensures
            final(self)@ == typed_state(old(self)@, key),
            app::effect_view(r) == typed_effect(old(self)@, key),
            app::wf(final(self)@),
    {
        let buf: Vec<char> = match &self.input {
            Input::Normal => {
                return None;
            },
            Input::Command(b) => chars_of(b.as_str()),
            Input::Search(b) => chars_of(b.as_str()),
            Input::Handle(_, b) => chars_of(b.as_str()),
        };
        match key {
            Key::Esc => {
                self.input = Input::Normal;
                None
            },
            Key::Backspace => {
                let nb = if buf.len() > 0 {
                    string_of_range(buf.as_slice(), 0, buf.len() - 1)
                } else {
                    string_of(buf.as_slice())
                };
                proof {
                    if buf@.len() > 0 {
                        assert(buf@.subrange(0, buf@.len() - 1) =~= buf@.drop_last());
                    }
                }
                self.set_buffer(nb);
                None
            },
            Key::Char(c) => {
                let mut nb = string_of(buf.as_slice());
                push_char(&mut nb, c);
                self.set_buffer(nb);
                None
            },
            Key::Enter => self.submit(buf),
            _ => None,
        }
    }

    fn submit(&mut self, buf: Vec<char>) -> (r: Option<Effect>)
        requires
            !(old(self)@.input is Normal),
            buf@ == buffer(old(self)@.input),
        ensures
            final(self)@ == submitted(old(self)@),
            app::effect_view(r) == submit_effect(old(self)@.input),
    {
        match &self.input {
            Input::Handle(p, _) => {
                let p = *p;
                let typed = string_of(buf.as_slice());
                let h = normalize_handle(typed.as_str());
                self.input = match p {
                    Platform::SoundCloud => Input::Handle(Platform::Mixcloud, String::new()),
                    Platform::Mixcloud => Input::Normal,
                };
                Some(Effect::SetHandle(p, h))
            },
            Input::Search(_) => {
                self.input = Input::Normal;
                let t = trim_exec(buf.as_slice());
                if t.len() == 0 {
                    None
                } else {
                    Some(Effect::Search(string_of(t.as_slice())))
                }
            },
            _ => {
                self.input = Input::Normal;
                let t = trim_exec(buf.as_slice());
                if t.len() == 0 {
                    None
                } else {
                    Some(Effect::Play(string_of(t.as_slice())))
                }
            },
        }
    }
}

/// On the open command line, `Esc` closes it without asking for anything,
/// and a character typed then erased leaves everything as it was.
pub proof fn law_command_line(v: AppView, c: char)
    requires
        !(v.input is Normal),
    ensures
        typed_state(v, Key::Esc) == (AppView { input: InputView::Normal, ..v }),
        typed_effect(v, Key::Esc) is None,
        typed_state(typed_state(v, Key::Char(c)), Key::Backspace) == v,
{
    assert(buffer(v.input).push(c).drop_last() =~= buffer(v.input));
}

/// The navigation keys move as their labels say. With the list focused and
/// the cursor neither on the first nor on the last row: `n`, `j` and ↓ go
/// one row down (`n` also plays the new row), `p`, `k` and ↑ one row up (`p`
/// also plays it), `g` to the first row and `G` to the last. Holding Control
/// changes none of this.
pub proof fn law_keys_move(v: AppView, ctrl: bool)
    requires
        app::wf(v),
        v.focus == Focus::List,
        0 < v.list_index < app::visible(v.tracks, v.filter).len() - 1,
    ensures
        effect_of(Key::Char('n'), ctrl) matches KeyEffect::Apply(a) && app::step(v, a).list_index
            == v.list_index + 1 && app::step(v, a).current == app::selected(app::step(v, a))
            && app::step(v, a).playing,
        effect_of(Key::Char('p'), ctrl) matches KeyEffect::Apply(a) && app::step(v, a).list_index
            == v.list_index - 1 && app::step(v, a).current == app::selected(app::step(v, a))
            && app::step(v, a).playing,
        effect_of(Key::Char('j'), ctrl) matches KeyEffect::Apply(a) && app::step(v, a).list_index
            == v.list_index + 1 && app::step(v, a).current == v.current,
        effect_of(Key::Down, ctrl) matches KeyEffect::Apply(a) && app::step(v, a).list_index
            == v.list_index + 1,
        effect_of(Key::Char('k'), ctrl) matches KeyEffect::Apply(a) && app::step(v, a).list_index
            == v.list_index - 1 && app::step(v, a).current == v.current,
        effect_of(Key::Up, ctrl) matches KeyEffect::Apply(a) && app::step(v, a).list_index
            == v.list_index - 1,
        effect_of(Key::Char('g'), ctrl) matches KeyEffect::Apply(a) && app::step(v, a).list_index
            == 0,
        effect_of(Key::Char('G'), ctrl) matches KeyEffect::Apply(a) && app::step(v, a).list_index
            == app::visible(v.tracks, v.filter).len() - 1,
{
    app::lemma_visible_bounds(v.tracks, v.filter);
}

/// The other keys do what their labels say, in any state: `q` quits; `s`
/// stops; `+`/`=` raise the volume by 5 and `-` lowers it by 5, within
/// 0..=100; `1`, `2`, `3` show all tracks, SoundCloud only, Mixcloud only;
/// `h`/← focus the sidebar, `l`/→ the list, Tab switches; space pauses or
/// resumes a loaded track; `:`, `/` open the command line for a URL or a
/// query, `c` for the handles (Control-C quits instead); `v` switches the
/// visualiser; `?` shows the help.
pub proof fn law_keys_act(v: AppView, ctrl: bool)
    requires
        v.volume <= 100,
    ensures
        effect_of(Key::Char('q'), ctrl) matches KeyEffect::Apply(a) && app::step(v, a).should_quit,
        effect_of(Key::Char('c'), true) matches KeyEffect::Apply(a) && app::step(v, a).should_quit,
        effect_of(Key::Char('s'), ctrl) matches KeyEffect::Apply(a) && app::step(v, a).current is None
            && !app::step(v, a).playing,
        effect_of(Key::Char('+'), ctrl) matches KeyEffect::Apply(a) && app::step(v, a).volume == (
        if v.volume + 5 > 100 {
            100
        } else {
            v.volume + 5
        }),
        effect_of(Key::Char('='), ctrl) == effect_of(Key::Char('+'), ctrl),
        effect_of(Key::Char('-'), ctrl) matches KeyEffect::Apply(a) && app::step(v, a).volume == (
        if v.volume < 5 {
            0
        } else {
            v.volume - 5
        }),
        effect_of(Key::Char('1'), ctrl) matches KeyEffect::Apply(a) && app::step(v, a).filter
            == Filter::All,
        effect_of(Key::Char('2'), ctrl) matches KeyEffect::Apply(a) && app::step(v, a).filter
            == Filter::Only(Platform::SoundCloud),
        effect_of(Key::Char('3'), ctrl) matches KeyEffect::Apply(a) && app::step(v, a).filter
            == Filter::Only(Platform::Mixcloud),
        effect_of(Key::Char('h'), ctrl) matches KeyEffect::Apply(a) && app::step(v, a).focus
            == Focus::Sidebar,
        effect_of(Key::Left, ctrl) == effect_of(Key::Char('h'), ctrl),
        effect_of(Key::Char('l'), ctrl) matches KeyEffect::Apply(a) && app::step(v, a).focus
            == Focus::List,
        effect_of(Key::Right, ctrl) == effect_of(Key::Char('l'), ctrl),
        effect_of(Key::Tab, ctrl) matches KeyEffect::Apply(a) && app::step(v, a).focus != v.focus,
        v.current is Some ==> (effect_of(Key::Char(' '), ctrl) matches KeyEffect::Apply(a)
            && app::step(v, a).playing == !v.playing && app::step(v, a).current == v.current),
        effect_of(Key::Char(':'), ctrl) matches KeyEffect::Apply(a) && app::step(v, a).input
            == InputView::Command(Seq::empty()),
        effect_of(Key::Char('/'), ctrl) matches KeyEffect::Apply(a) && app::step(v, a).input
            == InputView::Search(Seq::empty()),
        effect_of(Key::Char('c'), false) matches KeyEffect::Apply(a) && app::step(v, a).input
            == InputView::Handle(Platform::SoundCloud, Seq::empty()),
        effect_of(Key::Char('v'), ctrl) matches KeyEffect::Apply(a) && app::step(v, a).visual
            != v.visual,
        effect_of(Key::Char('?'), ctrl) == KeyEffect::ShowHelp,
        effect_of(Key::Enter, ctrl) == KeyEffect::Apply(Action::Activate),
{
}

} // verus!

//! Clickable regions remembered from the last drawing, and the scrolling
//! rule of the track list. Drawing itself happens in the terminal front end.
use vstd::prelude::*;
use crate::app::{self, Action, App, AppView, Effect, EffectView, Filter, Focus, Section, SECTION_COUNT};
use crate::model::Platform;

verus! {

/// A rectangle of terminal cells.
#[derive(Debug, Clone, Copy, PartialEq, Eq, Structural, Default)]
pub struct Rect {
    pub x: u16,
    pub y: u16,
    pub width: u16,
    pub height: u16,
}

impl Rect {
    /// A rectangle at `(x, y)` of the given size.
    pub fn new(x: u16, y: u16, width: u16, height: u16) -> (r: Rect)
        ensures
            r == (Rect { x, y, width, height }),
    {
        Rect { x, y, width, height }
    }
}

/// The rectangle stays within the `u16` coordinate space (as terminal
/// layouts always do).
pub open spec fn fits(r: Rect) -> bool {
    r.x + r.width <= u16::MAX && r.y + r.height <= u16::MAX
}

/// Cell `(x, y)` lies in the rectangle.
pub open spec fn inside(r: Rect, x: int, y: int) -> bool {
    r.x <= x < r.x + r.width && r.y <= y < r.y + r.height
}

/// Whether cell `(x, y)` lies in `r`.
pub fn contains(r: &Rect, x: u16, y: u16) -> (b: bool)
    requires
        fits(*r),
    ensures
        b == inside(*r, x as int, y as int),
{
    x >= r.x && x < r.x + r.width && y >= r.y && y < r.y + r.height
}

/// Interactive regions remembered at the last drawing, for mouse hit tests.
#[derive(Debug, Clone, Default)]
pub struct Regions {
    pub sidebar_rows: Vec<Rect>,
    /// (tab rectangle, its filter)
    pub filter_tabs: Vec<(Rect, Filter)>,
    /// Inner area of the list (without border) and first visible index.
    pub list_inner: Rect,
    pub list_first: usize,
    pub list_len: usize,
    /// Play/pause button of the playback bar.
    pub playpause_btn: Rect,
}

/// Every remembered rectangle fits the coordinate space.
pub open spec fn regions_fit(r: Regions) -> bool {
    &&& forall|k: int| 0 <= k < r.sidebar_rows@.len() ==> fits(#[trigger] r.sidebar_rows@[k])
    &&& forall|k: int| 0 <= k < r.filter_tabs@.len() ==> fits(#[trigger] r.filter_tabs@[k].0)
    &&& fits(r.list_inner)
    &&& fits(r.playpause_btn)
}

/// Index of the first rectangle containing the cell.
pub open spec fn first_hit(rs: Seq<Rect>, x: int, y: int) -> Option<int>
    decreases rs.len(),
{
    if rs.len() == 0 {
        None
    } else {
        match first_hit(rs.drop_last(), x, y) {
            Some(i) => Some(i),
            None => if inside(rs.last(), x, y) {
                Some(rs.len() - 1)
            } else {
                None
            },
        }
    }
}

/// Index of the first tab containing the cell.
pub open spec fn first_tab(ts: Seq<(Rect, Filter)>, x: int, y: int) -> Option<int>
    decreases ts.len(),
{
    if ts.len() == 0 {
        None
    } else {
        match first_tab(ts.drop_last(), x, y) {
            Some(i) => Some(i),
            None => if inside(ts.last().0, x, y) {
                Some(ts.len() - 1)
            } else {
                None
            },
        }
    }
}

/// The list row under the cell, if it shows a track.
pub open spec fn row_at(r: Regions, x: int, y: int) -> Option<int> {
    if !inside(r.list_inner, x, y) {
        None
    } else {
        let offset = (y - r.list_inner.y) + r.list_first;
        if offset < r.list_len {
            Some(offset)
        } else {
            None
        }
    }
}

/// Whether the rectangle fits the coordinate space.
pub fn fits_exec(r: &Rect) -> (b: bool)
    ensures
        b == fits(*r),
{
    (r.x as u32) + (r.width as u32) <= 65535 && (r.y as u32) + (r.height as u32) <= 65535
}

impl Regions {
    /// Whether every remembered rectangle fits, as the hit tests need it.
    pub fn fit(&self) -> (b: bool)
        ensures
            b == regions_fit(*self),
    {
        let mut i: usize = 0;
        while i < self.sidebar_rows.len()
            invariant
                i <= self.sidebar_rows@.len(),
                forall|k: int| 0 <= k < i ==> fits(#[trigger] self.sidebar_rows@[k]),
            decreases self.sidebar_rows@.len() - i,
        {
            if !fits_exec(&self.sidebar_rows[i]) {
                return false;
            }
            i = i + 1;
        }
        let mut j: usize = 0;
        while j < self.filter_tabs.len()
            invariant
                j <= self.filter_tabs@.len(),
                forall|k: int| 0 <= k < j ==> fits(#[trigger] self.filter_tabs@[k].0),
            decreases self.filter_tabs@.len() - j,
        {
            if !fits_exec(&self.filter_tabs[j].0) {
                return false;
            }
            j = j + 1;
        }
        fits_exec(&self.list_inner) && fits_exec(&self.playpause_btn)
    }

    /// Whether the row offset under the cell fits in `usize`, as
    /// [`Regions::list_row_at`] needs it.
    pub fn row_offset_fits(&self, x: u16, y: u16) -> (b: bool)
        requires
            fits(self.list_inner),
        ensures
            b == (inside(self.list_inner, x as int, y as int) ==> (y - self.list_inner.y)
                + self.list_first <= usize::MAX),
    {
        if !contains(&self.list_inner, x, y) {
            return true;
        }
        ((y - self.list_inner.y) as usize) <= usize::MAX - self.list_first
    }

    /// The sidebar section clicked.
    pub fn section_at(&self, x: u16, y: u16) -> (r: Option<usize>)
        requires
            regions_fit(*self),
        ensures
            match first_hit(self.sidebar_rows@, x as int, y as int) {
                Some(i) => r == Some(i as usize),
                None => r is None,
            },
    {
        let mut i: usize = 0;
        while i < self.sidebar_rows.len()
            invariant
                i <= self.sidebar_rows@.len(),
                regions_fit(*self),
                first_hit(self.sidebar_rows@.take(i as int), x as int, y as int) is None,
            decreases self.sidebar_rows@.len() - i,
        {
            assert(self.sidebar_rows@.take(i + 1).drop_last() =~= self.sidebar_rows@.take(
                i as int,
            ));
            if contains(&self.sidebar_rows[i], x, y) {
                proof {
                    lemma_first_hit_prefix(self.sidebar_rows@, x as int, y as int, i as int + 1);
                }
                return Some(i);
            }
            i = i + 1;
        }
        assert(self.sidebar_rows@.take(i as int) =~= self.sidebar_rows@);
        None
    }

    /// The filter whose tab was clicked.
    pub fn filter_at(&self, x: u16, y: u16) -> (r: Option<Filter>)
        requires
            regions_fit(*self),
        ensures
            match first_tab(self.filter_tabs@, x as int, y as int) {
                Some(i) => r == Some(self.filter_tabs@[i].1),
                None => r is None,
            },
    {
        let mut i: usize = 0;
        while i < self.filter_tabs.len()
            invariant
                i <= self.filter_tabs@.len(),
                regions_fit(*self),
                first_tab(self.filter_tabs@.take(i as int), x as int, y as int) is None,
            decreases self.filter_tabs@.len() - i,
        {
            assert(self.filter_tabs@.take(i + 1).drop_last() =~= self.filter_tabs@.take(
                i as int,
            ));
            if contains(&self.filter_tabs[i].0, x, y) {
                proof {
                    lemma_first_tab_prefix(self.filter_tabs@, x as int, y as int, i as int + 1);
                }
                return Some(self.filter_tabs[i].1);
            }
            i = i + 1;
        }
        assert(self.filter_tabs@.take(i as int) =~= self.filter_tabs@);
        None
    }

    /// Index (in the filtered list) of the clicked row.
    pub fn list_row_at(&self, x: u16, y: u16) -> (r: Option<usize>)
        requires
            regions_fit(*self),
            inside(self.list_inner, x as int, y as int) ==> (y - self.list_inner.y)
                + self.list_first <= usize::MAX,
        ensures
            match row_at(*self, x as int, y as int) {
                Some(i) => r == Some(i as usize),
                None => r is None,
            },
    {
        if !contains(&self.list_inner, x, y) {
            return None;
        }
        let offset = (y - self.list_inner.y) as usize + self.list_first;
        if offset < self.list_len {
            Some(offset)
        } else {
            None
        }
    }

    /// Whether the play/pause button was clicked.
    pub fn playpause_at(&self, x: u16, y: u16) -> (b: bool)
        requires
            regions_fit(*self),
        ensures
            b == inside(self.playpause_btn, x as int, y as int),
    {
        contains(&self.playpause_btn, x, y)
    }
}

proof fn lemma_first_hit_prefix(rs: Seq<Rect>, x: int, y: int, n: int)
    requires
        0 <= n <= rs.len(),
        first_hit(rs.take(n), x, y) is Some,
    ensures
        first_hit(rs, x, y) == first_hit(rs.take(n), x, y),
    decreases rs.len() - n,
{
    if n < rs.len() {
        assert(rs.take(n + 1).drop_last() =~= rs.take(n));
        lemma_first_hit_prefix(rs, x, y, n + 1);
    } else {
        assert(rs.take(n) =~= rs);
    }
}

proof fn lemma_first_tab_prefix(ts: Seq<(Rect, Filter)>, x: int, y: int, n: int)
    requires
        0 <= n <= ts.len(),
        first_tab(ts.take(n), x, y) is Some,
    ensures
        first_tab(ts, x, y) == first_tab(ts.take(n), x, y),
    decreases ts.len() - n,
{
    if n < ts.len() {
        assert(ts.take(n + 1).drop_last() =~= ts.take(n));
        lemma_first_tab_prefix(ts, x, y, n + 1);
    } else {
        assert(ts.take(n) =~= ts);
    }
}

proof fn lemma_first_hit_bounds(rs: Seq<Rect>, x: int, y: int)
    ensures
        first_hit(rs, x, y) matches Some(i) ==> 0 <= i < rs.len(),
    decreases rs.len(),
{
    if rs.len() > 0 {
        lemma_first_hit_bounds(rs.drop_last(), x, y);
    }
}

/// First visible row of a list of `total` rows shown `height` at a time,
/// keeping the selection centred when possible.
pub open spec fn first_visible(selected: int, total: int, height: int) -> int {
    if total <= height || height == 0 {
        0
    } else {
        let half = height / 2;
        let from = if selected > half {
            selected - half
        } else {
            0
        };
        if from < total - height {
            from
        } else {
            total - height
        }
    }
}

// ---------------------------------------------------------------------------
// Mouse dispatch
// ---------------------------------------------------------------------------

/// A mouse event, as far as the interface tells them apart.
#[derive(Debug, Clone, Copy, PartialEq, Eq, Structural)]
pub enum Pointer {
    /// Left button pressed on cell `(x, y)`.
    LeftDown(u16, u16),
    ScrollUp,
    ScrollDown,
    Other,
}

/// The intent of a filter tab.
pub open spec fn filter_action(f: Filter) -> Action {
    match f {
        Filter::All => Action::FilterAll,
        Filter::Only(Platform::SoundCloud) => Action::FilterSoundCloud,
        Filter::Only(Platform::Mixcloud) => Action::FilterMixcloud,
    }
}

/// The intent of a filter tab.
pub fn filter_intent(f: Filter) -> (a: Action)
    ensures
        a == filter_action(f),
{
    match f {
        Filter::All => Action::FilterAll,
        Filter::Only(Platform::SoundCloud) => Action::FilterSoundCloud,
        Filter::Only(Platform::Mixcloud) => Action::FilterMixcloud,
    }
}

/// What a mouse event does, as a state before one intent and that intent:
/// a left click hits, in this order, a filter tab, the play/pause button, a
/// sidebar row (which selects and activates that section) or a list row
/// (which selects and plays that track); the wheel moves the list cursor.
pub open spec fn click_plan(v: AppView, r: Regions, p: Pointer) -> Option<(AppView, Action)> {
    match p {
        Pointer::LeftDown(x, y) => match first_tab(r.filter_tabs@, x as int, y as int) {
            Some(i) => Some((v, filter_action(r.filter_tabs@[i].1))),
            None => if inside(r.playpause_btn, x as int, y as int) {
                Some((v, Action::PlayPause))
            } else {
                match first_hit(r.sidebar_rows@, x as int, y as int) {
                    Some(i) => Some(
                        (
                            AppView {
                                focus: Focus::Sidebar,
                                section_index: i,
                                section: app::section_of(i),
                                ..v
                            },
                            Action::Activate,
                        ),
                    ),
                    None => match row_at(r, x as int, y as int) {
                        Some(i) => Some(
                            (AppView { focus: Focus::List, list_index: i, ..v }, Action::Activate),
                        ),
                        None => None,
                    },
                }
            },
        },
        Pointer::ScrollDown => Some((AppView { focus: Focus::List, ..v }, Action::Down)),
        Pointer::ScrollUp => Some((AppView { focus: Focus::List, ..v }, Action::Up)),
        Pointer::Other => None,
    }
}

/// The state after a mouse event.
pub open spec fn click_step(v: AppView, r: Regions, p: Pointer) -> AppView {
    match click_plan(v, r, p) {
        Some((w, a)) => app::step(w, a),
        None => v,
    }
}

/// What the audio engine must do after a mouse event.
pub open spec fn click_effect(v: AppView, r: Regions, p: Pointer) -> Option<EffectView> {
    match click_plan(v, r, p) {
        Some((w, a)) => app::step_effect(w, a),
        None => None,
    }
}

/// A click can be handled: a clicked sidebar row names a section, and a
/// clicked list row has an index the list cursor can hold.
pub open spec fn click_ok(r: Regions, p: Pointer) -> bool {
    match p {
        Pointer::LeftDown(x, y) => first_tab(r.filter_tabs@, x as int, y as int) is None && !inside(
            r.playpause_btn,
            x as int,
            y as int,
        ) ==> match first_hit(r.sidebar_rows@, x as int, y as int) {
            Some(i) => i < SECTION_COUNT,
            None => (inside(r.list_inner, x as int, y as int) ==> (y - r.list_inner.y)
                + r.list_first <= usize::MAX) && (row_at(r, x as int, y as int) matches Some(i)
                ==> i < i32::MAX),
        },
        _ => true,
    }
}

impl Regions {
    /// Whether a mouse event can be handled (see [`click_ok`]).
    pub fn click_allowed(&self, p: Pointer) -> (b: bool)
        requires
            regions_fit(*self),
        ensures
            b == click_ok(*self, p),
    {
        match p {
            Pointer::LeftDown(x, y) => {
                if self.filter_at(x, y).is_some() || self.playpause_at(x, y) {
                    return true;
                }
                proof {
                    lemma_first_hit_bounds(self.sidebar_rows@, x as int, y as int);
                }
                match self.section_at(x, y) {
                    Some(i) => {
                        assert(self.sidebar_rows@.len() == self.sidebar_rows.len());
                        i < SECTION_COUNT
                    },
                    None => {
                        if !self.row_offset_fits(x, y) {
                            return false;
                        }
                        match self.list_row_at(x, y) {
                            Some(i) => i < 2147483647usize,
                            None => true,
                        }
                    },
                }
            },
            _ => true,
        }
    }
}

impl App {
    /// Handles a mouse event on the regions of the last drawing; returns what
    /// the audio engine must do, if anything.
    pub fn click(&mut self, regions: &Regions, p: Pointer) -> (r: Option<Effect>)
        requires
            app::wf(old(self)@),
            regions_fit(*regions),
            click_ok(*regions, p),
        ensures
            final(self)@ == click_step(old(self)@, *regions, p),
            app::effect_view(r) == click_effect(old(self)@, *regions, p),
            app::wf(final(self)@),
    {
        match p {
            Pointer::LeftDown(x, y) => {
                if let Some(f) = regions.filter_at(x, y) {
                    return self.apply(filter_intent(f));
                }
                if regions.playpause_at(x, y) {
                    return self.apply(Action::PlayPause);
                }
                proof {
                    lemma_first_hit_bounds(regions.sidebar_rows@, x as int, y as int);
                }
                if let Some(i) = regions.section_at(x, y) {
                    self.focus = Focus::Sidebar;
                    self.section_index = i;
                    self.section = Section::at(i);
                    return self.apply(Action::Activate);
                }
                if let Some(i) = regions.list_row_at(x, y) {
                    self.focus = Focus::List;
                    self.list_index = i;
                    return self.apply(Action::Activate);
                }
                None
            },
            Pointer::ScrollDown => {
                self.focus = Focus::List;
                self.apply(Action::Down)
            },
            Pointer::ScrollUp => {
                self.focus = Focus::List;
                self.apply(Action::Up)
            },
            Pointer::Other => None,
        }
    }
}

/// First visible index, so that the selection stays on screen.
pub fn scroll_first(selected: usize, total: usize, height: usize) -> (r: usize)
    ensures
        r == first_visible(selected as int, total as int, height as int),
{
    if total <= height || height == 0 {
        return 0;
    }
    let half = height / 2;
    let max_first = total - height;
    let from = selected.saturating_sub(half);
    if from < max_first {
        from
    } else {
        max_first
    }
}

/// The selection is always on screen: with a non-empty window over a list
/// that holds the selection, the selected row lies between the first
/// visible row and the last one, and the window never runs past the list.
pub proof fn law_selection_visible(selected: int, total: int, height: int)
    requires
        0 <= selected < total,
        height > 0,
    ensures
        0 <= first_visible(selected, total, height),
        first_visible(selected, total, height) <= selected < first_visible(selected, total, height)
            + height,
        total > height ==> first_visible(selected, total, height) + height <= total,
{
}

/// The wheel moves the list cursor like the arrow keys: down one row
/// (staying on the last row) for `ScrollDown`, up one row (staying on the
/// first) for `ScrollUp`, and gives the focus to the list.
pub proof fn law_wheel(v: AppView, r: Regions)
    requires
        app::wf(v),
        app::visible(v.tracks, v.filter).len() > 0,
        v.list_index < app::visible(v.tracks, v.filter).len(),
    ensures
        click_step(v, r, Pointer::ScrollDown).focus == Focus::List,
        click_step(v, r, Pointer::ScrollUp).focus == Focus::List,
        v.list_index + 1 < app::visible(v.tracks, v.filter).len() ==> click_step(
            v,
            r,
            Pointer::ScrollDown,
        ).list_index == v.list_index + 1,
        v.list_index + 1 == app::visible(v.tracks, v.filter).len() ==> click_step(
            v,
            r,
            Pointer::ScrollDown,
        ).list_index == v.list_index,
        v.list_index > 0 ==> click_step(v, r, Pointer::ScrollUp).list_index == v.list_index - 1,
        v.list_index == 0 ==> click_step(v, r, Pointer::ScrollUp).list_index == 0,
        click_effect(v, r, Pointer::ScrollDown) is None && click_effect(v, r, Pointer::ScrollUp) is None,
        click_step(v, r, Pointer::ScrollDown).current == v.current,
{
}

/// What a left click does, by what lies under it: a filter tab sets its
/// filter; otherwise the play/pause button pauses or resumes the loaded
/// track; otherwise a sidebar row becomes the shown section (and is asked
/// for); otherwise a list row becomes the selection and is played; a click
/// on nothing changes nothing.
pub proof fn law_click_targets(v: AppView, r: Regions, x: u16, y: u16)
    requires
        app::wf(v),
    ensures
        first_tab(r.filter_tabs@, x as int, y as int) matches Some(i) ==> click_step(
            v,
            r,
            Pointer::LeftDown(x, y),
        ).filter == r.filter_tabs@[i].1,
        first_tab(r.filter_tabs@, x as int, y as int) is None && inside(
            r.playpause_btn,
            x as int,
            y as int,
        ) && v.current is Some ==> click_step(v, r, Pointer::LeftDown(x, y)).playing == !v.playing
            && click_effect(v, r, Pointer::LeftDown(x, y)) == Some(EffectView::Toggle),
        first_tab(r.filter_tabs@, x as int, y as int) is None && !inside(
            r.playpause_btn,
            x as int,
            y as int,
        ) ==> match first_hit(r.sidebar_rows@, x as int, y as int) {
            Some(i) => click_step(v, r, Pointer::LeftDown(x, y)).section_index == i && click_effect(
                v,
                r,
                Pointer::LeftDown(x, y),
            ) == Some(EffectView::Load(app::section_of(i))),
            None => match row_at(r, x as int, y as int) {
                Some(i) => click_step(v, r, Pointer::LeftDown(x, y)).list_index == i && (0 <= i
                    < app::visible(v.tracks, v.filter).len() ==> click_step(
                    v,
                    r,
                    Pointer::LeftDown(x, y),
                ).current == Some(v.tracks[app::visible(v.tracks, v.filter)[i]])
                    && click_effect(v, r, Pointer::LeftDown(x, y)) == Some(
                    EffectView::Play(v.tracks[app::visible(v.tracks, v.filter)[i]].permalink@),
                )),
                None => click_step(v, r, Pointer::LeftDown(x, y)) == v,
            },
        },
        click_step(v, r, Pointer::Other) == v,
{
}

} // verus!

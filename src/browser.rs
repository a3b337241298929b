//! The orchestrator: which tab is active, whether the chrome UI has focus,
//! incognito mode and the window flags, and how each command or event
//! changes them. The host performs the webview and window work that each
//! step asks for and reports the outcome back.
use vstd::prelude::*;
use vstd::string::StringExecFns;

use crate::history::HistoryView;
use crate::registry::{near_ok, next_ok, opt_view, lists_incognito, updated, without_incognito, TabMap};
use crate::state::{shown_url, BrowserState};
use crate::tab::{tab_state_ok, Tab, TabView};

verus! {

/// Height of the chrome bar above the tabs, in logical pixels.
pub const TITLE_HEIGHT: u32 = 40;

/// Smallest window width, in logical pixels.
pub const WIDTH: u32 = 800;

/// Smallest window height, in logical pixels.
pub const HEIGHT: u32 = 600;

/// Shortest interval between two effective re-focus actions, in milliseconds.
pub const FOCUS_DEBOUNCE_MS: u64 = 50;

/// The mathematical state of a [`Browser`].
pub ghost struct BrowserView {
    pub tabs: Map<Seq<char>, TabView>,
    /// The active tab's label; empty when no tab is active.
    pub active: Seq<char>,
    /// The chrome UI (search/address view) has input focus.
    pub focused: bool,
    pub incognito: bool,
    /// The in-memory scratch store of incognito mode is up.
    pub scratch_store: bool,
    /// The active tab when incognito mode was entered.
    pub saved: Seq<char>,
    pub maximized: bool,
    pub fullscreen: bool,
    /// When focus was last re-applied, in milliseconds.
    pub last_refocus: int,
}

/// Where input focus is to be re-applied.
pub enum FocusTarget {
    MainView,
    Tab(String),
}

/// What opening a page needs from the host.
pub enum OpenPlan {
    /// The page is already open in the tab with this label, now active; its
    /// history is to be moved to `index` (by `history.go(delta)` when `delta`
    /// is given), and the tab raised.
    Switch { label: String, index: usize, delta: Option<isize> },
    /// No open tab of the current kind shows the page: a new tab is to be
    /// created and handed to [`Browser::add_tab`].
    Create,
}

/// What closing the active tab did.
pub struct ClosedTab {
    /// The label of the tab closed, whose webview the host closes.
    pub closed: String,
    /// The tab made active in its place, which the host raises.
    pub switched_to: Option<String>,
}

/// What toggling incognito mode did.
pub enum IncognitoChange {
    /// Incognito mode was entered; the host brings up the scratch store.
    Entered,
    /// Incognito mode was left: these incognito tabs were closed, and the
    /// host closes their webviews and tears the scratch store down.
    Left { closed: Vec<String> },
}

pub open spec fn opt_target_view(t: Option<FocusTarget>) -> Option<Option<Seq<char>>> {
    match t {
        None => None,
        Some(FocusTarget::MainView) => Some(None),
        Some(FocusTarget::Tab(l)) => Some(Some(l@)),
    }
}

/// The browser's own state.
pub struct Browser {
    tabs: TabMap,
    label: String,
    is_focused: bool,
    incognito: bool,
    scratch_store: bool,
    saved_label: String,
    maximized: bool,
    fullscreen: bool,
    last_focus_changed: u64,
}

impl View for Browser {
    type V = BrowserView;

    closed spec fn view(&self) -> BrowserView {
        BrowserView {
            tabs: self.tabs@,
            active: self.label@,
            focused: self.is_focused,
            incognito: self.incognito,
            scratch_store: self.scratch_store,
            saved: self.saved_label@,
            maximized: self.maximized,
            fullscreen: self.fullscreen,
            last_refocus: self.last_focus_changed as int,
        }
    }
}

impl BrowserView {
    /// The active label is empty or names an open tab; no label is empty;
    /// outside incognito mode no incognito tab is open and no scratch store
    /// is up.
    pub open spec fn wf(self) -> bool {
        &&& (self.active.len() == 0 || self.tabs.contains_key(self.active))
        &&& forall|k: Seq<char>| #[trigger] self.tabs.contains_key(k) ==> k.len() > 0
        &&& !self.incognito ==> forall|k: Seq<char>|
            #[trigger] self.tabs.contains_key(k) ==> !self.tabs[k].incognito
        &&& self.scratch_store == self.incognito
        &&& !self.incognito ==> self.saved.len() == 0
    }

    /// The state after incognito mode is toggled. Entering remembers the
    /// active tab and clears the selection, so the next page opens in a fresh
    /// incognito tab; leaving closes every incognito tab and returns to the
    /// remembered tab if it is still open.
    pub open spec fn toggle_incognito(self) -> BrowserView {
        if self.incognito {
            let tabs = without_incognito(self.tabs);
            BrowserView {
                tabs,
                active: if tabs.contains_key(self.saved) {
                    self.saved
                } else {
                    Seq::empty()
                },
                incognito: false,
                scratch_store: false,
                saved: Seq::empty(),
                ..self
            }
        } else {
            BrowserView {
                active: Seq::empty(),
                incognito: true,
                scratch_store: true,
                saved: self.active,
                ..self
            }
        }
    }

    /// A new tab can be opened: its label is not empty and not open yet, and
    /// it is of the current incognito kind.
    pub open spec fn can_add(self, t: TabView) -> bool {
        t.label.len() > 0 && !self.tabs.contains_key(t.label) && t.incognito == self.incognito
    }

    /// The state after tab `t` is opened: filed, active, and focused.
    pub open spec fn with_tab(self, t: TabView) -> BrowserView {
        BrowserView { tabs: self.tabs.insert(t.label, t), active: t.label, focused: false, ..self }
    }

    /// `self` is an incognito session entered from `start`: every tab of
    /// `start` is still open and unchanged, every other tab is incognito, and
    /// `start`'s active tab is remembered.
    pub open spec fn incognito_session_of(self, start: BrowserView) -> bool {
        &&& self.incognito
        &&& self.saved == start.active
        &&& forall|k: Seq<char>| #[trigger] start.tabs.contains_key(k) ==> self.tabs.contains_key(k)
            && self.tabs[k] == start.tabs[k]
        &&& forall|k: Seq<char>| #[trigger] self.tabs.contains_key(k) && !start.tabs.contains_key(k)
            ==> self.tabs[k].incognito
    }

    /// The tab that navigation commands act on: the active one, while the
    /// chrome UI does not have focus.
    pub open spec fn nav_target(self) -> Option<Seq<char>> {
        if !self.focused && self.active.len() > 0 {
            Some(self.active)
        } else {
            None
        }
    }
}

/// Entering and then leaving incognito mode restores the browser exactly:
/// the same tabs, the same active tab, focus and window flags, and no
/// scratch store.
pub proof fn lemma_incognito_round_trip(b: BrowserView)
    requires
        b.wf(),
        !b.incognito,
    ensures
        b.toggle_incognito().toggle_incognito() == b,
{
    let e = b.toggle_incognito();
    assert(without_incognito(e.tabs) =~= b.tabs);
    if b.active.len() == 0 {
        assert(!b.tabs.contains_key(b.active));
        assert(b.active =~= Seq::<char>::empty());
    }
    assert(b.saved =~= Seq::<char>::empty());
}

/// Opening a new tab adds exactly that tab, makes it active and gives it
/// focus; every tab open before stays open and unchanged.
pub proof fn lemma_open_tab_keeps_others(b: BrowserView, t: TabView)
    requires
        b.wf(),
        b.can_add(t),
    ensures
        b.with_tab(t).wf(),
        b.with_tab(t).tabs.dom() == b.tabs.dom().insert(t.label),
        forall|k: Seq<char>| #[trigger] b.tabs.contains_key(k) ==> b.with_tab(t).tabs[k] == b.tabs[k],
        b.with_tab(t).tabs[t.label] == t,
        b.with_tab(t).active == t.label,
        !b.with_tab(t).focused,
{
    let n = b.with_tab(t);
    assert(n.tabs.dom() =~= b.tabs.dom().insert(t.label));
    assert forall|k: Seq<char>| #[trigger] n.tabs.contains_key(k) implies k.len() > 0 by {
        if k != t.label {
            assert(b.tabs.contains_key(k));
        }
    }
    if !n.incognito {
        assert forall|k: Seq<char>| #[trigger] n.tabs.contains_key(k) implies !n.tabs[k].incognito by {
            if k != t.label {
                assert(b.tabs.contains_key(k));
            }
        }
    }
}

/// Entering incognito mode starts an incognito session of the state left.
pub proof fn lemma_incognito_session_starts(b: BrowserView)
    requires
        b.wf(),
        !b.incognito,
    ensures
        b.toggle_incognito().incognito_session_of(b),
{
}

/// Opening a tab during an incognito session keeps it one.
pub proof fn lemma_incognito_session_open(s: BrowserView, start: BrowserView, t: TabView)
    requires
        s.incognito_session_of(start),
        s.can_add(t),
    ensures
        s.with_tab(t).incognito_session_of(start),
{
    let n = s.with_tab(t);
    assert forall|k: Seq<char>| #[trigger] start.tabs.contains_key(k) implies n.tabs.contains_key(k)
        && n.tabs[k] == start.tabs[k] by {
        assert(s.tabs.contains_key(k));
    }
}

/// Leaving an incognito session closes every tab opened in it and returns
/// to the state it was entered from: the same tabs, unchanged, and the same
/// active tab.
pub proof fn lemma_incognito_session_ends(s: BrowserView, start: BrowserView)
    requires
        start.wf(),
        !start.incognito,
        s.incognito_session_of(start),
    ensures
        s.toggle_incognito().tabs == start.tabs,
        s.toggle_incognito().active == start.active,
        !s.toggle_incognito().incognito,
        !s.toggle_incognito().scratch_store,
{
    let e = s.toggle_incognito();
    assert forall|k: Seq<char>| #[trigger] e.tabs.contains_key(k) <==> start.tabs.contains_key(k) by {
        if start.tabs.contains_key(k) {
            assert(s.tabs.contains_key(k));
        }
    }
    assert(e.tabs =~= start.tabs);
    if start.active.len() == 0 {
        assert(!start.tabs.contains_key(start.active));
        assert(start.active =~= Seq::<char>::empty());
    }
}

/// Well-formedness carries over to a state whose tabs are some of the
/// old ones and whose active tab is empty or open.
pub proof fn lemma_wf_fewer_tabs(a: BrowserView, b: BrowserView)
    requires
        a.wf(),
        forall|k: Seq<char>| #[trigger] b.tabs.contains_key(k) ==> a.tabs.contains_key(k) && b.tabs[k] == a.tabs[k],
        b.active.len() == 0 || b.tabs.contains_key(b.active),
        b.incognito == a.incognito,
        b.scratch_store == a.scratch_store,
        b.saved == a.saved,
    ensures
        b.wf(),
{
    assert forall|k: Seq<char>| #[trigger] b.tabs.contains_key(k) implies k.len() > 0 by {
        assert(a.tabs.contains_key(k));
    }
    if !b.incognito {
        assert forall|k: Seq<char>| #[trigger] b.tabs.contains_key(k) implies !b.tabs[k].incognito by {
            assert(a.tabs.contains_key(k));
        }
    }
}

/// Well-formedness carries over when one open tab changes in place and
/// keeps its incognito kind.
pub proof fn lemma_wf_tab_changed(a: BrowserView, b: BrowserView, l: Seq<char>, t: TabView)
    requires
        a.wf(),
        a.tabs.contains_key(l) ==> t.incognito == a.tabs[l].incognito,
        b == (BrowserView { tabs: updated(a.tabs, l, t), ..a }),
    ensures
        b.wf(),
{
    assert forall|k: Seq<char>| #[trigger] b.tabs.contains_key(k) implies k.len() > 0 by {
        assert(a.tabs.contains_key(k));
    }
    if !b.incognito {
        assert forall|k: Seq<char>| #[trigger] b.tabs.contains_key(k) implies !b.tabs[k].incognito by {
            assert(a.tabs.contains_key(k));
        }
    }
}

impl Browser {
    pub open spec fn wf(&self) -> bool {
        self.tabs_wf() && self@.wf()
    }

    pub closed spec fn tabs_wf(&self) -> bool {
        self.tabs.wf()
    }

    /// A browser with no tab, the chrome UI unfocused, outside incognito
    /// mode, created at `now_ms`.
    pub fn new(now_ms: u64) -> (r: Self)
        ensures
            r.wf(),
            forall|k: Seq<char>| !r@.tabs.contains_key(k),
            r@.active.len() == 0,
            !r@.focused,
            !r@.incognito,
            !r@.scratch_store,
            r@.saved.len() == 0,
            !r@.maximized,
            !r@.fullscreen,
            r@.last_refocus == now_ms,
    {
        Browser {
            tabs: TabMap::new(),
            label: String::new(),
            is_focused: false,
            incognito: false,
            scratch_store: false,
            saved_label: String::new(),
            maximized: false,
            fullscreen: false,
            last_focus_changed: now_ms,
        }
    }

    pub fn tabs(&self) -> (r: &TabMap)
        requires
            self.wf(),
        ensures
            r@ == self@.tabs,
            r.wf(),
    {
        &self.tabs
    }

    /// The active tab's label, if a tab is active.
    pub fn active_tab(&self) -> (r: Option<String>)
        ensures
            r is Some <==> self@.active.len() > 0,
            r matches Some(l) ==> l@ == self@.active,
    {
        if self.label.as_str().is_empty() {
            None
        } else {
            Some(self.label.clone())
        }
    }

    pub fn is_focused(&self) -> (r: bool)
        ensures
            r == self@.focused,
    {
        self.is_focused
    }

    pub fn is_incognito(&self) -> (r: bool)
        ensures
            r == self@.incognito,
    {
        self.incognito
    }

    pub fn is_maximized(&self) -> (r: bool)
        ensures
            r == self@.maximized,
    {
        self.maximized
    }

    pub fn is_fullscreen(&self) -> (r: bool)
        ensures
            r == self@.fullscreen,
    {
        self.fullscreen
    }

    /// Whether `label` is the active tab.
    pub fn is_current_tab(&self, label: &str) -> (r: bool)
        ensures
            r == (self@.active == label@),
    {
        let l = String::from_str(label);
        self.label == l
    }

    /// Hands input focus to the chrome UI; returns whether it did not have it
    /// already (the host then raises the chrome view and pushes the state).
    pub fn focus(&mut self) -> (r: bool)
        requires
            old(self).wf(),
        ensures
            final(self).wf(),
            r == !old(self)@.focused,
            final(self)@ == (BrowserView { focused: true, ..old(self)@ }),
    {
        let changed = !self.is_focused;
        self.is_focused = true;
        changed
    }

    /// Takes input focus from the chrome UI; returns whether it had it (the
    /// host then raises the active tab, if any, and pushes the state).
    pub fn blur(&mut self) -> (r: bool)
        requires
            old(self).wf(),
        ensures
            final(self).wf(),
            r == old(self)@.focused,
            final(self)@ == (BrowserView { focused: false, ..old(self)@ }),
    {
        let changed = self.is_focused;
        self.is_focused = false;
        changed
    }

    /// Makes the tab with this label active, if it is open; returns whether
    /// it is.
    pub fn switch_tab(&mut self, label: &str) -> (r: bool)
        requires
            old(self).wf(),
        ensures
            final(self).wf(),
            r == old(self)@.tabs.contains_key(label@),
            final(self)@ == if r {
                BrowserView { active: label@, ..old(self)@ }
            } else {
                old(self)@
            },
    {
        if self.tabs.contains(label) {
            self.label = String::from_str(label);
            true
        } else {
            false
        }
    }

    /// Opens a newly created tab: it is filed, made active and given focus.
    /// A tab with an empty label, with the label of an open tab, or of the
    /// other incognito kind than the current mode, is refused (returns
    /// `false`, nothing changes).
    pub fn add_tab(&mut self, tab: Tab) -> (r: bool)
        requires
            old(self).wf(),
            tab.wf(),
        ensures
            final(self).wf(),
            r == old(self)@.can_add(tab@),
            final(self)@ == if r {
                old(self)@.with_tab(tab@)
            } else {
                old(self)@
            },
    {
        if tab.label().is_empty() || self.tabs.contains(tab.label()) || tab.incognito() != self.incognito {
            return false;
        }
        let label = String::from_str(tab.label());
        self.tabs.insert(tab);
        self.label = label;
        self.is_focused = false;
        proof {
            lemma_open_tab_keeps_others(old(self)@, tab@);
        }
        true
    }

    /// Opens the page whose navigation entry is `found` (`None`: the page has
    /// no entry yet). When a tab of the current incognito kind already holds
    /// that entry it becomes active, focus goes to it, and the plan says where
    /// its history must move; otherwise nothing changes and the plan is to
    /// create a tab.
    pub fn open_tab_by_url(&mut self, found: Option<i64>) -> (r: OpenPlan)
        requires
            old(self).wf(),
        ensures
            final(self).wf(),
            open_plan_ok(old(self)@, found, r, final(self)@),
    {
        match found {
            Some(id) => self.open_tab(id),
            None => OpenPlan::Create,
        }
    }

    /// Opens the page with navigation entry `id`; see
    /// [`Browser::open_tab_by_url`].
    pub fn open_tab(&mut self, id: i64) -> (r: OpenPlan)
        requires
            old(self).wf(),
        ensures
            final(self).wf(),
            open_plan_ok(old(self)@, Some(id), r, final(self)@),
    {
        match self.tabs.any_open(id, self.incognito) {
            Some((label, index)) => {
                let tab = self.tabs.get(label.as_str());
                match tab {
                    Some(t) => {
                        let delta = t.history().go_delta(index);
                        self.label = label.clone();
                        self.is_focused = false;
                        proof {
                            lemma_wf_fewer_tabs(old(self)@, self@);
                        }
                        OpenPlan::Switch { label, index, delta }
                    },
                    None => OpenPlan::Create,
                }
            },
            None => OpenPlan::Create,
        }
    }

    /// Moves the history of the tab with this label to `index`, after its
    /// webview reported on the matching `history.go`; returns whether its
    /// cursor moved.
    pub fn go_tab(&mut self, label: &str, index: usize, command_ok: bool) -> (r: bool)
        requires
            old(self).wf(),
        ensures
            final(self).wf(),
            r == (old(self)@.tabs.contains_key(label@) && old(self)@.tabs[label@].history.can_go(index as int) && command_ok),
            final(self)@ == (BrowserView {
                tabs: updated(old(self)@.tabs, label@, TabView {
                    history: if r {
                        HistoryView { entries: old(self)@.tabs[label@].history.entries, cursor: index as int }
                    } else {
                        old(self)@.tabs[label@].history
                    },
                    ..old(self)@.tabs[label@]
                }),
                ..old(self)@
            }),
    {
        let r = self.tabs.go(label, index, command_ok);
        proof {
            assert(self@.tabs.dom() =~= old(self)@.tabs.dom());
        }
        r
    }

    /// Closes the active tab, unless the chrome UI has focus, and makes its
    /// neighbour active: the greatest label before it, or else, wrapping
    /// round, the greatest label.
    pub fn close_tab(&mut self) -> (r: Option<ClosedTab>)
        requires
            old(self).wf(),
        ensures
            final(self).wf(),
            close_ok(old(self)@, r, final(self)@),
    {
        if self.is_focused {
            return None;
        }
        let closed = self.label.clone();
        self.tabs.close(closed.as_str());
        self.label = String::new();
        let switched_to = self.tabs.next(closed.as_str());
        if let Some(n) = &switched_to {
            self.label = n.clone();
        }
        proof {
            lemma_wf_fewer_tabs(old(self)@, self@);
        }
        Some(ClosedTab { closed, switched_to })
    }

    /// Activates the neighbouring tab before the active one (with
    /// wrap-around), unless the chrome UI has focus; returns the tab made
    /// active.
    pub fn next_tab(&mut self) -> (r: Option<String>)
        requires
            old(self).wf(),
        ensures
            final(self).wf(),
            old(self)@.focused ==> r is None,
            !old(self)@.focused ==> next_ok(old(self)@.tabs, old(self)@.active, opt_view(r)),
            final(self)@ == match r {
                Some(n) => BrowserView { active: n@, ..old(self)@ },
                None => old(self)@,
            },
    {
        if self.is_focused {
            return None;
        }
        let n = self.tabs.next(self.label.as_str());
        if let Some(l) = &n {
            self.label = l.clone();
        }
        n
    }

    /// Activates the neighbouring tab after the active one (falling back to
    /// [`Browser::next_tab`]'s choice), unless the chrome UI has focus;
    /// returns the tab made active.
    pub fn near_tab(&mut self) -> (r: Option<String>)
        requires
            old(self).wf(),
        ensures
            final(self).wf(),
            old(self)@.focused ==> r is None,
            !old(self)@.focused ==> near_ok(old(self)@.tabs, old(self)@.active, opt_view(r)),
            final(self)@ == match r {
                Some(n) => BrowserView { active: n@, ..old(self)@ },
                None => old(self)@,
            },
    {
        if self.is_focused {
            return None;
        }
        let n = self.tabs.near(self.label.as_str());
        if let Some(l) = &n {
            self.label = l.clone();
        }
        n
    }

    /// Sets the title of the tab with this label; returns whether it is the active tab (whose change the host
    /// pushes to the chrome UI).
    pub fn change_tab_title(&mut self, label: &str, title: String) -> (r: bool)
        requires
            old(self).wf(),
        ensures
            final(self).wf(),
            r == (old(self)@.active == label@),
            final(self)@ == (BrowserView {
                tabs: updated(old(self)@.tabs, label@, TabView { title: title@, ..old(self)@.tabs[label@] }),
                ..old(self)@
            }),
    {
        self.tabs.set_title(label, title);
        proof {
            lemma_wf_tab_changed(old(self)@, self@, label@, TabView { title: title@, ..old(self)@.tabs[label@] });
        }
        self.is_current_tab(label)
    }

    /// Sets the icon URL of the tab with this label; returns whether it is the active tab (whose change the host
    /// pushes to the chrome UI).
    pub fn change_tab_icon(&mut self, label: &str, icon_url: String) -> (r: bool)
        requires
            old(self).wf(),
        ensures
            final(self).wf(),
            r == (old(self)@.active == label@),
            final(self)@ == (BrowserView {
                tabs: updated(old(self)@.tabs, label@, TabView { icon_url: icon_url@, ..old(self)@.tabs[label@] }),
                ..old(self)@
            }),
    {
        self.tabs.set_icon(label, icon_url);
        proof {
            lemma_wf_tab_changed(old(self)@, self@, label@, TabView { icon_url: icon_url@, ..old(self)@.tabs[label@] });
        }
        self.is_current_tab(label)
    }

    /// Sets whether the tab with this label is loading; returns whether it is the active tab (whose change the host
    /// pushes to the chrome UI).
    pub fn change_tab_loading_state(&mut self, label: &str, loading: bool) -> (r: bool)
        requires
            old(self).wf(),
        ensures
            final(self).wf(),
            r == (old(self)@.active == label@),
            final(self)@ == (BrowserView {
                tabs: updated(old(self)@.tabs, label@, TabView { loading: loading, ..old(self)@.tabs[label@] }),
                ..old(self)@
            }),
    {
        self.tabs.set_loading(label, loading);
        proof {
            lemma_wf_tab_changed(old(self)@, self@, label@, TabView { loading: loading, ..old(self)@.tabs[label@] });
        }
        self.is_current_tab(label)
    }

    /// Records in the tab with this label the navigation to entry `id` (a page
    /// load, a title change or `history.pushState`), the engine reporting `ext`
    /// history entries (`0`: unknown); see [`crate::HistoryTrack::insert`].
    /// Returns whether it is the active tab.
    pub fn push_history_state(&mut self, label: &str, id: i64, ext: usize) -> (r: bool)
        requires
            old(self).wf(),
            old(self)@.tabs.contains_key(label@) ==> old(self)@.tabs[label@].history.entries.len() < isize::MAX,
        ensures
            final(self).wf(),
            r == (old(self)@.active == label@),
            final(self)@ == (BrowserView {
                tabs: updated(old(self)@.tabs, label@, TabView { history: old(self)@.tabs[label@].history.insert(id, ext as int), ..old(self)@.tabs[label@] }),
                ..old(self)@
            }),
    {
        self.tabs.insert_history(label, id, ext);
        proof {
            lemma_wf_tab_changed(old(self)@, self@, label@, TabView { history: old(self)@.tabs[label@].history.insert(id, ext as int), ..old(self)@.tabs[label@] });
        }
        self.is_current_tab(label)
    }

    /// Replaces in the tab with this label the current navigation by entry
    /// `id` (`history.replaceState`), the engine reporting `ext` history
    /// entries; see [`crate::HistoryTrack::replace`].
    /// Returns whether it is the active tab.
    pub fn replace_history_state(&mut self, label: &str, id: i64, ext: usize) -> (r: bool)
        requires
            old(self).wf(),
            old(self)@.tabs.contains_key(label@) ==> old(self)@.tabs[label@].history.entries.len() < isize::MAX,
        ensures
            final(self).wf(),
            r == (old(self)@.active == label@),
            final(self)@ == (BrowserView {
                tabs: updated(old(self)@.tabs, label@, TabView { history: old(self)@.tabs[label@].history.replace(id, ext as int), ..old(self)@.tabs[label@] }),
                ..old(self)@
            }),
    {
        self.tabs.replace_history(label, id, ext);
        proof {
            lemma_wf_tab_changed(old(self)@, self@, label@, TabView { history: old(self)@.tabs[label@].history.replace(id, ext as int), ..old(self)@.tabs[label@] });
        }
        self.is_current_tab(label)
    }

    /// Records in the tab with this label the in-page navigation to entry `id`
    /// (a fragment change), the engine reporting `ext` history entries.
    /// Returns whether it is the active tab.
    pub fn hash_changed(&mut self, label: &str, id: i64, ext: usize) -> (r: bool)
        requires
            old(self).wf(),
            old(self)@.tabs.contains_key(label@) ==> old(self)@.tabs[label@].history.entries.len() < isize::MAX,
        ensures
            final(self).wf(),
            r == (old(self)@.active == label@),
            final(self)@ == (BrowserView {
                tabs: updated(old(self)@.tabs, label@, TabView { history: old(self)@.tabs[label@].history.insert(id, ext as int), ..old(self)@.tabs[label@] }),
                ..old(self)@
            }),
    {
        self.tabs.insert_history(label, id, ext);
        proof {
            lemma_wf_tab_changed(old(self)@, self@, label@, TabView { history: old(self)@.tabs[label@].history.insert(id, ext as int), ..old(self)@.tabs[label@] });
        }
        self.is_current_tab(label)
    }

    /// The tab that navigation commands act on: the active one, while the
    /// chrome UI does not have focus.
    pub fn nav_target(&self) -> (r: Option<String>)
        ensures
            opt_view(r) == self@.nav_target(),
    {
        if !self.is_focused && !self.label.as_str().is_empty() {
            Some(self.label.clone())
        } else {
            None
        }
    }

    /// The tab whose webview is to run `history.back()`: the navigation
    /// target, when it can go back.
    pub fn back_command(&self) -> (r: Option<String>)
        requires
            self.wf(),
        ensures
            opt_view(r) == match self@.nav_target() {
                Some(l) => if self@.tabs.contains_key(l) && self@.tabs[l].history.can_back() {
                    Some(l)
                } else {
                    None
                },
                None => None,
            },
    {
        match self.nav_target() {
            Some(l) => match self.tabs.get(l.as_str()) {
                Some(t) => if t.can_back() {
                    Some(l)
                } else {
                    None
                },
                None => None,
            },
            None => None,
        }
    }

    /// The tab whose webview is to run `history.forward()`: the navigation
    /// target, when it can go forward.
    pub fn forward_command(&self) -> (r: Option<String>)
        requires
            self.wf(),
        ensures
            opt_view(r) == match self@.nav_target() {
                Some(l) => if self@.tabs.contains_key(l) && self@.tabs[l].history.can_forward() {
                    Some(l)
                } else {
                    None
                },
                None => None,
            },
    {
        match self.nav_target() {
            Some(l) => match self.tabs.get(l.as_str()) {
                Some(t) => if t.can_forward() {
                    Some(l)
                } else {
                    None
                },
                None => None,
            },
            None => None,
        }
    }

    /// The tab whose webview is to run `history.go(delta)` to reach history
    /// position `index`, with that delta: the navigation target, when
    /// `index` is another position in its history.
    pub fn go_command(&self, index: usize) -> (r: Option<(String, isize)>)
        requires
            self.wf(),
        ensures
            match r {
                Some((l, d)) => self@.nav_target() == Some(l@) && self@.tabs.contains_key(l@)
                    && self@.tabs[l@].history.can_go(index as int)
                    && d == index - self@.tabs[l@].history.cursor,
                None => !(self@.nav_target() matches Some(l) && self@.tabs.contains_key(l)
                    && self@.tabs[l].history.can_go(index as int)),
            },
    {
        match self.nav_target() {
            Some(l) => match self.tabs.get(l.as_str()) {
                Some(t) => match t.history().go_delta(index) {
                    Some(d) => Some((l, d)),
                    None => None,
                },
                None => None,
            },
            None => None,
        }
    }

    /// Steps the navigation target back, after its webview reported on
    /// `history.back()`; returns whether its cursor moved.
    pub fn back(&mut self, command_ok: bool) -> (r: bool)
        requires
            old(self).wf(),
        ensures
            final(self).wf(),
            match old(self)@.nav_target() {
                Some(l) => {
                    &&& r == (old(self)@.tabs.contains_key(l) && old(self)@.tabs[l].history.can_back() && command_ok)
                    &&& final(self)@ == (BrowserView {
                        tabs: updated(old(self)@.tabs, l, TabView { history: old(self)@.tabs[l].history.back(command_ok), ..old(self)@.tabs[l] }),
                        ..old(self)@
                    })
                },
                None => !r && final(self)@ == old(self)@,
            },
    {
        match self.nav_target() {
            Some(l) => {
                let r = self.tabs.back(l.as_str(), command_ok);
                proof {
                    lemma_wf_tab_changed(old(self)@, self@, l@, TabView { history: old(self)@.tabs[l@].history.back(command_ok), ..old(self)@.tabs[l@] });
                }
                r
            },
            None => false,
        }
    }

    /// Steps the navigation target forward, after its webview reported on
    /// `history.forward()`; returns whether its cursor moved.
    pub fn forward(&mut self, command_ok: bool) -> (r: bool)
        requires
            old(self).wf(),
        ensures
            final(self).wf(),
            match old(self)@.nav_target() {
                Some(l) => {
                    &&& r == (old(self)@.tabs.contains_key(l) && old(self)@.tabs[l].history.can_forward() && command_ok)
                    &&& final(self)@ == (BrowserView {
                        tabs: updated(old(self)@.tabs, l, TabView { history: old(self)@.tabs[l].history.forward(command_ok), ..old(self)@.tabs[l] }),
                        ..old(self)@
                    })
                },
                None => !r && final(self)@ == old(self)@,
            },
    {
        match self.nav_target() {
            Some(l) => {
                let r = self.tabs.forward(l.as_str(), command_ok);
                proof {
                    lemma_wf_tab_changed(old(self)@, self@, l@, TabView { history: old(self)@.tabs[l@].history.forward(command_ok), ..old(self)@.tabs[l@] });
                }
                r
            },
            None => false,
        }
    }

    /// Moves the navigation target to history position `index`, after its
    /// webview reported on the matching `history.go`; returns whether its
    /// cursor moved.
    pub fn go(&mut self, index: usize, command_ok: bool) -> (r: bool)
        requires
            old(self).wf(),
        ensures
            final(self).wf(),
            match old(self)@.nav_target() {
                Some(l) => {
                    &&& r == (old(self)@.tabs.contains_key(l) && old(self)@.tabs[l].history.can_go(index as int) && command_ok)
                    &&& final(self)@ == (BrowserView {
                        tabs: updated(old(self)@.tabs, l, TabView {
                            history: if r {
                                HistoryView { entries: old(self)@.tabs[l].history.entries, cursor: index as int }
                            } else {
                                old(self)@.tabs[l].history
                            },
                            ..old(self)@.tabs[l]
                        }),
                        ..old(self)@
                    })
                },
                None => !r && final(self)@ == old(self)@,
            },
    {
        match self.nav_target() {
            Some(l) => self.go_tab(l.as_str(), index, command_ok),
            None => false,
        }
    }

    /// The tab whose webview is to reload: the navigation target.
    pub fn reload(&self) -> (r: Option<String>)
        ensures
            opt_view(r) == self@.nav_target(),
    {
        self.nav_target()
    }

    /// The window's new full-screen setting when full screen is toggled; none
    /// while the chrome UI has focus.
    pub fn fullscreen(&self) -> (r: Option<bool>)
        ensures
            r == if self@.focused {
                None
            } else {
                Some(!self@.fullscreen)
            },
    {
        if self.is_focused {
            None
        } else {
            Some(!self.fullscreen)
        }
    }

    /// Records the window's full-screen setting; returns the height of the
    /// chrome bar the tabs sit below (none in full screen).
    pub fn fullscreen_changed(&mut self, is_fullscreen: bool) -> (r: u32)
        requires
            old(self).wf(),
        ensures
            final(self).wf(),
            final(self)@ == (BrowserView { fullscreen: is_fullscreen, ..old(self)@ }),
            r == if is_fullscreen { 0 } else { TITLE_HEIGHT },
    {
        self.fullscreen = is_fullscreen;
        self.chrome_height()
    }

    /// Height of the chrome bar above the tabs: none in full screen.
    pub fn chrome_height(&self) -> (r: u32)
        ensures
            r == if self@.fullscreen { 0 } else { TITLE_HEIGHT },
    {
        if self.fullscreen {
            0
        } else {
            TITLE_HEIGHT
        }
    }

    /// The size every tab takes after the window's content area became
    /// `width` x `height` logical pixels: the area below the chrome bar. None
    /// when no tab is active or the window is below its smallest size
    /// (minimised).
    pub fn resize(&self, width: u32, height: u32) -> (r: Option<(u32, u32)>)
        ensures
            r == if self@.active.len() == 0 || width < WIDTH || height < HEIGHT {
                None
            } else {
                Some((width, (height - if self@.fullscreen { 0u32 } else { TITLE_HEIGHT }) as u32))
            },
    {
        if self.label.as_str().is_empty() || width < WIDTH || height < HEIGHT {
            None
        } else {
            Some((width, height - self.chrome_height()))
        }
    }

    /// Records that the window was maximised.
    pub fn maximize(&mut self)
        requires
            old(self).wf(),
        ensures
            final(self).wf(),
            final(self)@ == (BrowserView { maximized: true, ..old(self)@ }),
    {
        self.maximized = true;
    }

    /// Records that the window was restored from maximised.
    pub fn unmaximize(&mut self)
        requires
            old(self).wf(),
        ensures
            final(self).wf(),
            final(self)@ == (BrowserView { maximized: false, ..old(self)@ }),
    {
        self.maximized = false;
    }

    /// Where to re-apply input focus at `now_ms`: the chrome view while it
    /// has focus or no tab is active, else the active tab. Nothing when focus
    /// was re-applied less than [`FOCUS_DEBOUNCE_MS`] before, which breaks the
    /// loop of window-focus events that programmatic focusing causes.
    pub fn focus_changed(&mut self, now_ms: u64) -> (r: Option<FocusTarget>)
        requires
            old(self).wf(),
        ensures
            final(self).wf(),
            now_ms < old(self)@.last_refocus + FOCUS_DEBOUNCE_MS ==> r is None && final(self)@ == old(self)@,
            now_ms >= old(self)@.last_refocus + FOCUS_DEBOUNCE_MS ==> {
                &&& final(self)@ == (BrowserView { last_refocus: now_ms as int, ..old(self)@ })
                &&& opt_target_view(r) == Some(if old(self)@.focused || old(self)@.active.len() == 0 {
                    None
                } else {
                    Some(old(self)@.active)
                })
            },
    {
        if now_ms < self.last_focus_changed || now_ms - self.last_focus_changed < FOCUS_DEBOUNCE_MS {
            return None;
        }
        self.last_focus_changed = now_ms;
        if self.is_focused || self.label.as_str().is_empty() {
            Some(FocusTarget::MainView)
        } else {
            Some(FocusTarget::Tab(self.label.clone()))
        }
    }

    /// The state snapshot for the tab with label `label` (the active tab when
    /// none is given), whose webview shows `url`: that tab's part, or the
    /// defaults when there is no such tab, with the window-level flags.
    pub fn get_state(&self, label: Option<&str>, url: &str) -> (r: BrowserState)
        requires
            self.wf(),
        ensures
            state_ok(self@, match label {
                Some(l) => l@,
                None => self@.active,
            }, url@, r),
    {
        let key: &str = match label {
            Some(l) => l,
            None => self.label.as_str(),
        };
        let mut state = match self.tabs.get_state(key, url) {
            Some(s) => s,
            None => BrowserState::default(),
        };
        state.maximized = self.maximized;
        state.focus = self.is_focused;
        state.incognito = self.incognito;
        state
    }

    /// Leaving picture-in-picture in the tab with this label: focus leaves
    /// the chrome UI and that tab becomes active, if it is open. Returns
    /// whether it is.
    pub fn leave_picture_in_picture(&mut self, label: &str) -> (r: bool)
        requires
            old(self).wf(),
        ensures
            final(self).wf(),
            r == old(self)@.tabs.contains_key(label@),
            final(self)@ == if r {
                BrowserView { focused: false, active: label@, ..old(self)@ }
            } else {
                BrowserView { focused: false, ..old(self)@ }
            },
    {
        self.blur();
        self.switch_tab(label)
    }

    /// Toggles incognito mode; see [`BrowserView::toggle_incognito`].
    pub fn incognito(&mut self) -> (r: IncognitoChange)
        requires
            old(self).wf(),
        ensures
            final(self).wf(),
            final(self)@ == old(self)@.toggle_incognito(),
            r is Entered <==> !old(self)@.incognito,
            r matches IncognitoChange::Left { closed } ==> lists_incognito(old(self)@.tabs, closed@),
    {
        if self.incognito {
            let closed = self.tabs.close_incognito();
            self.incognito = false;
            self.scratch_store = false;
            if self.tabs.contains(self.saved_label.as_str()) {
                self.label = self.saved_label.clone();
            } else {
                self.label = String::new();
            }
            self.saved_label = String::new();
            proof {
                assert forall|k: Seq<char>| #[trigger] self@.tabs.contains_key(k) implies k.len() > 0 by {
                    assert(old(self)@.tabs.contains_key(k));
                }
            }
            IncognitoChange::Left { closed }
        } else {
            self.incognito = true;
            self.scratch_store = true;
            self.saved_label = self.label.clone();
            self.label = String::new();
            proof {
                assert forall|k: Seq<char>| #[trigger] self@.tabs.contains_key(k) implies k.len() > 0 by {
                    assert(old(self)@.tabs.contains_key(k));
                }
            }
            IncognitoChange::Entered
        }
    }
}

/// `s` is the snapshot of browser `b` for the tab labelled `key` whose
/// webview shows `url`.
pub open spec fn state_ok(b: BrowserView, key: Seq<char>, url: Seq<char>, s: BrowserState) -> bool {
    &&& if b.tabs.contains_key(key) {
        let t = b.tabs[key];
        &&& s.icon_url@ == t.icon_url
        &&& s.title@ == t.title
        &&& s.url@ == shown_url(url)
        &&& s.loading == t.loading
        &&& s.can_back == t.history.can_back()
        &&& s.can_forward == t.history.can_forward()
    } else {
        &&& s.icon_url@.len() == 0
        &&& s.title@ == "白洞"@
        &&& s.url@ == "White Hole"@
        &&& !s.loading
        &&& !s.can_back
        &&& !s.can_forward
    }
    &&& s.maximized == b.maximized
    &&& s.focus == b.focused
    &&& s.incognito == b.incognito
}

/// What [`Browser::close_tab`] owes: nothing while the chrome UI has focus;
/// otherwise the active tab is closed and its neighbour made active.
pub open spec fn close_ok(old: BrowserView, r: Option<ClosedTab>, new: BrowserView) -> bool {
    if old.focused {
        r is None && new == old
    } else {
        match r {
            Some(c) => {
                &&& c.closed@ == old.active
                &&& next_ok(old.tabs.remove(old.active), old.active, opt_view(c.switched_to))
                &&& new == (BrowserView {
                    tabs: old.tabs.remove(old.active),
                    active: match c.switched_to {
                        Some(n) => n@,
                        None => Seq::empty(),
                    },
                    ..old
                })
            },
            None => false,
        }
    }
}

/// What [`Browser::open_tab`] owes: with `found` naming an entry that an open
/// tab of the current kind holds, it switches to such a tab and plans the
/// move of its history to that entry; otherwise nothing changes and a new tab
/// is planned.
pub open spec fn open_plan_ok(old: BrowserView, found: Option<i64>, r: OpenPlan, new: BrowserView) -> bool {
    match r {
        OpenPlan::Switch { label, index, delta } => {
            &&& found matches Some(id)
            &&& old.tabs.contains_key(label@)
            &&& old.tabs[label@].incognito == old.incognito
            &&& index < old.tabs[label@].history.entries.len()
            &&& old.tabs[label@].history.entries[index as int] == id
            &&& forall|j: int| 0 <= j < index ==> old.tabs[label@].history.entries[j] != id
            &&& delta == if old.tabs[label@].history.can_go(index as int) {
                Some((index - old.tabs[label@].history.cursor) as isize)
            } else {
                None
            }
            &&& new == (BrowserView { active: label@, focused: false, ..old })
        },
        OpenPlan::Create => {
            &&& found matches Some(id) ==> forall|k: Seq<char>|
                #[trigger] old.tabs.contains_key(k) && old.tabs[k].incognito == old.incognito
                    ==> !old.tabs[k].history.entries.contains(id)
            &&& new == old
        },
    }
}

} // verus!

//! One browser tab: its display state and its navigation history. The
//! embedded webview that shows the tab is owned by the host and is known here
//! only by the tab's label.
use vstd::prelude::*;
use vstd::string::StringExecFns;

use crate::history::{HistoryTrack, HistoryView};
use crate::state::{shown_url, BrowserState};

verus! {

/// Switches the in-page dark-mode script off.
pub const DARKREADER_DISABLE_SCRIPT: &'static str = r#"DarkReader.auto(false)"#;

/// Switches the in-page dark-mode script on, with the browser's colours.
pub const DARKREADER_ENABLE_SCRIPT: &'static str = r#"DarkReader.auto({
  darkSchemeBackgroundColor: "\#1D232A",
  darkSchemeTextColor: "\#ECFAFF",
  lightSchemeBackgroundColor: "\#FFFFFF",
  lightSchemeTextColor: "\#18181B",
  brightness: 100,
  contrast: 90,
  sepia: 10,
})"#;

/// Whether `s` has the shape of a lower-case hyphenated UUID
/// (`xxxxxxxx-xxxx-xxxx-xxxx-xxxxxxxxxxxx`).
pub open spec fn is_hyphenated_uuid(s: Seq<char>) -> bool {
    &&& s.len() == 36
    &&& forall|i: int|
        0 <= i < 36 ==> if i == 8 || i == 13 || i == 18 || i == 23 {
            #[trigger] s[i] == '-'
        } else {
            ('0' <= s[i] <= '9') || ('a' <= s[i] <= 'f')
        }
}

/// Relies on `uuid::Uuid::now_v7` and its `Display`: a fresh time-ordered
/// identifier, written as a lower-case hyphenated UUID.
#[verifier::external_body]
fn fresh_label() -> (r: String)
    ensures
        is_hyphenated_uuid(r@),
{
    uuid::Uuid::now_v7().to_string()
}

/// `s` is the part of a state snapshot that tab `t` supplies when its webview
/// shows `url`: the window-level flags are left off.
pub open spec fn tab_state_ok(t: TabView, url: Seq<char>, s: BrowserState) -> bool {
    &&& s.icon_url@ == t.icon_url
    &&& s.title@ == t.title
    &&& s.url@ == shown_url(url)
    &&& s.loading == t.loading
    &&& s.can_back == t.history.can_back()
    &&& s.can_forward == t.history.can_forward()
    &&& !s.maximized
    &&& !s.focus
    &&& !s.incognito
}

/// The mathematical state of a [`Tab`].
pub ghost struct TabView {
    pub label: Seq<char>,
    pub title: Seq<char>,
    pub icon_url: Seq<char>,
    pub loading: bool,
    pub incognito: bool,
    pub dark_mode: bool,
    pub history: HistoryView,
}

/// A browser tab.
pub struct Tab {
    label: String,
    title: String,
    icon_url: String,
    loading: bool,
    incognito: bool,
    dark_mode: bool,
    history: HistoryTrack,
}

impl View for Tab {
    type V = TabView;

    closed spec fn view(&self) -> TabView {
        TabView {
            label: self.label@,
            title: self.title@,
            icon_url: self.icon_url@,
            loading: self.loading,
            incognito: self.incognito,
            dark_mode: self.dark_mode,
            history: self.history@,
        }
    }
}

impl Tab {
    pub open spec fn wf(&self) -> bool {
        self@.history.wf()
    }

    /// A tab about to load `url`: a fresh label, the URL as its title, no
    /// icon, loading, and an empty history.
    pub fn new(url: &str, incognito: bool) -> (r: Self)
        ensures
            r.wf(),
            is_hyphenated_uuid(r@.label),
            r@.title == url@,
            r@.icon_url.len() == 0,
            r@.loading,
            r@.incognito == incognito,
            !r@.dark_mode,
            r@.history.entries.len() == 0,
    {
        Tab {
            label: fresh_label(),
            title: String::from_str(url),
            icon_url: String::new(),
            loading: true,
            incognito,
            dark_mode: false,
            history: HistoryTrack::new(),
        }
    }

    /// A tab filed under a label chosen by the caller; otherwise as
    /// [`Tab::new`].
    pub fn with_label(label: String, url: &str, incognito: bool) -> (r: Self)
        ensures
            r.wf(),
            r@.label == label@,
            r@.title == url@,
            r@.icon_url.len() == 0,
            r@.loading,
            r@.incognito == incognito,
            !r@.dark_mode,
            r@.history.entries.len() == 0,
    {
        Tab {
            label,
            title: String::from_str(url),
            icon_url: String::new(),
            loading: true,
            incognito,
            dark_mode: false,
            history: HistoryTrack::new(),
        }
    }

    /// A field-by-field copy.
    pub fn duplicate(&self) -> (r: Self)
        ensures
            r@ == self@,
    {
        Tab {
            label: self.label.clone(),
            title: self.title.clone(),
            icon_url: self.icon_url.clone(),
            loading: self.loading,
            incognito: self.incognito,
            dark_mode: self.dark_mode,
            history: self.history.duplicate(),
        }
    }

    pub fn label(&self) -> (r: &str)
        ensures
            r@ == self@.label,
    {
        self.label.as_str()
    }

    pub fn title(&self) -> (r: &str)
        ensures
            r@ == self@.title,
    {
        self.title.as_str()
    }

    pub fn set_title(&mut self, title: String)
        ensures
            final(self)@ == (TabView { title: title@, ..old(self)@ }),
    {
        self.title = title;
    }

    pub fn icon_url(&self) -> (r: &str)
        ensures
            r@ == self@.icon_url,
    {
        self.icon_url.as_str()
    }

    pub fn set_icon_url(&mut self, icon_url: String)
        ensures
            final(self)@ == (TabView { icon_url: icon_url@, ..old(self)@ }),
    {
        self.icon_url = icon_url;
    }

    pub fn loading(&self) -> (r: bool)
        ensures
            r == self@.loading,
    {
        self.loading
    }

    pub fn set_loading(&mut self, loading: bool)
        ensures
            final(self)@ == (TabView { loading, ..old(self)@ }),
    {
        self.loading = loading;
    }

    pub fn incognito(&self) -> (r: bool)
        ensures
            r == self@.incognito,
    {
        self.incognito
    }

    pub fn dark_mode(&self) -> (r: bool)
        ensures
            r == self@.dark_mode,
    {
        self.dark_mode
    }

    /// The in-page script that switches dark mode on or off.
    pub fn dark_mode_script(enabled: bool) -> (r: &'static str)
        ensures
            r@ == if enabled { DARKREADER_ENABLE_SCRIPT@ } else { DARKREADER_DISABLE_SCRIPT@ },
    {
        if enabled {
            DARKREADER_ENABLE_SCRIPT
        } else {
            DARKREADER_DISABLE_SCRIPT
        }
    }

    /// Records dark mode as `enabled` once the webview ran
    /// [`Tab::dark_mode_script`] (`script_ok`); returns whether it did.
    pub fn set_dark_mode(&mut self, enabled: bool, script_ok: bool) -> (r: bool)
        ensures
            r == script_ok,
            final(self)@ == if script_ok {
                TabView { dark_mode: enabled, ..old(self)@ }
            } else {
                old(self)@
            },
    {
        if script_ok {
            self.dark_mode = enabled;
        }
        script_ok
    }

    pub fn history(&self) -> (r: &HistoryTrack)
        ensures
            r@ == self@.history,
    {
        &self.history
    }

    /// Position of `id` in this tab's history, if it is there.
    pub fn index(&self, id: i64) -> (r: Option<usize>)
        ensures
            match r {
                Some(i) => i < self@.history.entries.len() && self@.history.entries[i as int]
                    == id && forall|j: int| 0 <= j < i ==> self@.history.entries[j] != id,
                None => !self@.history.entries.contains(id),
            },
    {
        self.history.index(id)
    }

    pub fn can_back(&self) -> (r: bool)
        ensures
            r == self@.history.can_back(),
    {
        self.history.can_back()
    }

    pub fn can_forward(&self) -> (r: bool)
        requires
            self.wf(),
        ensures
            r == self@.history.can_forward(),
    {
        self.history.can_forward()
    }

    /// Records a completed navigation; see [`HistoryTrack::insert`].
    pub fn insert_history(&mut self, id: i64, ext: usize)
        requires
            old(self).wf(),
            old(self)@.history.entries.len() < isize::MAX,
        ensures
            final(self).wf(),
            final(self)@ == (TabView { history: old(self)@.history.insert(id, ext as int), ..old(self)@ }),
    {
        self.history.insert(id, ext);
    }

    /// Replaces the current navigation; see [`HistoryTrack::replace`].
    pub fn replace_history(&mut self, id: i64, ext: usize)
        requires
            old(self).wf(),
            old(self)@.history.entries.len() < isize::MAX,
        ensures
            final(self).wf(),
            final(self)@ == (TabView { history: old(self)@.history.replace(id, ext as int), ..old(self)@ }),
    {
        self.history.replace(id, ext);
    }

    /// Steps back after the webview reported on `history.back()`.
    pub fn back(&mut self, command_ok: bool) -> (r: bool)
        requires
            old(self).wf(),
        ensures
            final(self).wf(),
            r == (old(self)@.history.can_back() && command_ok),
            final(self)@ == (TabView { history: old(self)@.history.back(command_ok), ..old(self)@ }),
    {
        self.history.back(command_ok)
    }

    /// Steps forward after the webview reported on `history.forward()`.
    pub fn forward(&mut self, command_ok: bool) -> (r: bool)
        requires
            old(self).wf(),
        ensures
            final(self).wf(),
            r == (old(self)@.history.can_forward() && command_ok),
            final(self)@ == (TabView { history: old(self)@.history.forward(command_ok), ..old(self)@ }),
    {
        self.history.forward(command_ok)
    }

    /// Moves to history position `index` after the webview reported on the
    /// matching `history.go`.
    pub fn go(&mut self, index: usize, command_ok: bool) -> (r: bool)
        requires
            old(self).wf(),
        ensures
            final(self).wf(),
            r == (old(self)@.history.can_go(index as int) && command_ok),
            final(self)@.history.entries == old(self)@.history.entries,
            final(self)@.history.cursor == if r {
                index as int
            } else {
                old(self)@.history.cursor
            },
            final(self)@ == (TabView { history: final(self)@.history, ..old(self)@ }),
    {
        self.history.go(index, command_ok)
    }

    /// The tab's part of a state snapshot, given the URL the webview shows
    /// now; a blank page shows as an empty address.
    pub fn state(&self, url: &str) -> (r: BrowserState)
        requires
            self.wf(),
        ensures
            tab_state_ok(self@, url@, r),
    {
        BrowserState {
            icon_url: self.icon_url.clone(),
            title: self.title.clone(),
            url: crate::state::shown_url_of(url),
            maximized: false,
            loading: self.loading,
            can_back: self.can_back(),
            can_forward: self.can_forward(),
            focus: false,
            incognito: false,
        }
    }
}

} // verus!

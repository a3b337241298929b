//! The snapshot of browser state pushed to the chrome UI.
use vstd::prelude::*;
use vstd::string::StringExecFns;

verus! {

/// The address shown for a page: a blank page shows as empty.
pub open spec fn shown_url(url: Seq<char>) -> Seq<char> {
    if url == "about:blank"@ {
        Seq::empty()
    } else {
        url
    }
}

/// Executable form of [`shown_url`].
pub fn shown_url_of(url: &str) -> (r: String)
    ensures
        r@ == shown_url(url@),
{
    let u = String::from_str(url);
    let blank = String::from_str("about:blank");
    if u == blank {
        String::new()
    } else {
        u
    }
}

/// Everything the chrome UI displays: the active tab's icon, title, address,
/// loading and back/forward availability, and the window-level flags.
pub struct BrowserState {
    pub icon_url: String,
    pub title: String,
    pub url: String,
    pub maximized: bool,
    pub loading: bool,
    pub can_back: bool,
    pub can_forward: bool,
    pub focus: bool,
    pub incognito: bool,
}

/// The label of the chrome UI's own webview.
pub const MAINVIEW_LABEL: &'static str = "main-view";

/// Whether a webview label is the chrome UI's; commands meant for the chrome
/// UI are ignored from any other webview, and tab notifications from it.
pub fn is_main_view(label: &str) -> (r: bool)
    ensures
        r == (label@ == MAINVIEW_LABEL@),
{
    String::from_str(label) == String::from_str(MAINVIEW_LABEL)
}

impl BrowserState {
    /// The snapshot with its icon address replaced by the inlined icon data,
    /// when there is an icon and its data is at hand (`data`); otherwise the
    /// icon stays as it is.
    pub fn with_icon_data(self, data: Option<String>) -> (r: Self)
        ensures
            r.icon_url@ == match data {
                Some(d) => if self.icon_url@.len() > 0 { d@ } else { self.icon_url@ },
                None => self.icon_url@,
            },
            r.title@ == self.title@,
            r.url@ == self.url@,
            r.maximized == self.maximized,
            r.loading == self.loading,
            r.can_back == self.can_back,
            r.can_forward == self.can_forward,
            r.focus == self.focus,
            r.incognito == self.incognito,
    {
        let mut s = self;
        if !s.icon_url.as_str().is_empty() {
            if let Some(d) = data {
                s.icon_url = d;
            }
        }
        s
    }

    /// A field-by-field copy.
    pub fn duplicate(&self) -> (r: Self)
        ensures
            r.icon_url@ == self.icon_url@,
            r.title@ == self.title@,
            r.url@ == self.url@,
            r.maximized == self.maximized,
            r.loading == self.loading,
            r.can_back == self.can_back,
            r.can_forward == self.can_forward,
            r.focus == self.focus,
            r.incognito == self.incognito,
    {
        BrowserState {
            icon_url: self.icon_url.clone(),
            title: self.title.clone(),
            url: self.url.clone(),
            maximized: self.maximized,
            loading: self.loading,
            can_back: self.can_back,
            can_forward: self.can_forward,
            focus: self.focus,
            incognito: self.incognito,
        }
    }
}

impl Default for BrowserState {
    /// The state shown when no tab is active: the application's name as
    /// title, its English name as address, every flag off.
    fn default() -> (r: Self)
        ensures
            r.icon_url@.len() == 0,
            r.title@ == "白洞"@,
            r.url@ == "White Hole"@,
            !r.maximized,
            !r.loading,
            !r.can_back,
            !r.can_forward,
            !r.focus,
            !r.incognito,
    {
        BrowserState {
            title: String::from_str("白洞"),
            url: String::from_str("White Hole"),
            icon_url: String::new(),
            maximized: false,
            loading: false,
            can_back: false,
            can_forward: false,
            focus: false,
            incognito: false,
        }
    }
}

} // verus!

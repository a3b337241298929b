//! Tab and navigation-history state of a multi-tab webview browser shell:
//! per-tab back/forward tracking reconciled against the webview engine's own
//! history, the registry of open tabs, the orchestrator that decides which
//! tab is active and where focus goes, and the helpers that format what the
//! chrome UI shows.
mod address;
mod browser;
mod history;
mod hotkey;
mod keyword;
mod order;
mod page;
mod percent;
mod registry;
mod state;
mod tab;
mod user_agent;

pub use address::{file_candidate, parse_keyword, ParsedUrl, UrlHost, SEARCH_ENGINE};
pub use browser::{
    lemma_incognito_round_trip, lemma_incognito_session_ends, lemma_incognito_session_open,
    lemma_incognito_session_starts, lemma_open_tab_keeps_others, Browser, BrowserView, ClosedTab, FocusTarget, IncognitoChange,
    OpenPlan, FOCUS_DEBOUNCE_MS, HEIGHT, TITLE_HEIGHT, WIDTH,
};
pub use hotkey::{accelerator_blocked, hotkey, HotkeyAction, Key, Modifiers};
pub use keyword::encode;
pub use history::{
    lemma_back_forward_round_trip, lemma_insert_current_idempotent, lemma_insert_grown_appends, lemma_insert_twice,
    lemma_operations_keep_wf, HistoryTrack, HistoryView,
};
pub use order::{label_less, lemma_label_order};
pub use page::{decimal_string, PageToken, Paginator};
pub use percent::{after_percent_sign, percent_decode, percent_decode_str, PercentDecode};
pub use registry::TabMap;
pub use state::{is_main_view, shown_url_of, BrowserState, MAINVIEW_LABEL};
pub use tab::{Tab, TabView, DARKREADER_DISABLE_SCRIPT, DARKREADER_ENABLE_SCRIPT};
pub use user_agent::UserAgentPlatform;

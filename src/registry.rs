//! The registry of open tabs, keyed by label, held in a concurrent hash map.
use vstd::prelude::*;

use crate::order::{label_less, label_lt, lemma_label_order};
use crate::history::HistoryView;
use crate::state::BrowserState;
use crate::tab::{tab_state_ok, Tab, TabView};
use vstd::string::StringExecFns;

verus! {

#[verifier::external_type_specification]
#[verifier::external_body]
#[verifier::reject_recursive_types(K)]
#[verifier::reject_recursive_types(V)]
#[verifier::reject_recursive_types(H)]
pub struct ExSccHashMap<K, V, H: std::hash::BuildHasher>(scc::HashMap<K, V, H>);

/// What a table of tabs holds: each key's view, mapped to its tab's view.
pub uninterp spec fn tab_table(m: scc::HashMap<String, Tab>) -> Map<Seq<char>, TabView>;

/// Relies on `scc::HashMap::new`: a new map is empty.
#[verifier::external_body]
fn table_new() -> (r: scc::HashMap<String, Tab>)
    ensures
        forall|k: Seq<char>| !tab_table(r).contains_key(k),
{
    scc::HashMap::new()
}

/// Relies on `scc::HashMap::upsert`: the key is bound to the value, replacing
/// any earlier value, and nothing else changes.
#[verifier::external_body]
fn table_upsert(m: &mut scc::HashMap<String, Tab>, key: String, tab: Tab)
    ensures
        tab_table(*final(m)) == tab_table(*old(m)).insert(key@, tab@),
{
    m.upsert(key, tab);
}

/// Relies on `scc::HashMap::remove`: the pair under the key, if any, is taken
/// out and handed back; nothing else changes.
#[verifier::external_body]
fn table_remove(m: &mut scc::HashMap<String, Tab>, key: &str) -> (r: Option<Tab>)
    ensures
        r is Some <==> tab_table(*old(m)).contains_key(key@),
        r matches Some(t) ==> t@ == tab_table(*old(m))[key@],
        tab_table(*final(m)) == tab_table(*old(m)).remove(key@),
{
    m.remove(key).map(|(_, tab)| tab)
}

/// Relies on `scc::HashMap::read`: the reader is applied to the value under
/// the key, if there is one; here it copies the tab.
#[verifier::external_body]
fn table_read(m: &scc::HashMap<String, Tab>, key: &str) -> (r: Option<Tab>)
    ensures
        r is Some <==> tab_table(*m).contains_key(key@),
        r matches Some(t) ==> t@ == tab_table(*m)[key@],
{
    m.read(key, |_, tab| tab.duplicate())
}

/// Relies on `scc::HashMap::scan`: every entry present throughout the scan is
/// visited, and with no concurrent resize (no writer can hold the map while
/// it is borrowed here) none twice. The order is unspecified.
#[verifier::external_body]
fn table_keys(m: &scc::HashMap<String, Tab>) -> (r: Vec<String>)
    ensures
        forall|i: int| 0 <= i < r@.len() ==> tab_table(*m).contains_key(#[trigger] r@[i]@),
        forall|k: Seq<char>|
            tab_table(*m).contains_key(k) ==> exists|i: int| 0 <= i < r@.len() && #[trigger] r@[i]@
                == k,
        forall|i: int, j: int| 0 <= i < j < r@.len() ==> r@[i]@ != r@[j]@,
{
    let mut keys = Vec::new();
    m.scan(|key, _| keys.push(key.clone()));
    keys
}

/// `m` with the tab under `key`, if there is one, replaced by `t`.
pub open spec fn updated(m: Map<Seq<char>, TabView>, key: Seq<char>, t: TabView) -> Map<
    Seq<char>,
    TabView,
> {
    if m.contains_key(key) {
        m.insert(key, t)
    } else {
        m
    }
}

/// Some open tab has a label before `l`.
pub open spec fn has_below(m: Map<Seq<char>, TabView>, l: Seq<char>) -> bool {
    exists|k: Seq<char>| m.contains_key(k) && label_lt(k, l)
}

/// Some open tab has a label after `l`.
pub open spec fn has_above(m: Map<Seq<char>, TabView>, l: Seq<char>) -> bool {
    exists|k: Seq<char>| m.contains_key(k) && label_lt(l, k)
}

/// `r` is the greatest open label before `l`.
pub open spec fn is_greatest_below(m: Map<Seq<char>, TabView>, l: Seq<char>, r: Seq<char>) -> bool {
    &&& m.contains_key(r)
    &&& label_lt(r, l)
    &&& forall|k: Seq<char>| m.contains_key(k) && label_lt(k, l) ==> !label_lt(r, k)
}

/// `r` is the least open label after `l`.
pub open spec fn is_least_above(m: Map<Seq<char>, TabView>, l: Seq<char>, r: Seq<char>) -> bool {
    &&& m.contains_key(r)
    &&& label_lt(l, r)
    &&& forall|k: Seq<char>| m.contains_key(k) && label_lt(l, k) ==> !label_lt(k, r)
}

/// `r` is the greatest open label.
pub open spec fn is_greatest(m: Map<Seq<char>, TabView>, r: Seq<char>) -> bool {
    &&& m.contains_key(r)
    &&& forall|k: Seq<char>| m.contains_key(k) ==> !label_lt(r, k)
}

/// What choosing the neighbour of `l` that precedes it yields: the greatest
/// label before `l`; failing that, wrapping round, the greatest label, when
/// that is not `l` itself; else nothing.
pub open spec fn next_ok(m: Map<Seq<char>, TabView>, l: Seq<char>, r: Option<Seq<char>>) -> bool {
    if has_below(m, l) {
        r matches Some(x) && is_greatest_below(m, l, x)
    } else if has_above(m, l) {
        r matches Some(x) && is_greatest(m, x)
    } else {
        r is None
    }
}

/// What choosing the neighbour of `l` that follows it yields: the least label
/// after `l`; failing that, the choice of [`next_ok`].
pub open spec fn near_ok(m: Map<Seq<char>, TabView>, l: Seq<char>, r: Option<Seq<char>>) -> bool {
    if has_above(m, l) {
        r matches Some(x) && is_least_above(m, l, x)
    } else {
        next_ok(m, l, r)
    }
}

/// `m` without its incognito tabs.
pub open spec fn without_incognito(m: Map<Seq<char>, TabView>) -> Map<Seq<char>, TabView> {
    Map::new(|k: Seq<char>| m.contains_key(k) && !m[k].incognito, |k: Seq<char>| m[k])
}

/// `labels` are the labels of exactly the incognito tabs of `m`.
pub open spec fn lists_incognito(m: Map<Seq<char>, TabView>, labels: Seq<String>) -> bool {
    &&& forall|i: int|
        0 <= i < labels.len() ==> m.contains_key(#[trigger] labels[i]@) && m[labels[i]@].incognito
    &&& forall|k: Seq<char>|
        m.contains_key(k) && m[k].incognito ==> exists|i: int| 0 <= i < labels.len() && #[trigger] labels[i]@ == k
}

/// The view of an optional label.
pub open spec fn opt_view(r: Option<String>) -> Option<Seq<char>> {
    match r {
        Some(s) => Some(s@),
        None => None,
    }
}

/// The open tabs, keyed by their labels.
pub struct TabMap {
    tabs: scc::HashMap<String, Tab>,
}

impl View for TabMap {
    type V = Map<Seq<char>, TabView>;

    closed spec fn view(&self) -> Map<Seq<char>, TabView> {
        tab_table(self.tabs)
    }
}

impl TabMap {
    /// Each tab is filed under its own label and has a well-formed history.
    pub open spec fn wf(&self) -> bool {
        forall|k: Seq<char>| #[trigger]
            self@.contains_key(k) ==> self@[k].label == k && self@[k].history.wf()
    }

    pub fn new() -> (r: Self)
        ensures
            r.wf(),
            forall|k: Seq<char>| !r@.contains_key(k),
    {
        TabMap { tabs: table_new() }
    }

    /// Files `tab` under its label, replacing any tab with that label.
    pub fn insert(&mut self, tab: Tab)
        requires
            old(self).wf(),
            tab.wf(),
        ensures
            final(self).wf(),
            final(self)@ == old(self)@.insert(tab@.label, tab@),
    {
        let key = String::from_str(tab.label());
        table_upsert(&mut self.tabs, key, tab);
    }

    /// Removes the tab with this label; returns whether there was one. The
    /// host closes its webview.
    pub fn close(&mut self, label: &str) -> (r: bool)
        requires
            old(self).wf(),
        ensures
            final(self).wf(),
            r == old(self)@.contains_key(label@),
            final(self)@ == old(self)@.remove(label@),
    {
        let t = table_remove(&mut self.tabs, label);
        proof {
            assert forall|k: Seq<char>| #[trigger] self@.contains_key(k) implies self@[k].label == k
                && self@[k].history.wf() by {
                assert(old(self)@.contains_key(k));
            }
        }
        t.is_some()
    }

    /// Whether a tab has this label.
    pub fn contains(&self, label: &str) -> (r: bool)
        requires
            self.wf(),
        ensures
            r == self@.contains_key(label@),
    {
        self.get(label).is_some()
    }

    /// A copy of the tab with this label.
    pub fn get(&self, label: &str) -> (r: Option<Tab>)
        requires
            self.wf(),
        ensures
            r is Some <==> self@.contains_key(label@),
            r matches Some(t) ==> t@ == self@[label@] && t.wf(),
    {
        let r = table_read(&self.tabs, label);
        proof {
            if r is Some {
                assert(self@.contains_key(label@));
            }
        }
        r
    }

    /// The labels of all open tabs, each once, in no particular order.
    pub fn labels(&self) -> (r: Vec<String>)
        ensures
            forall|i: int| 0 <= i < r@.len() ==> self@.contains_key(#[trigger] r@[i]@),
            forall|k: Seq<char>|
                self@.contains_key(k) ==> exists|i: int| 0 <= i < r@.len() && #[trigger] r@[i]@ == k,
            forall|i: int, j: int| 0 <= i < j < r@.len() ==> r@[i]@ != r@[j]@,
    {
        table_keys(&self.tabs)
    }

    /// Takes the tab with this label out, to be changed and put back.
    fn take(&mut self, label: &str) -> (r: Option<Tab>)
        requires
            old(self).wf(),
        ensures
            final(self).wf(),
            r is Some <==> old(self)@.contains_key(label@),
            r matches Some(t) ==> t@ == old(self)@[label@] && t.wf() && t@.label == label@,
            final(self)@ == old(self)@.remove(label@),
    {
        let r = table_remove(&mut self.tabs, label);
        proof {
            assert forall|k: Seq<char>| #[trigger] self@.contains_key(k) implies self@[k].label == k
                && self@[k].history.wf() by {
                assert(old(self)@.contains_key(k));
            }
        }
        proof {
            if r is Some {
                assert(old(self)@.contains_key(label@));
            }
        }
        r
    }

    /// Files a changed tab back under its label.
    fn put_back(&mut self, tab: Tab)
        requires
            old(self).wf(),
            tab.wf(),
        ensures
            final(self).wf(),
            final(self)@ == old(self)@.insert(tab@.label, tab@),
    {
        self.insert(tab);
    }

    pub fn set_title(&mut self, label: &str, title: String)
        requires
            old(self).wf(),
        ensures
            final(self).wf(),
            final(self)@ == updated(old(self)@, label@, TabView { title: title@, ..old(self)@[label@] }),
    {
        match self.take(label) {
            Some(mut tab) => {
                tab.set_title(title);
                self.put_back(tab);
                assert(self@ =~= old(self)@.insert(label@, TabView { title: title@, ..old(self)@[label@] }));
            },
            None => {
                assert(self@ =~= old(self)@);
            },
        }
    }

    pub fn set_icon(&mut self, label: &str, icon_url: String)
        requires
            old(self).wf(),
        ensures
            final(self).wf(),
            final(self)@ == updated(old(self)@, label@, TabView { icon_url: icon_url@, ..old(self)@[label@] }),
    {
        match self.take(label) {
            Some(mut tab) => {
                tab.set_icon_url(icon_url);
                self.put_back(tab);
                assert(self@ =~= old(self)@.insert(label@, TabView { icon_url: icon_url@, ..old(self)@[label@] }));
            },
            None => {
                assert(self@ =~= old(self)@);
            },
        }
    }

    pub fn set_loading(&mut self, label: &str, loading: bool)
        requires
            old(self).wf(),
        ensures
            final(self).wf(),
            final(self)@ == updated(old(self)@, label@, TabView { loading, ..old(self)@[label@] }),
    {
        match self.take(label) {
            Some(mut tab) => {
                tab.set_loading(loading);
                self.put_back(tab);
                assert(self@ =~= old(self)@.insert(label@, TabView { loading, ..old(self)@[label@] }));
            },
            None => {
                assert(self@ =~= old(self)@);
            },
        }
    }

    /// Records a completed navigation in the history of the tab with this
    /// label; see [`crate::HistoryTrack::insert`].
    pub fn insert_history(&mut self, label: &str, id: i64, ext: usize)
        requires
            old(self).wf(),
            old(self)@.contains_key(label@) ==> old(self)@[label@].history.entries.len() < isize::MAX,
        ensures
            final(self).wf(),
            final(self)@ == updated(old(self)@, label@, TabView { history: old(self)@[label@].history.insert(id, ext as int), ..old(self)@[label@] }),
    {
        match self.take(label) {
            Some(mut tab) => {
                tab.insert_history(id, ext);
                self.put_back(tab);
                assert(self@ =~= old(self)@.insert(label@, TabView { history: old(self)@[label@].history.insert(id, ext as int), ..old(self)@[label@] }));
            },
            None => {
                assert(self@ =~= old(self)@);
            },
        }
    }

    /// Replaces the current navigation of the tab with this label; see
    /// [`crate::HistoryTrack::replace`].
    pub fn replace_history(&mut self, label: &str, id: i64, ext: usize)
        requires
            old(self).wf(),
            old(self)@.contains_key(label@) ==> old(self)@[label@].history.entries.len() < isize::MAX,
        ensures
            final(self).wf(),
            final(self)@ == updated(old(self)@, label@, TabView { history: old(self)@[label@].history.replace(id, ext as int), ..old(self)@[label@] }),
    {
        match self.take(label) {
            Some(mut tab) => {
                tab.replace_history(id, ext);
                self.put_back(tab);
                assert(self@ =~= old(self)@.insert(label@, TabView { history: old(self)@[label@].history.replace(id, ext as int), ..old(self)@[label@] }));
            },
            None => {
                assert(self@ =~= old(self)@);
            },
        }
    }

    /// Steps the tab with this label back, after its webview reported on
    /// `history.back()`; returns whether its cursor moved.
    pub fn back(&mut self, label: &str, command_ok: bool) -> (r: bool)
        requires
            old(self).wf(),
        ensures
            final(self).wf(),
            r == (old(self)@.contains_key(label@) && old(self)@[label@].history.can_back() && command_ok),
            final(self)@ == updated(old(self)@, label@, TabView { history: old(self)@[label@].history.back(command_ok), ..old(self)@[label@] }),
    {
        match self.take(label) {
            Some(mut tab) => {
                let moved = tab.back(command_ok);
                self.put_back(tab);
                assert(self@ =~= old(self)@.insert(label@, TabView { history: old(self)@[label@].history.back(command_ok), ..old(self)@[label@] }));
                moved
            },
            None => {
                assert(self@ =~= old(self)@);
                false
            },
        }
    }

    /// Steps the tab with this label forward, after its webview reported on
    /// `history.forward()`; returns whether its cursor moved.
    pub fn forward(&mut self, label: &str, command_ok: bool) -> (r: bool)
        requires
            old(self).wf(),
        ensures
            final(self).wf(),
            r == (old(self)@.contains_key(label@) && old(self)@[label@].history.can_forward() && command_ok),
            final(self)@ == updated(old(self)@, label@, TabView { history: old(self)@[label@].history.forward(command_ok), ..old(self)@[label@] }),
    {
        match self.take(label) {
            Some(mut tab) => {
                let moved = tab.forward(command_ok);
                self.put_back(tab);
                assert(self@ =~= old(self)@.insert(label@, TabView { history: old(self)@[label@].history.forward(command_ok), ..old(self)@[label@] }));
                moved
            },
            None => {
                assert(self@ =~= old(self)@);
                false
            },
        }
    }

    /// Moves the tab with this label to history position `index`, after its
    /// webview reported on the matching `history.go`; returns whether its
    /// cursor moved.
    pub fn go(&mut self, label: &str, index: usize, command_ok: bool) -> (r: bool)
        requires
            old(self).wf(),
        ensures
            final(self).wf(),
            r == (old(self)@.contains_key(label@) && old(self)@[label@].history.can_go(index as int) && command_ok),
            final(self)@ == updated(old(self)@, label@, TabView {
                history: if r {
                    HistoryView { entries: old(self)@[label@].history.entries, cursor: index as int }
                } else {
                    old(self)@[label@].history
                },
                ..old(self)@[label@]
            }),
    {
        match self.take(label) {
            Some(mut tab) => {
                let moved = tab.go(index, command_ok);
                self.put_back(tab);
                assert(self@ =~= old(self)@.insert(label@, TabView {
                    history: if moved {
                        HistoryView { entries: old(self)@[label@].history.entries, cursor: index as int }
                    } else {
                        old(self)@[label@].history
                    },
                    ..old(self)@[label@]
                }));
                moved
            },
            None => {
                assert(self@ =~= old(self)@);
                false
            },
        }
    }

    /// The tab's part of a state snapshot, given the URL its webview shows;
    /// `None` when no tab has this label.
    pub fn get_state(&self, label: &str, url: &str) -> (r: Option<BrowserState>)
        requires
            self.wf(),
        ensures
            r is Some <==> self@.contains_key(label@),
            r matches Some(s) ==> tab_state_ok(self@[label@], url@, s),
    {
        match self.get(label) {
            Some(tab) => Some(tab.state(url)),
            None => None,
        }
    }

    /// The label of the tab to select when the tab labelled `label` goes
    /// away: the greatest label before it, or else, wrapping round, the
    /// greatest label, unless that is `label` itself.
    pub fn next(&self, label: &str) -> (r: Option<String>)
        ensures
            next_ok(self@, label@, opt_view(r)),
    {
        let keys = self.labels();
        let ghost l = label@;
        let mut below: Option<usize> = None;
        let mut top: Option<usize> = None;
        let mut i: usize = 0;
        while i < keys.len()
            invariant
                l == label@,
                i <= keys@.len(),
                below matches Some(b) ==> b < i && label_lt(keys@[b as int]@, l),
                below matches Some(b) ==> forall|j: int|
                    0 <= j < i && label_lt(#[trigger] keys@[j]@, l) ==> !label_lt(keys@[b as int]@, keys@[j]@),
                below is None ==> forall|j: int| 0 <= j < i ==> !label_lt(#[trigger] keys@[j]@, l),
                top matches Some(t) ==> t < i && label_lt(l, keys@[t as int]@),
                top matches Some(t) ==> forall|j: int|
                    0 <= j < i ==> !label_lt(keys@[t as int]@, #[trigger] keys@[j]@),
                top is None ==> forall|j: int| 0 <= j < i ==> !label_lt(l, #[trigger] keys@[j]@),
            decreases keys@.len() - i,
        {
            let k = keys[i].as_str();
            let ghost kv = keys@[i as int]@;
            assert(k@ == kv);
            if label_less(k, label) {
                let better = match below {
                    None => true,
                    Some(b) => label_less(keys[b].as_str(), k),
                };
                if better {
                    proof {
                        assert forall|j: int| 0 <= j < i + 1 && label_lt(#[trigger] keys@[j]@, l) implies !label_lt(kv, keys@[j]@) by {
                            lemma_label_order(kv, keys@[j]@, l);
                            if let Some(b) = below {
                                lemma_label_order(keys@[b as int]@, kv, keys@[j]@);
                            }
                        }
                    }
                    below = Some(i);
                } else {
                    proof {
                        lemma_label_order(kv, kv, kv);
                    }
                }
            }
            if label_less(label, k) {
                let better = match top {
                    None => true,
                    Some(t) => label_less(keys[t].as_str(), k),
                };
                if better {
                    proof {
                        assert forall|j: int| 0 <= j < i + 1 implies !label_lt(kv, #[trigger] keys@[j]@) by {
                            lemma_label_order(kv, kv, kv);
                            lemma_label_order(l, kv, keys@[j]@);
                            if let Some(t) = top {
                                lemma_label_order(keys@[t as int]@, kv, keys@[j]@);
                            }
                        }
                    }
                    top = Some(i);
                }
            } else {
                proof {
                    if let Some(t) = top {
                        lemma_label_order(l, keys@[t as int]@, kv);
                    }
                }
            }
            i = i + 1;
        }
        proof {
            if has_below(self@, l) {
                let k = choose|k: Seq<char>| self@.contains_key(k) && label_lt(k, l);
                let j = choose|j: int| 0 <= j < keys@.len() && #[trigger] keys@[j]@ == k;
                assert(label_lt(keys@[j]@, l));
            }
            if has_above(self@, l) {
                let k = choose|k: Seq<char>| self@.contains_key(k) && label_lt(l, k);
                let j = choose|j: int| 0 <= j < keys@.len() && #[trigger] keys@[j]@ == k;
                assert(label_lt(l, keys@[j]@));
            }
            if let Some(b) = below {
                assert(self@.contains_key(keys@[b as int]@));
                assert forall|k: Seq<char>| self@.contains_key(k) && label_lt(k, l) implies !label_lt(keys@[b as int]@, k) by {
                    let j = choose|j: int| 0 <= j < keys@.len() && #[trigger] keys@[j]@ == k;
                }
            }
            if let Some(t) = top {
                assert(self@.contains_key(keys@[t as int]@));
                assert forall|k: Seq<char>| self@.contains_key(k) implies !label_lt(keys@[t as int]@, k) by {
                    let j = choose|j: int| 0 <= j < keys@.len() && #[trigger] keys@[j]@ == k;
                }
            }
        }
        match below {
            Some(b) => Some(keys[b].clone()),
            None => match top {
                Some(t) => Some(keys[t].clone()),
                None => None,
            },
        }
    }

    /// The label of the tab after the one labelled `label`: the least label
    /// after it, or else the choice of [`TabMap::next`].
    pub fn near(&self, label: &str) -> (r: Option<String>)
        ensures
            near_ok(self@, label@, opt_view(r)),
    {
        let keys = self.labels();
        let ghost l = label@;
        let mut above: Option<usize> = None;
        let mut i: usize = 0;
        while i < keys.len()
            invariant
                l == label@,
                i <= keys@.len(),
                above matches Some(a) ==> a < i && label_lt(l, keys@[a as int]@),
                above matches Some(a) ==> forall|j: int|
                    0 <= j < i && label_lt(l, #[trigger] keys@[j]@) ==> !label_lt(keys@[j]@, keys@[a as int]@),
                above is None ==> forall|j: int| 0 <= j < i ==> !label_lt(l, #[trigger] keys@[j]@),
            decreases keys@.len() - i,
        {
            let k = keys[i].as_str();
            let ghost kv = keys@[i as int]@;
            assert(k@ == kv);
            if label_less(label, k) {
                let better = match above {
                    None => true,
                    Some(a) => label_less(k, keys[a].as_str()),
                };
                if better {
                    proof {
                        assert forall|j: int| 0 <= j < i + 1 && label_lt(l, #[trigger] keys@[j]@) implies !label_lt(keys@[j]@, kv) by {
                            lemma_label_order(l, keys@[j]@, kv);
                            lemma_label_order(kv, keys@[j]@, kv);
                            if let Some(a) = above {
                                lemma_label_order(keys@[j]@, kv, keys@[a as int]@);
                            }
                        }
                    }
                    above = Some(i);
                } else {
                    proof {
                        if let Some(a) = above {
                            lemma_label_order(kv, keys@[a as int]@, kv);
                        }
                    }
                }
            }
            i = i + 1;
        }
        match above {
            Some(a) => {
                proof {
                    assert(self@.contains_key(keys@[a as int]@));
                    assert forall|k: Seq<char>| self@.contains_key(k) && label_lt(l, k) implies !label_lt(k, keys@[a as int]@) by {
                        let j = choose|j: int| 0 <= j < keys@.len() && #[trigger] keys@[j]@ == k;
                    }
                }
                Some(keys[a].clone())
            },
            None => {
                proof {
                    if has_above(self@, l) {
                        let k = choose|k: Seq<char>| self@.contains_key(k) && label_lt(l, k);
                        let j = choose|j: int| 0 <= j < keys@.len() && #[trigger] keys@[j]@ == k;
                        assert(label_lt(l, keys@[j]@));
                    }
                }
                self.next(label)
            },
        }
    }

    /// A tab of the given incognito kind whose history holds navigation
    /// entry `id`, with the position of `id` there.
    pub fn any_open(&self, id: i64, incognito: bool) -> (r: Option<(String, usize)>)
        requires
            self.wf(),
        ensures
            r matches Some((l, i)) ==> self@.contains_key(l@) && self@[l@].incognito == incognito
                && i < self@[l@].history.entries.len() && self@[l@].history.entries[i as int] == id
                && forall|j: int| 0 <= j < i ==> self@[l@].history.entries[j] != id,
            r is None ==> forall|k: Seq<char>|
                #[trigger] self@.contains_key(k) && self@[k].incognito == incognito
                    ==> !self@[k].history.entries.contains(id),
    {
        let keys = self.labels();
        let mut i: usize = 0;
        while i < keys.len()
            invariant
                self.wf(),
                i <= keys@.len(),
                forall|j: int|
                    0 <= j < i && self@.contains_key(#[trigger] keys@[j]@) && self@[keys@[j]@].incognito
                        == incognito ==> !self@[keys@[j]@].history.entries.contains(id),
            decreases keys@.len() - i,
        {
            if let Some(tab) = self.get(keys[i].as_str()) {
                if tab.incognito() == incognito {
                    if let Some(p) = tab.index(id) {
                        return Some((keys[i].clone(), p));
                    }
                }
            }
            i = i + 1;
        }
        proof {
            assert forall|k: Seq<char>|
                #[trigger] self@.contains_key(k) && self@[k].incognito == incognito
                    implies !self@[k].history.entries.contains(id) by {
                let j = choose|j: int| 0 <= j < keys@.len() && #[trigger] keys@[j]@ == k;
            }
        }
        None
    }

    /// Closes every incognito tab and returns their labels, for the host to
    /// close their webviews; the other tabs stay as they are.
    pub fn close_incognito(&mut self) -> (r: Vec<String>)
        requires
            old(self).wf(),
        ensures
            final(self).wf(),
            final(self)@ == without_incognito(old(self)@),
            lists_incognito(old(self)@, r@),
    {
        let keys = self.labels();
        let ghost start = self@;
        let mut closed: Vec<String> = Vec::new();
        let mut i: usize = 0;
        while i < keys.len()
            invariant
                self.wf(),
                i <= keys@.len(),
                forall|j: int| 0 <= j < keys@.len() ==> start.contains_key(#[trigger] keys@[j]@),
                forall|a: int, b: int| 0 <= a < b < keys@.len() ==> keys@[a]@ != keys@[b]@,
                forall|k: Seq<char>| #[trigger] self@.contains_key(k) ==> start.contains_key(k) && self@[k] == start[k],
                forall|k: Seq<char>| start.contains_key(k) && !start[k].incognito ==> #[trigger] self@.contains_key(k),
                forall|j: int| i <= j < keys@.len() ==> self@.contains_key(#[trigger] keys@[j]@),
                forall|j: int| 0 <= j < i && start[#[trigger] keys@[j]@].incognito ==> !self@.contains_key(keys@[j]@)
                    && exists|p: int| 0 <= p < closed@.len() && #[trigger] closed@[p]@ == keys@[j]@,
                forall|p: int|
                    0 <= p < closed@.len() ==> start.contains_key(#[trigger] closed@[p]@) && start[closed@[p]@].incognito,
            decreases keys@.len() - i,
        {
            let ghost before = self@;
            let ghost closed_before = closed@;
            let key = keys[i].as_str();
            assert(self@.contains_key(keys@[i as int]@));
            if let Some(tab) = self.get(key) {
                if tab.incognito() {
                    self.close(key);
                    closed.push(keys[i].clone());
                    proof {
                        assert(closed@[closed@.len() - 1]@ == keys@[i as int]@);
                        assert forall|j: int| 0 <= j < i && start[#[trigger] keys@[j]@].incognito implies !self@.contains_key(keys@[j]@)
                            && exists|p: int| 0 <= p < closed@.len() && #[trigger] closed@[p]@ == keys@[j]@ by {
                            let p = choose|p: int| 0 <= p < closed_before.len() && #[trigger] closed_before[p]@ == keys@[j]@;
                            assert(closed@[p] == closed_before[p]);
                        }
                    }
                }
            }
            i = i + 1;
        }
        proof {
            assert forall|k: Seq<char>|
                #[trigger] self@.contains_key(k) <==> start.contains_key(k) && !start[k].incognito by {
                if start.contains_key(k) && start[k].incognito {
                    let j = choose|j: int| 0 <= j < keys@.len() && #[trigger] keys@[j]@ == k;
                }
            }
            assert forall|k: Seq<char>| start.contains_key(k) && start[k].incognito implies exists|p: int|
                    0 <= p < closed@.len() && #[trigger] closed@[p]@ == k by {
                let j = choose|j: int| 0 <= j < keys@.len() && #[trigger] keys@[j]@ == k;
            }
        }
        assert(self@ =~= without_incognito(start));
        closed
    }
}

} // verus!

//! The per-tab back/forward stack, reconciled against the history length
//! reported by the embedded webview engine.
use vstd::prelude::*;

verus! {

/// The mathematical state of a [`HistoryTrack`]: the ordered navigation-entry
/// identifiers and the signed cursor into them (`-1` when empty).
pub ghost struct HistoryView {
    pub entries: Seq<i64>,
    pub cursor: int,
}

impl HistoryView {
    /// The cursor is `-1` exactly when there are no entries, and otherwise
    /// points at one of them; the length fits the signed cursor type.
    pub open spec fn wf(self) -> bool {
        &&& (self.cursor == -1 <==> self.entries.len() == 0)
        &&& (self.entries.len() > 0 ==> 0 <= self.cursor < self.entries.len())
        &&& self.entries.len() <= isize::MAX
    }

    pub open spec fn can_back(self) -> bool {
        self.cursor > 0
    }

    pub open spec fn can_forward(self) -> bool {
        self.cursor < self.entries.len() - 1
    }

    /// `entries` cut to at most `n` items, then `id` appended and selected.
    pub open spec fn cut_and_push(self, n: int, id: i64) -> HistoryView {
        let kept = if n < self.entries.len() {
            self.entries.subrange(0, n)
        } else {
            self.entries
        };
        HistoryView { entries: kept.push(id), cursor: kept.len() as int }
    }

    /// The effect of recording a completed navigation to `id` when the engine
    /// reports a history stack of `ext` entries (`0`: not known).
    pub open spec fn insert(self, id: i64, ext: int) -> HistoryView {
        if id <= 0 {
            self
        } else if self.cursor < 0 || self.entries.len() + 1 == ext {
            self.cut_and_push(self.entries.len() as int, id)
        } else if self.entries[self.cursor] == id {
            self
        } else if 0 < ext < self.entries.len() {
            self.cut_and_push(ext - 1, id)
        } else {
            self.cut_and_push(self.cursor + 1, id)
        }
    }

    /// The entries after the engine-reported length `ext` is applied to a
    /// replacement: an engine stack shorter than ours cuts ours to its length.
    pub open spec fn replace_base(self, ext: int) -> HistoryView {
        if 0 < ext < self.entries.len() {
            HistoryView {
                entries: self.entries.subrange(0, ext),
                cursor: if self.cursor < ext { self.cursor } else { ext - 1 },
            }
        } else {
            self
        }
    }

    /// The effect of replacing the current entry by `id` (history
    /// `replaceState`, or a redirect that settled).
    pub open spec fn replace(self, id: i64, ext: int) -> HistoryView {
        let b = self.replace_base(ext);
        if b.cursor < 0 || b.entries.len() + 1 == ext {
            b.cut_and_push(b.entries.len() as int, id)
        } else {
            HistoryView { entries: b.entries.update(b.cursor, id), cursor: b.cursor }
        }
    }

    /// The state after a `history.back()` that reported `ok`.
    pub open spec fn back(self, ok: bool) -> HistoryView {
        if self.can_back() && ok {
            HistoryView { entries: self.entries, cursor: self.cursor - 1 }
        } else {
            self
        }
    }

    /// The state after a `history.forward()` that reported `ok`.
    pub open spec fn forward(self, ok: bool) -> HistoryView {
        if self.can_forward() && ok {
            HistoryView { entries: self.entries, cursor: self.cursor + 1 }
        } else {
            self
        }
    }

    /// Whether moving the cursor to `index` is a real move.
    pub open spec fn can_go(self, index: int) -> bool {
        0 <= index < self.entries.len() && index != self.cursor
    }
}

/// A tab's back/forward stack of navigation-entry identifiers with its cursor.
pub struct HistoryTrack {
    entries: Vec<i64>,
    cursor: isize,
}

impl View for HistoryTrack {
    type V = HistoryView;

    closed spec fn view(&self) -> HistoryView {
        HistoryView { entries: self.entries@, cursor: self.cursor as int }
    }
}

impl HistoryTrack {
    pub open spec fn wf(&self) -> bool {
        self@.wf()
    }

    /// An empty track: no entries, cursor `-1`.
    pub fn new() -> (r: Self)
        ensures
            r.wf(),
            r@.entries.len() == 0,
            r@.cursor == -1,
    {
        HistoryTrack { entries: Vec::new(), cursor: -1 }
    }

    /// An independent copy.
    pub fn duplicate(&self) -> (r: Self)
        ensures
            r@ == self@,
    {
        HistoryTrack { entries: self.entries(), cursor: self.cursor }
    }

    pub fn len(&self) -> (r: usize)
        ensures
            r == self@.entries.len(),
    {
        self.entries.len()
    }

    pub fn cursor(&self) -> (r: isize)
        ensures
            r == self@.cursor,
    {
        self.cursor
    }

    /// The identifier at position `i`.
    pub fn entry(&self, i: usize) -> (r: i64)
        requires
            i < self@.entries.len(),
        ensures
            r == self@.entries[i as int],
    {
        self.entries[i]
    }

    /// All identifiers, oldest first.
    pub fn entries(&self) -> (r: Vec<i64>)
        ensures
            r@ == self@.entries,
    {
        let mut out: Vec<i64> = Vec::new();
        let mut i: usize = 0;
        while i < self.entries.len()
            invariant
                i <= self.entries.len(),
                out@ == self.entries@.subrange(0, i as int),
            decreases self.entries.len() - i,
        {
            out.push(self.entries[i]);
            i = i + 1;
        }
        assert(out@ =~= self.entries@);
        out
    }

    pub fn can_back(&self) -> (r: bool)
        ensures
            r == self@.can_back(),
    {
        self.cursor > 0
    }

    pub fn can_forward(&self) -> (r: bool)
        requires
            self.wf(),
        ensures
            r == self@.can_forward(),
    {
        self.cursor < self.entries.len() as isize - 1
    }

    /// Position of the first occurrence of `id`, if any.
    pub fn index(&self, id: i64) -> (r: Option<usize>)
        ensures
            match r {
                Some(i) => i < self@.entries.len() && self@.entries[i as int] == id
                    && forall|j: int| 0 <= j < i ==> self@.entries[j] != id,
                None => !self@.entries.contains(id),
            },
    {
        let mut i: usize = 0;
        while i < self.entries.len()
            invariant
                i <= self.entries.len(),
                forall|j: int| 0 <= j < i ==> self.entries@[j] != id,
            decreases self.entries.len() - i,
        {
            if self.entries[i] == id {
                return Some(i);
            }
            i = i + 1;
        }
        None
    }

    /// Keeps at most `n` entries, appends `id` and selects it.
    fn cut_and_push(&mut self, n: usize, id: i64)
        requires
            old(self).wf(),
            n <= old(self)@.entries.len(),
            n < isize::MAX,
        ensures
            final(self)@ == old(self)@.cut_and_push(n as int, id),
            final(self).wf(),
    {
        self.entries.truncate(n);
        self.entries.push(id);
        self.cursor = n as isize;
        proof {
            if n < old(self)@.entries.len() {
                assert(self.entries@ =~= old(self).entries@.subrange(0, n as int).push(id));
            } else {
                assert(self.entries@ =~= old(self).entries@.push(id));
            }
        }
    }

    /// Records a completed navigation to `id`, given the engine's reported
    /// history length `ext` (`0` when the engine did not report one).
    ///
    /// A non-positive `id` is ignored. The entry is appended when the track is
    /// empty or the engine reports exactly one entry more than tracked; a
    /// repeat of the current entry is ignored; otherwise the forward entries
    /// are dropped (down to the engine's length when it is shorter) before
    /// appending.
    pub fn insert(&mut self, id: i64, ext: usize)
        requires
            old(self).wf(),
            old(self)@.entries.len() < isize::MAX,
        ensures
            final(self).wf(),
            final(self)@ == old(self)@.insert(id, ext as int),
    {
        if id <= 0 {
            return;
        }
        let len = self.entries.len();
        if self.cursor < 0 || (ext > 0 && len == ext - 1) {
            self.cut_and_push(len, id);
            return;
        }
        let i = self.cursor as usize;
        if self.entries[i] == id {
            return;
        }
        if 0 < ext && ext < len {
            self.cut_and_push(ext - 1, id);
        } else {
            self.cut_and_push(i + 1, id);
        }
    }

    /// Replaces the current entry by `id`, given the engine's reported history
    /// length `ext` (`0` when not reported). A shorter engine stack cuts the
    /// track to its length first; an empty track, or one the engine reports a
    /// single entry longer, gets `id` appended instead.
    pub fn replace(&mut self, id: i64, ext: usize)
        requires
            old(self).wf(),
            old(self)@.entries.len() < isize::MAX,
        ensures
            final(self).wf(),
            final(self)@ == old(self)@.replace(id, ext as int),
    {
        let len = self.entries.len();
        if 0 < ext && ext < len {
            self.entries.truncate(ext);
            if self.cursor >= ext as isize {
                self.cursor = (ext - 1) as isize;
            }
            assert(self.entries@ =~= old(self).entries@.subrange(0, ext as int));
        }
        let len = self.entries.len();
        if self.cursor < 0 || (ext > 0 && len == ext - 1) {
            self.cut_and_push(len, id);
        } else {
            let i = self.cursor as usize;
            self.entries.set(i, id);
        }
    }

    /// Steps the cursor back by one, provided there is an earlier entry and the
    /// webview carried out `history.back()` (`command_ok`). Returns whether the
    /// cursor moved.
    pub fn back(&mut self, command_ok: bool) -> (r: bool)
        requires
            old(self).wf(),
        ensures
            final(self).wf(),
            r == (old(self)@.can_back() && command_ok),
            final(self)@ == old(self)@.back(command_ok),
    {
        if self.cursor > 0 && command_ok {
            self.cursor = self.cursor - 1;
            true
        } else {
            false
        }
    }

    /// Steps the cursor forward by one, provided there is a later entry and the
    /// webview carried out `history.forward()` (`command_ok`). Returns whether
    /// the cursor moved.
    pub fn forward(&mut self, command_ok: bool) -> (r: bool)
        requires
            old(self).wf(),
        ensures
            final(self).wf(),
            r == (old(self)@.can_forward() && command_ok),
            final(self)@ == old(self)@.forward(command_ok),
    {
        if self.can_forward() && command_ok {
            self.cursor = self.cursor + 1;
            true
        } else {
            false
        }
    }

    /// The offset to hand to `history.go` to reach `index`, when that is a
    /// real move within the track.
    pub fn go_delta(&self, index: usize) -> (r: Option<isize>)
        requires
            self.wf(),
        ensures
            r is Some <==> self@.can_go(index as int),
            r matches Some(d) ==> d == index - self@.cursor,
    {
        if index < self.entries.len() && index as isize != self.cursor {
            Some(index as isize - self.cursor)
        } else {
            None
        }
    }

    /// Moves the cursor to `index`, provided that is a real move within the
    /// track and the webview carried out the matching `history.go`
    /// (`command_ok`). Returns whether the cursor moved.
    pub fn go(&mut self, index: usize, command_ok: bool) -> (r: bool)
        requires
            old(self).wf(),
        ensures
            final(self).wf(),
            r == (old(self)@.can_go(index as int) && command_ok),
            final(self)@.entries == old(self)@.entries,
            final(self)@.cursor == if r { index as int } else { old(self)@.cursor },
    {
        if index < self.entries.len() && index as isize != self.cursor && command_ok {
            self.cursor = index as isize;
            true
        } else {
            false
        }
    }
}

/// Every operation on the spec level keeps a well-formed history
/// well-formed: the cursor is `-1` exactly when the track is empty and
/// otherwise indexes an entry.
pub proof fn lemma_operations_keep_wf(v: HistoryView, id: i64, ext: int, ok: bool, index: int)
    requires
        v.wf(),
        v.entries.len() < isize::MAX,
    ensures
        v.insert(id, ext).wf(),
        v.replace(id, ext).wf(),
        v.back(ok).wf(),
        v.forward(ok).wf(),
        v.can_go(index) ==> (HistoryView { entries: v.entries, cursor: index }).wf(),
{
}

/// Recording a navigation while the engine reports exactly one entry more
/// than tracked appends it and selects it.
pub proof fn lemma_insert_grown_appends(v: HistoryView, id: i64)
    requires
        v.wf(),
        id > 0,
    ensures
        v.insert(id, v.entries.len() + 1 as int).entries == v.entries.push(id),
        v.insert(id, v.entries.len() + 1 as int).cursor == v.entries.len(),
{
    assert(v.entries.subrange(0, v.entries.len() as int) =~= v.entries);
}

/// Recording the entry that is already current changes nothing, however
/// often it is repeated, unless the engine reports a grown stack.
pub proof fn lemma_insert_current_idempotent(v: HistoryView, id: i64, ext: int)
    requires
        v.wf(),
        v.entries.len() > 0,
        v.entries[v.cursor] == id,
        ext != v.entries.len() + 1,
    ensures
        v.insert(id, ext) == v,
        v.insert(id, ext).insert(id, ext) == v,
{
}

/// Recording a new navigation that the engine confirms, then the same
/// signal again, leaves the track as the first recording left it.
pub proof fn lemma_insert_twice(v: HistoryView, id: i64, ext: int)
    requires
        v.wf(),
        v.entries.len() + 1 < isize::MAX,
        id > 0,
        ext == v.entries.len() + 1,
    ensures
        v.insert(id, ext).insert(id, ext) == v.insert(id, ext),
        v.insert(id, ext).entries.last() == id,
{
    assert(v.entries.subrange(0, v.entries.len() as int) =~= v.entries);
}

/// A successful step back followed by a successful step forward restores
/// the cursor and leaves the entries as they were.
pub proof fn lemma_back_forward_round_trip(v: HistoryView)
    requires
        v.wf(),
        v.can_back(),
    ensures
        v.back(true).can_forward(),
        v.back(true).forward(true) == v,
{
}

} // verus!

//! The write-back debouncer: rapid successive edits to one path coalesce
//! into a single pending disk write, due after a quiet period; a new edit
//! resets that path's timer, and different paths are independent. The caller
//! supplies the clock and performs the writes.

use vstd::prelude::*;

use crate::strutil::str_eq;

verus! {

/// A pending write: the path to flush once `deadline` has passed.
#[derive(Debug)]
pub struct PendingWrite {
    pub path: String,
    pub deadline: u64,
}

/// The debouncer: at most one pending write per path.
pub struct Debouncer {
    pub pending: Vec<PendingWrite>,
}

/// How many pending entries name `path`.
pub open spec fn count_path(s: Seq<PendingWrite>, path: Seq<char>) -> nat
    decreases s.len(),
{
    if s.len() == 0 {
        0
    } else {
        (if s[0].path@ == path {
            1nat
        } else {
            0nat
        }) + count_path(s.skip(1), path)
    }
}

proof fn lemma_count_path_zero(s: Seq<PendingWrite>, path: Seq<char>)
    requires
        forall|i: int| 0 <= i < s.len() ==> s[i].path@ != path,
    ensures
        count_path(s, path) == 0,
    decreases s.len(),
{
    if s.len() > 0 {
        lemma_count_path_zero(s.skip(1), path);
    }
}

proof fn lemma_count_path_unique(s: Seq<PendingWrite>, path: Seq<char>, i: int)
    requires
        forall|x: int, y: int| 0 <= x < y < s.len() ==> s[x].path@ != s[y].path@,
        0 <= i < s.len(),
        s[i].path@ == path,
    ensures
        count_path(s, path) == 1,
    decreases s.len(),
{
    if i == 0 {
        assert(forall|j: int| 0 <= j < s.skip(1).len() ==> s.skip(1)[j].path@ != path);
        lemma_count_path_zero(s.skip(1), path);
    } else {
        assert(s.skip(1)[i - 1].path@ == path);
        lemma_count_path_unique(s.skip(1), path, i - 1);
    }
}

impl Debouncer {
    /// Well-formedness: paths are unique, so each path has one timer.
    pub open spec fn wf(&self) -> bool {
        forall|i: int, j: int|
            0 <= i < j < self.pending@.len() ==> self.pending@[i].path@ != self.pending@[j].path@
    }

    /// A write is pending for `path`.
    pub open spec fn has_pending(&self, path: Seq<char>) -> bool {
        exists|i: int| 0 <= i < self.pending@.len() && self.pending@[i].path@ == path
    }

    /// The deadline of the pending write for `path` (meaningful when
    /// `has_pending`).
    pub open spec fn deadline_at(&self, path: Seq<char>) -> u64 {
        self.pending@[choose|i: int|
            0 <= i < self.pending@.len() && self.pending@[i].path@ == path].deadline
    }

    pub fn new() -> (d: Debouncer)
        ensures
            d.wf(),
            d.pending@.len() == 0,
            forall|q: Seq<char>| !d.has_pending(q),
    {
        Debouncer { pending: Vec::new() }
    }

    /// The index of the pending write for `path`, if there is one.
    fn find_index(&self, path: &str) -> (r: Option<usize>)
        ensures
            match r {
                Some(i) => i < self.pending@.len() && self.pending@[i as int].path@ == path@,
                None => !self.has_pending(path@),
            },
    {
        let n = self.pending.len();
        let mut i: usize = 0;
        while i < n
            invariant
                n == self.pending@.len(),
                i <= n,
                forall|j: int| 0 <= j < i ==> self.pending@[j].path@ != path@,
            decreases n - i,
        {
            if str_eq(self.pending[i].path.as_str(), path) {
                return Some(i);
            }
            i = i + 1;
        }
        None
    }

    /// Records an edit to `path` at time `now`: its write becomes due at
    /// `now + quiet`, replacing any earlier timer for the same path, so
    /// edits within the quiet period coalesce into exactly one pending
    /// write. Other paths' timers are untouched.
    pub fn record_edit(&mut self, path: &str, now: u64, quiet: u64)
        requires
            old(self).wf(),
            now + quiet <= u64::MAX,
        ensures
            final(self).wf(),
            final(self).has_pending(path@),
            final(self).deadline_at(path@) == now + quiet,
            count_path(final(self).pending@, path@) == 1,
            forall|q: Seq<char>| #![trigger final(self).has_pending(q)]
                q != path@ ==> (final(self).has_pending(q) <==> old(self).has_pending(q)),
            forall|q: Seq<char>| #![trigger final(self).deadline_at(q)]
                q != path@ && old(self).has_pending(q) ==> final(self).deadline_at(q) == old(
                    self,
                ).deadline_at(q),
    {
        let deadline = now + quiet;
        let ghost pre = *self;
        match self.find_index(path) {
            Some(i) => {
                let entry = self.pending.remove(i);
                self.pending.insert(i, PendingWrite { path: entry.path, deadline });
                proof {
                    lemma_upsert_preserves(pre, *self, i as int, path@);
                    lemma_count_path_unique(self.pending@, path@, i as int);
                }
            },
            None => {
                self.pending.push(PendingWrite { path: path.to_owned(), deadline });
                proof {
                    lemma_append_preserves(pre, *self, path@);
                    lemma_count_path_unique(
                        self.pending@,
                        path@,
                        self.pending@.len() - 1,
                    );
                }
            },
        }
    }

    /// Removes and returns the paths whose quiet period has elapsed at
    /// `now`: each due path is emitted exactly once, in timer order, and
    /// paths still within their quiet period stay pending unchanged.
    pub fn due(&mut self, now: u64) -> (r: Vec<String>)
        requires
            old(self).wf(),
        ensures
            final(self).wf(),
            final(self).pending@ == old(self).pending@.filter(
                |p: PendingWrite| p.deadline > now,
            ),
            r@.map_values(|s: String| s@) == old(self).pending@.filter(
                |p: PendingWrite| p.deadline <= now,
            ).map_values(|p: PendingWrite| p.path@),
    {
        let ghost pre = self.pending@;
        let ghost keep = |p: PendingWrite| p.deadline > now;
        let ghost emit = |p: PendingWrite| p.deadline <= now;
        let mut kept: Vec<PendingWrite> = Vec::new();
        let mut out: Vec<String> = Vec::new();
        let n = self.pending.len();
        let mut i: usize = 0;
        proof {
            assert(pre.take(0) =~= Seq::<PendingWrite>::empty());
            assert(pre.take(0).filter(keep) =~= Seq::<PendingWrite>::empty());
            assert(pre.take(0).filter(emit) =~= Seq::<PendingWrite>::empty());
        }
        while i < n
            invariant
                n == self.pending@.len(),
                self.pending@ == pre,
                i <= n,
                keep == (|p: PendingWrite| p.deadline > now),
                emit == (|p: PendingWrite| p.deadline <= now),
                kept@ == pre.take(i as int).filter(keep),
                out@.map_values(|s: String| s@) == pre.take(i as int).filter(emit).map_values(
                    |p: PendingWrite| p.path@,
                ),
            decreases n - i,
        {
            let ghost old_out = out@;
            let ghost old_kept = kept@;
            let entry = &self.pending[i];
            if entry.deadline <= now {
                out.push(entry.path.clone());
                proof {
                    lemma_filter_step(pre, i as int, keep);
                    lemma_filter_step(pre, i as int, emit);
                    assert(emit(pre[i as int]));
                    assert(!keep(pre[i as int]));
                    assert(out@ == old_out.push(pre[i as int].path));
                    assert(kept@ =~= pre.take(i + 1 as int).filter(keep));
                    let evs = pre.take(i + 1 as int).filter(emit);
                    assert(evs == pre.take(i as int).filter(emit).push(pre[i as int]));
                    assert(old_out.map_values(|s: String| s@).len() == old_out.len());
                    assert(evs.len() == old_out.len() + 1);
                    assert forall|j: int| 0 <= j < out@.len() implies #[trigger] out@[j]@
                        == evs[j].path@ by {
                        if j < old_out.len() {
                            assert(old_out.map_values(|s: String| s@)[j] == pre.take(
                                i as int,
                            ).filter(emit).map_values(|p: PendingWrite| p.path@)[j]);
                            assert(evs[j] == pre.take(i as int).filter(emit)[j]);
                            assert(out@[j] == old_out[j]);
                        } else {
                            assert(out@[j] == pre[i as int].path);
                            assert(evs[j] == pre[i as int]);
                        }
                    }
                    assert(out@.map_values(|s: String| s@) =~= pre.take(i + 1 as int).filter(
                        emit,
                    ).map_values(|p: PendingWrite| p.path@));
                }
            } else {
                kept.push(PendingWrite { path: entry.path.clone(), deadline: entry.deadline });
                proof {
                    lemma_filter_step(pre, i as int, keep);
                    lemma_filter_step(pre, i as int, emit);
                    assert(keep(pre[i as int]));
                    assert(!emit(pre[i as int]));
                    assert(kept@ == old_kept.push(kept@[kept@.len() - 1]));
                    assert(kept@[kept@.len() - 1].path@ == pre[i as int].path@);
                    assert(kept@[kept@.len() - 1].deadline == pre[i as int].deadline);
                    assert(kept@ =~= pre.take(i + 1 as int).filter(keep));
                    assert(out@.map_values(|s: String| s@) =~= pre.take(i + 1 as int).filter(
                        emit,
                    ).map_values(|p: PendingWrite| p.path@));
                }
            }
            i = i + 1;
        }
        proof {
            assert(pre.take(n as int) =~= pre);
        }
        self.pending = kept;
        proof {
            lemma_filter_keeps_unique(pre, keep);
        }
        out
    }
}

/// Filtering a one-longer prefix appends the new element when it passes.
proof fn lemma_filter_step(s: Seq<PendingWrite>, i: int, f: spec_fn(PendingWrite) -> bool)
    requires
        0 <= i < s.len(),
    ensures
        s.take(i + 1).filter(f) == if f(s[i]) {
            s.take(i).filter(f).push(s[i])
        } else {
            s.take(i).filter(f)
        },
{
    assert(s.take(i + 1) =~= s.take(i) + seq![s[i]]);
    Seq::filter_distributes_over_add(s.take(i), seq![s[i]], f);
    reveal_with_fuel(Seq::filter, 2);
    assert(seq![s[i]].drop_last() =~= Seq::<PendingWrite>::empty());
    if f(s[i]) {
        assert(seq![s[i]].filter(f) =~= seq![s[i]]);
        assert(s.take(i).filter(f) + seq![s[i]] =~= s.take(i).filter(f).push(s[i]));
    } else {
        assert(seq![s[i]].filter(f) =~= Seq::<PendingWrite>::empty());
        assert(s.take(i).filter(f) + Seq::<PendingWrite>::empty() =~= s.take(i).filter(f));
    }
}

/// A filtered sequence of unique-path entries still has unique paths.
proof fn lemma_filter_keeps_unique(s: Seq<PendingWrite>, f: spec_fn(PendingWrite) -> bool)
    requires
        forall|i: int, j: int| 0 <= i < j < s.len() ==> s[i].path@ != s[j].path@,
    ensures
        forall|i: int, j: int|
            0 <= i < j < s.filter(f).len() ==> s.filter(f)[i].path@ != s.filter(f)[j].path@,
{
    assert forall|i: int, j: int|
        0 <= i < j < s.filter(f).len() implies s.filter(f)[i].path@ != s.filter(f)[j].path@ by {
        lemma_filter_distinct(s, f, i, j);
    }
}

/// Distinct positions of a filtered sequence come from distinct positions of
/// the unfiltered sequence, in order.
proof fn lemma_filter_distinct(
    s: Seq<PendingWrite>,
    f: spec_fn(PendingWrite) -> bool,
    i: int,
    j: int,
)
    requires
        forall|x: int, y: int| 0 <= x < y < s.len() ==> s[x].path@ != s[y].path@,
        0 <= i < j < s.filter(f).len(),
    ensures
        s.filter(f)[i].path@ != s.filter(f)[j].path@,
    decreases s.len(),
{
    if s.len() > 0 {
        let rest = s.drop_last();
        Seq::filter_distributes_over_add(rest, seq![s.last()], f);
        assert(rest + seq![s.last()] =~= s);
        reveal_with_fuel(Seq::filter, 2);
        assert(seq![s.last()].drop_last() =~= Seq::<PendingWrite>::empty());
        if f(s.last()) {
            assert(seq![s.last()].filter(f) =~= seq![s.last()]);
            assert(s.filter(f) =~= rest.filter(f).push(s.last()));
            if j < s.filter(f).len() - 1 {
                lemma_filter_distinct(rest, f, i, j);
            } else {
                // s.filter(f)[j] is s.last(); s.filter(f)[i] comes from rest.
                lemma_filter_element_from(rest, f, i);
            }
        } else {
            assert(seq![s.last()].filter(f) =~= Seq::<PendingWrite>::empty());
            assert(s.filter(f) =~= rest.filter(f));
            lemma_filter_distinct(rest, f, i, j);
        }
    }
}

/// Every element of a filtered sequence occurs in the unfiltered one.
proof fn lemma_filter_element_from(s: Seq<PendingWrite>, f: spec_fn(PendingWrite) -> bool, i: int)
    requires
        0 <= i < s.filter(f).len(),
    ensures
        exists|k: int| 0 <= k < s.len() && s[k] == s.filter(f)[i],
    decreases s.len(),
{
    if s.len() > 0 {
        let rest = s.drop_last();
        Seq::filter_distributes_over_add(rest, seq![s.last()], f);
        assert(rest + seq![s.last()] =~= s);
        reveal_with_fuel(Seq::filter, 2);
        assert(seq![s.last()].drop_last() =~= Seq::<PendingWrite>::empty());
        if f(s.last()) {
            assert(s.filter(f) =~= rest.filter(f).push(s.last()));
            if i < s.filter(f).len() - 1 {
                lemma_filter_element_from(rest, f, i);
                let k = choose|k: int| 0 <= k < rest.len() && rest[k] == rest.filter(f)[i];
                assert(s[k] == s.filter(f)[i]);
            } else {
                assert(s[s.len() - 1] == s.filter(f)[i]);
            }
        } else {
            assert(s.filter(f) =~= rest.filter(f));
            lemma_filter_element_from(rest, f, i);
            let k = choose|k: int| 0 <= k < rest.len() && rest[k] == rest.filter(f)[i];
            assert(s[k] == s.filter(f)[i]);
        }
    }
}

/// Replacing the entry at `i` by one with the same path keeps uniqueness and
/// every other path's timer.
proof fn lemma_upsert_preserves(pre: Debouncer, post: Debouncer, i: int, path: Seq<char>)
    requires
        pre.wf(),
        0 <= i < pre.pending@.len(),
        pre.pending@[i].path@ == path,
        post.pending@.len() == pre.pending@.len(),
        post.pending@[i].path@ == path,
        forall|j: int| 0 <= j < pre.pending@.len() && j != i ==> post.pending@[j] == pre.pending@[j],
    ensures
        post.wf(),
        post.has_pending(path),
        post.deadline_at(path) == post.pending@[i].deadline,
        forall|q: Seq<char>| #![trigger post.has_pending(q)]
            q != path ==> (post.has_pending(q) <==> pre.has_pending(q)),
        forall|q: Seq<char>| #![trigger post.deadline_at(q)]
            q != path && pre.has_pending(q) ==> post.deadline_at(q) == pre.deadline_at(q),
{
    assert(post.wf()) by {
        assert forall|x: int, y: int|
            0 <= x < y < post.pending@.len() implies post.pending@[x].path@
            != post.pending@[y].path@ by {
            assert(pre.pending@[x].path@ != pre.pending@[y].path@);
        }
    }
    assert(post.has_pending(path));
    let w = choose|w: int| 0 <= w < post.pending@.len() && post.pending@[w].path@ == path;
    assert(w == i);
    assert forall|q: Seq<char>| q != path implies (#[trigger] post.has_pending(q)
        <==> pre.has_pending(q)) by {
        if post.has_pending(q) {
            let j = choose|j: int| 0 <= j < post.pending@.len() && post.pending@[j].path@ == q;
            assert(j != i);
            assert(pre.pending@[j].path@ == q);
        }
        if pre.has_pending(q) {
            let j = choose|j: int| 0 <= j < pre.pending@.len() && pre.pending@[j].path@ == q;
            assert(j != i);
            assert(post.pending@[j].path@ == q);
        }
    }
    assert forall|q: Seq<char>| q != path && pre.has_pending(q) implies #[trigger] post.deadline_at(
        q,
    ) == pre.deadline_at(q) by {
        let jpre = choose|j: int| 0 <= j < pre.pending@.len() && pre.pending@[j].path@ == q;
        assert(jpre != i);
        assert(post.pending@[jpre].path@ == q);
        let jpost = choose|j: int| 0 <= j < post.pending@.len() && post.pending@[j].path@ == q;
        if jpost != jpre {
            assert(post.pending@[jpost].path@ == post.pending@[jpre].path@);
            assert(false);
        }
    }
}

/// Appending an entry with a fresh path keeps uniqueness and every other
/// path's timer.
proof fn lemma_append_preserves(pre: Debouncer, post: Debouncer, path: Seq<char>)
    requires
        pre.wf(),
        !pre.has_pending(path),
        post.pending@.len() == pre.pending@.len() + 1,
        post.pending@[pre.pending@.len() as int].path@ == path,
        forall|j: int| 0 <= j < pre.pending@.len() ==> post.pending@[j] == pre.pending@[j],
    ensures
        post.wf(),
        post.has_pending(path),
        post.deadline_at(path) == post.pending@[pre.pending@.len() as int].deadline,
        forall|q: Seq<char>| #![trigger post.has_pending(q)]
            q != path ==> (post.has_pending(q) <==> pre.has_pending(q)),
        forall|q: Seq<char>| #![trigger post.deadline_at(q)]
            q != path && pre.has_pending(q) ==> post.deadline_at(q) == pre.deadline_at(q),
{
    let n = pre.pending@.len() as int;
    assert(post.wf()) by {
        assert forall|x: int, y: int|
            0 <= x < y < post.pending@.len() implies post.pending@[x].path@
            != post.pending@[y].path@ by {
            if y < n {
                assert(pre.pending@[x].path@ != pre.pending@[y].path@);
            } else {
                if pre.pending@[x].path@ == path {
                    assert(pre.has_pending(path));
                }
            }
        }
    }
    assert(post.has_pending(path));
    let w = choose|w: int| 0 <= w < post.pending@.len() && post.pending@[w].path@ == path;
    if w != n {
        assert(pre.pending@[w].path@ == path);
        assert(pre.has_pending(path));
    }
    assert forall|q: Seq<char>| q != path implies (#[trigger] post.has_pending(q)
        <==> pre.has_pending(q)) by {
        if post.has_pending(q) {
            let j = choose|j: int| 0 <= j < post.pending@.len() && post.pending@[j].path@ == q;
            assert(j != n);
            assert(pre.pending@[j].path@ == q);
        }
        if pre.has_pending(q) {
            let j = choose|j: int| 0 <= j < pre.pending@.len() && pre.pending@[j].path@ == q;
            assert(post.pending@[j].path@ == q);
        }
    }
    assert forall|q: Seq<char>| q != path && pre.has_pending(q) implies #[trigger] post.deadline_at(
        q,
    ) == pre.deadline_at(q) by {
        let jpre = choose|j: int| 0 <= j < pre.pending@.len() && pre.pending@[j].path@ == q;
        assert(post.pending@[jpre].path@ == q);
        let jpost = choose|j: int| 0 <= j < post.pending@.len() && post.pending@[j].path@ == q;
        if jpost != jpre {
            assert(post.pending@[jpost].path@ == post.pending@[jpre].path@);
            assert(false);
        }
    }
}

} // verus!

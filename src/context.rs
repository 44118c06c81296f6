use vstd::prelude::*;

verus! {

/// The most recent `max` tokens of `s`, in the order they came.
pub open spec fn window(s: Seq<i32>, max: nat) -> Seq<i32> {
    if s.len() > max {
        s.subrange(s.len() - max, s.len() as int)
    } else {
        s
    }
}

struct SessionEntry {
    id: String,
    tokens: Vec<i32>,
}

/// Per-session token history, each bounded to the most recent
/// `max_context_size` tokens.
pub struct ContextManager {
    entries: Vec<SessionEntry>,
    max_context_size: usize,
}

impl ContextManager {
    closed spec fn holds(&self, k: Seq<char>) -> bool {
        exists|i: int| 0 <= i < self.entries.len() && self.entries@[i].id@ == k
    }

    closed spec fn index_of(&self, k: Seq<char>) -> int {
        choose|i: int| 0 <= i < self.entries.len() && self.entries@[i].id@ == k
    }

    /// Stored token sequences by session id.
    pub closed spec fn view(&self) -> Map<Seq<char>, Seq<i32>> {
        Map::new(|k: Seq<char>| self.holds(k), |k: Seq<char>| self.entries@[self.index_of(k)].tokens@)
    }

    pub closed spec fn max_tokens(&self) -> nat {
        self.max_context_size as nat
    }

    pub closed spec fn wf(&self) -> bool {
        &&& forall|i: int, j: int|
            0 <= i < j < self.entries.len() ==> self.entries@[i].id@ != self.entries@[j].id@
        &&& forall|i: int|
            0 <= i < self.entries.len() ==> #[trigger] self.entries@[i].tokens@.len()
                <= self.max_context_size
    }

    pub fn new(max_context_size: usize) -> (r: Self)
        ensures
            r.wf(),
            r.view() == Map::<Seq<char>, Seq<i32>>::empty(),
            r.max_tokens() == max_context_size,
    {
        let r = ContextManager { entries: Vec::new(), max_context_size };
        assert(r.view() =~= Map::<Seq<char>, Seq<i32>>::empty());
        r
    }

    fn find(&self, id: &String) -> (r: Option<usize>)
        requires
            self.wf(),
        ensures
            r is Some <==> self.holds(id@),
            r matches Some(i) ==> i == self.index_of(id@) && i < self.entries.len(),
    {
        let mut i: usize = 0;
        while i < self.entries.len()
            invariant
                self.wf(),
                i <= self.entries.len(),
                forall|j: int| 0 <= j < i ==> self.entries@[j].id@ != id@,
            decreases self.entries.len() - i,
        {
            if self.entries[i].id == *id {
                let ghost c = self.index_of(id@);
                assert(self.entries@[c].id@ == id@);
                proof {
                    if c > i as int {
                        assert(self.entries@[i as int].id@ != self.entries@[c].id@);
                    }
                }
                return Some(i);
            }
            i = i + 1;
        }
        None
    }

    /// The stored tokens of `session_id`, if any.
    pub fn get_context(&self, session_id: &str) -> (r: Option<Vec<i32>>)
        requires
            self.wf(),
        ensures
            r matches Some(v) ==> self.view().contains_key(session_id@) && v@ == self.view()[session_id@],
            r is None ==> !self.view().contains_key(session_id@),
    {
        let id = String::from_str(session_id);
        match self.find(&id) {
            Some(i) => Some(self.entries[i].tokens.clone()),
            None => None,
        }
    }

    /// Stores `context` for `session_id`, replacing what was there, keeping
    /// only its most recent `max_context_size` tokens.
    pub fn save_context(&mut self, session_id: &str, context: Vec<i32>)
        requires
            old(self).wf(),
        ensures
            final(self).wf(),
            final(self).max_tokens() == old(self).max_tokens(),
            final(self).view() == old(self).view().insert(
                session_id@,
                window(context@, old(self).max_tokens()),
            ),
    {
        let ghost old_view = self.view();
        let ghost old_entries = self.entries@;
        let ghost orig = context@;
        let mut tokens = context;
        let n = tokens.len();
        let trimmed = if n > self.max_context_size {
            tokens.split_off(n - self.max_context_size)
        } else {
            tokens
        };
        assert(trimmed@ == window(orig, self.max_context_size as nat));
        let id = String::from_str(session_id);
        match self.find(&id) {
            Some(i) => {
                self.entries.set(i, SessionEntry { id, tokens: trimmed });
                proof {
                    assert forall|a: int, b: int|
                        0 <= a < b < self.entries.len() implies self.entries@[a].id@
                        != self.entries@[b].id@ by {
                        assert(self.entries@[a].id@ == old_entries[a].id@);
                        assert(self.entries@[b].id@ == old_entries[b].id@);
                    }
                    assert forall|k: Seq<char>| #[trigger] self.holds(k) == old_view.insert(
                        session_id@,
                        trimmed@,
                    ).contains_key(k) by {
                        if self.holds(k) {
                            let a = choose|a: int|
                                0 <= a < self.entries.len() && self.entries@[a].id@ == k;
                            assert(old_entries[a].id@ == k);
                        }
                        if old_view.contains_key(k) {
                            let a = choose|a: int|
                                0 <= a < old_entries.len() && old_entries[a].id@ == k;
                            assert(self.entries@[a].id@ == k);
                        }
                    }
                    assert forall|k: Seq<char>| #[trigger] self.holds(k) implies self.entries@[self.index_of(
                        k,
                    )].tokens@ == old_view.insert(session_id@, trimmed@)[k] by {
                        let c = self.index_of(k);
                        if k == session_id@ {
                            if c != i as int {
                                assert(self.entries@[i as int].id@ == k);
                            }
                        } else {
                            assert(old_entries[c].id@ == k);
                            let oc = choose|a: int|
                                0 <= a < old_entries.len() && old_entries[a].id@ == k;
                            if oc != c {
                                assert(old_entries[oc].id@ != old_entries[c].id@);
                            }
                        }
                    }
                    assert(self.view() =~= old_view.insert(session_id@, trimmed@));
                }
            },
            None => {
                self.entries.push(SessionEntry { id, tokens: trimmed });
                proof {
                    let last = self.entries.len() - 1;
                    assert forall|a: int, b: int|
                        0 <= a < b < self.entries.len() implies self.entries@[a].id@
                        != self.entries@[b].id@ by {
                        assert(self.entries@[a] == old_entries[a]);
                        if b < last {
                            assert(self.entries@[b] == old_entries[b]);
                        }
                    }
                    assert forall|k: Seq<char>| #[trigger] self.holds(k) == old_view.insert(
                        session_id@,
                        trimmed@,
                    ).contains_key(k) by {
                        if self.holds(k) && k != session_id@ {
                            let a = choose|a: int|
                                0 <= a < self.entries.len() && self.entries@[a].id@ == k;
                            assert(old_entries[a].id@ == k);
                        }
                        if old_view.contains_key(k) {
                            let a = choose|a: int|
                                0 <= a < old_entries.len() && old_entries[a].id@ == k;
                            assert(self.entries@[a].id@ == k);
                        }
                        assert(self.entries@[last].id@ == session_id@);
                    }
                    assert forall|k: Seq<char>| #[trigger] self.holds(k) implies self.entries@[self.index_of(
                        k,
                    )].tokens@ == old_view.insert(session_id@, trimmed@)[k] by {
                        let c = self.index_of(k);
                        if k == session_id@ {
                            if c != last {
                                assert(old_entries[c].id@ == k);
                            }
                        } else {
                            assert(c != last);
                            assert(old_entries[c].id@ == k);
                            let oc = choose|a: int|
                                0 <= a < old_entries.len() && old_entries[a].id@ == k;
                            if oc != c {
                                assert(old_entries[oc].id@ != old_entries[c].id@);
                            }
                        }
                    }
                    assert(self.view() =~= old_view.insert(session_id@, trimmed@));
                }
            },
        }
    }

    /// Forgets the tokens of `session_id`.
    pub fn clear_context(&mut self, session_id: &str)
        requires
            old(self).wf(),
        ensures
            final(self).wf(),
            final(self).max_tokens() == old(self).max_tokens(),
            final(self).view() == old(self).view().remove(session_id@),
    {
        let ghost old_view = self.view();
        let ghost old_entries = self.entries@;
        let id = String::from_str(session_id);
        match self.find(&id) {
            Some(i) => {
                let _e = self.entries.remove(i);
                proof {
                    assert forall|a: int| 0 <= a < self.entries.len() implies #[trigger] self.entries@[a]
                        == old_entries[if a < i { a } else { a + 1 }] by {}
                    assert forall|a: int, b: int|
                        0 <= a < b < self.entries.len() implies self.entries@[a].id@
                        != self.entries@[b].id@ by {
                        let oa = if a < i { a } else { a + 1 };
                        let ob = if b < i { b } else { b + 1 };
                        assert(self.entries@[a] == old_entries[oa]);
                        assert(self.entries@[b] == old_entries[ob]);
                    }
                    assert forall|k: Seq<char>| #[trigger] self.holds(k) == old_view.remove(
                        session_id@,
                    ).contains_key(k) by {
                        if self.holds(k) {
                            let a = choose|a: int|
                                0 <= a < self.entries.len() && self.entries@[a].id@ == k;
                            let oa = if a < i { a } else { a + 1 };
                            assert(old_entries[oa].id@ == k);
                            assert(oa != i);
                            assert(old_entries[i as int].id@ == session_id@);
                        }
                        if old_view.contains_key(k) && k != session_id@ {
                            let a = choose|a: int|
                                0 <= a < old_entries.len() && old_entries[a].id@ == k;
                            assert(a != i);
                            let na = if a < i { a } else { a - 1 };
                            assert(self.entries@[na].id@ == k);
                        }
                    }
                    assert forall|k: Seq<char>| #[trigger] self.holds(k) implies self.entries@[self.index_of(
                        k,
                    )].tokens@ == old_view.remove(session_id@)[k] by {
                        let c = self.index_of(k);
                        let oc0 = if c < i { c } else { c + 1 };
                        assert(old_entries[oc0].id@ == k);
                        let oc = choose|a: int|
                            0 <= a < old_entries.len() && old_entries[a].id@ == k;
                        if oc != oc0 {
                            assert(old_entries[oc].id@ != old_entries[oc0].id@);
                        }
                        assert(old_entries[i as int].id@ == session_id@);
                    }
                    assert(self.view() =~= old_view.remove(session_id@));
                }
            },
            None => {
                assert(self.view() =~= old_view.remove(session_id@));
            },
        }
    }

    /// Forgets every session.
    pub fn clear_all(&mut self)
        requires
            old(self).wf(),
        ensures
            final(self).wf(),
            final(self).max_tokens() == old(self).max_tokens(),
            final(self).view() == Map::<Seq<char>, Seq<i32>>::empty(),
    {
        self.entries.clear();
        assert(self.view() =~= Map::<Seq<char>, Seq<i32>>::empty());
    }

    pub fn max_context_size(&self) -> (r: usize)
        ensures
            r == self.max_tokens(),
    {
        self.max_context_size
    }
}

/// Sliding window: storing `tokens` and reading them back gives the last
/// `min(len, max)` tokens, in the order they came; other sessions are untouched.
pub proof fn lemma_put_then_get(
    m: Map<Seq<char>, Seq<i32>>,
    id: Seq<char>,
    tokens: Seq<i32>,
    max: nat,
    other: Seq<char>,
)
    ensures
        m.insert(id, window(tokens, max)).contains_key(id),
        m.insert(id, window(tokens, max))[id] == tokens.subrange(
            tokens.len() - (if tokens.len() < max { tokens.len() } else { max }),
            tokens.len() as int,
        ),
        m.insert(id, window(tokens, max))[id].len() <= max,
        other != id ==> m.insert(id, window(tokens, max)).contains_key(other) == m.contains_key(
            other,
        ) && m.insert(id, window(tokens, max))[other] == m[other],
{
    if tokens.len() <= max {
        assert(tokens.subrange(0, tokens.len() as int) =~= tokens);
    }
}

} // verus!

//! Roster store: who is currently co-located with the operator.
//!
//! An insertion-ordered mapping from user identity to display name, with
//! a deterministic textual rendering. The order only records insertion
//! history; it carries no meaning, but it makes the rendering a function
//! of the store's history alone. Writing the rendered text to disk is the
//! caller's job.

use vstd::prelude::*;
use vstd::string::StringExecFns;

verus! {

/// One roster entry: a user identity and the display name shown for it.
pub struct Entry {
    pub user: u64,
    pub name: String,
}

/// Insertion-ordered mapping from user identity to display name.
pub struct Roster {
    pub entries: Vec<Entry>,
}

/// The view an entry sequence presents: identity and name view per entry.
pub open spec fn entries_view(es: Seq<Entry>) -> Seq<(u64, Seq<char>)> {
    es.map_values(|e: Entry| (e.user, e.name@))
}

impl View for Roster {
    type V = Seq<(u64, Seq<char>)>;

    open spec fn view(&self) -> Seq<(u64, Seq<char>)> {
        entries_view(self.entries@)
    }
}

/// No user identity occurs twice.
pub open spec fn unique_keys(r: Seq<(u64, Seq<char>)>) -> bool {
    forall|i: int, j: int| 0 <= i < j < r.len() ==> r[i].0 != r[j].0
}

/// Whether some entry is for user `u`.
pub open spec fn has_user(r: Seq<(u64, Seq<char>)>, u: u64) -> bool {
    exists|i: int| 0 <= i < r.len() && r[i].0 == u
}

/// The index of the entry for user `u` (meaningful only when
/// `has_user(r, u)` holds).
pub open spec fn user_index(r: Seq<(u64, Seq<char>)>, u: u64) -> int {
    choose|i: int| 0 <= i < r.len() && r[i].0 == u
}

/// The roster after an upsert of `(u, n)`: a present user keeps their
/// position and gets the new name; an absent user is appended.
pub open spec fn spec_insert(r: Seq<(u64, Seq<char>)>, u: u64, n: Seq<char>) -> Seq<
    (u64, Seq<char>),
> {
    if has_user(r, u) {
        r.update(user_index(r, u), (u, n))
    } else {
        r.push((u, n))
    }
}

/// The roster after user `u` is removed; removing an absent user changes
/// nothing.
pub open spec fn spec_remove(r: Seq<(u64, Seq<char>)>, u: u64) -> Seq<(u64, Seq<char>)> {
    if has_user(r, u) {
        r.remove(user_index(r, u))
    } else {
        r
    }
}

/// The display names, in store order.
pub open spec fn names_of(r: Seq<(u64, Seq<char>)>) -> Seq<Seq<char>> {
    r.map_values(|p: (u64, Seq<char>)| p.1)
}

/// The names joined by a comma and a space.
pub open spec fn joined(names: Seq<Seq<char>>) -> Seq<char>
    decreases names.len(),
{
    if names.len() == 0 {
        Seq::empty()
    } else if names.len() == 1 {
        names[0]
    } else {
        joined(names.drop_last()) + ", "@ + names.last()
    }
}

/// What `render` returns: the label followed by the joined names.
pub open spec fn spec_render(r: Seq<(u64, Seq<char>)>) -> Seq<char> {
    "On call: "@ + joined(names_of(r))
}

impl Roster {
    pub open spec fn wf(self) -> bool {
        unique_keys(self@)
    }

    pub fn new() -> (r: Roster)
        ensures
            r@ == Seq::<(u64, Seq<char>)>::empty(),
            r.wf(),
    {
        let r = Roster { entries: Vec::new() };
        proof {
            assert(r@ =~= Seq::<(u64, Seq<char>)>::empty());
        }
        r
    }

    pub fn len(&self) -> (n: usize)
        ensures
            n == self@.len(),
    {
        self.entries.len()
    }

    pub fn contains_user(&self, u: u64) -> (r: bool)
        ensures
            r == has_user(self@, u),
    {
        self.index_of(u).is_some()
    }

    /// The position of the entry for user `u`, if there is one.
    fn index_of(&self, u: u64) -> (r: Option<usize>)
        ensures
            (match r {
                Some(i) => {
                    &&& i < self@.len()
                    &&& self@[i as int].0 == u
                    &&& has_user(self@, u)
                },
                None => !has_user(self@, u),
            }),
    {
        let mut i: usize = 0;
        while i < self.entries.len()
            invariant
                i <= self.entries@.len(),
                forall|k: int| 0 <= k < i ==> self@[k].0 != u,
            decreases self.entries@.len() - i,
        {
            if self.entries[i].user == u {
                proof {
                    assert(self@[i as int].0 == u);
                }
                return Some(i);
            }
            i += 1;
        }
        proof {
            assert(!has_user(self@, u)) by {
                assert(forall|k: int| 0 <= k < self@.len() ==> self@[k].0 != u);
            }
        }
        None
    }

    /// Upserts `(user, name)`: a present user keeps their position and
    /// gets the new name; an absent user is appended.
    pub fn insert(&mut self, user: u64, name: String)
        requires
            old(self).wf(),
        ensures
            final(self)@ == spec_insert(old(self)@, user, name@),
            final(self).wf(),
    {
        match self.index_of(user) {
            Some(i) => {
                proof {
                    lemma_found_index_unique(old(self)@, user, i as int);
                }
                self.entries[i] = Entry { user, name };
                proof {
                    assert(self@ =~= spec_insert(old(self)@, user, name@));
                    assert(unique_keys(self@)) by {
                        assert(forall|k: int|
                            0 <= k < self@.len() ==> self@[k].0 == old(self)@[k].0);
                    }
                }
            },
            None => {
                self.entries.push(Entry { user, name });
                proof {
                    assert(self@ =~= spec_insert(old(self)@, user, name@));
                    assert(unique_keys(self@)) by {
                        assert(forall|k: int| 0 <= k < old(self)@.len() ==> self@[k]
                            == old(self)@[k]);
                    }
                }
            },
        }
    }

    /// Removes user `u`, handing back the display name they were stored
    /// under; an absent user leaves the store untouched.
    pub fn remove(&mut self, u: u64) -> (r: Option<String>)
        requires
            old(self).wf(),
        ensures
            final(self)@ == spec_remove(old(self)@, u),
            final(self).wf(),
            r is Some <==> has_user(old(self)@, u),
            (match r {
                Some(n) => old(self)@[user_index(old(self)@, u)].1 == n@,
                None => final(self)@ == old(self)@,
            }),
    {
        match self.index_of(u) {
            Some(i) => {
                proof {
                    lemma_found_index_unique(old(self)@, u, i as int);
                }
                let e = self.entries.remove(i);
                proof {
                    assert(self@ =~= spec_remove(old(self)@, u));
                    assert(unique_keys(self@)) by {
                        lemma_remove_unique(old(self)@, u);
                    }
                }
                Some(e.name)
            },
            None => None,
        }
    }

    /// Empties the store.
    pub fn clear(&mut self)
        ensures
            final(self)@ == Seq::<(u64, Seq<char>)>::empty(),
            final(self).wf(),
    {
        self.entries.clear();
        proof {
            assert(self@ =~= Seq::<(u64, Seq<char>)>::empty());
        }
    }

    /// Renders the roster as `On call: ` followed by the display names in
    /// store order, joined by a comma and a space. An empty store renders
    /// as the bare label.
    pub fn render(&self) -> (r: String)
        ensures
            r@ == spec_render(self@),
    {
        let mut out = String::new();
        out.append("On call: ");
        proof {
            assert(names_of(self@.take(0)).len() == 0);
            assert(out@ =~= "On call: "@ + joined(names_of(self@.take(0))));
        }
        let mut i: usize = 0;
        while i < self.entries.len()
            invariant
                i <= self.entries@.len(),
                out@ == "On call: "@ + joined(names_of(self@.take(i as int))),
            decreases self.entries@.len() - i,
        {
            if i > 0 {
                out.append(", ");
            }
            out.append(self.entries[i].name.as_str());
            proof {
                let pre = names_of(self@.take(i as int));
                let post = names_of(self@.take(i as int + 1));
                assert(post.len() == i + 1);
                assert(post.drop_last() =~= pre);
                assert(post.last() == self@[i as int].1);
                if i == 0 {
                    assert(joined(post) == post[0]);
                    assert(out@ =~= "On call: "@ + joined(post));
                } else {
                    assert(joined(post) == joined(pre) + ", "@ + post.last());
                    assert(out@ =~= "On call: "@ + joined(post));
                }
            }
            i += 1;
        }
        proof {
            assert(self@.take(self@.len() as int) =~= self@);
        }
        out
    }
}

/// When keys are unique, the index a search found is the one the
/// specification speaks of.
proof fn lemma_found_index_unique(r: Seq<(u64, Seq<char>)>, u: u64, i: int)
    requires
        unique_keys(r),
        0 <= i < r.len(),
        r[i].0 == u,
    ensures
        has_user(r, u),
        user_index(r, u) == i,
{
    assert(has_user(r, u));
    let j = user_index(r, u);
    assert(0 <= j < r.len() && r[j].0 == u);
    if j < i {
        assert(r[j].0 != r[i].0);
    } else if i < j {
        assert(r[i].0 != r[j].0);
    }
}

/// Removal keeps keys unique.
proof fn lemma_remove_unique(r: Seq<(u64, Seq<char>)>, u: u64)
    requires
        unique_keys(r),
        has_user(r, u),
    ensures
        unique_keys(r.remove(user_index(r, u))),
{
    let i = user_index(r, u);
    let s = r.remove(i);
    assert(unique_keys(s)) by {
        assert forall|p: int, q: int| 0 <= p < q < s.len() implies s[p].0 != s[q].0 by {
            let p0: int = if p < i {
                p
            } else {
                p + 1
            };
            let q0: int = if q < i {
                q
            } else {
                q + 1
            };
            assert(s[p] == r[p0]);
            assert(s[q] == r[q0]);
            assert(r[p0].0 != r[q0].0);
        }
    }
}

/// Law: upserting the same `(user, name)` twice is the same as upserting
/// it once — in particular the store's size and its rendering are
/// unchanged by the second upsert.
pub proof fn lemma_insert_idempotent(r: Seq<(u64, Seq<char>)>, u: u64, n: Seq<char>)
    requires
        unique_keys(r),
    ensures
        spec_insert(spec_insert(r, u, n), u, n) == spec_insert(r, u, n),
        spec_insert(spec_insert(r, u, n), u, n).len() == spec_insert(r, u, n).len(),
        spec_render(spec_insert(spec_insert(r, u, n), u, n)) == spec_render(spec_insert(r, u, n)),
{
    let r1 = spec_insert(r, u, n);
    if has_user(r, u) {
        let i = user_index(r, u);
        assert(0 <= i < r.len() && r[i].0 == u);
        assert(r1 == r.update(i, (u, n)));
        lemma_insert_unique(r, u, n);
        lemma_found_index_unique(r1, u, i);
        assert(r1.update(i, (u, n)) =~= r1);
    } else {
        let i = r.len() as int;
        assert(r1 == r.push((u, n)));
        assert(r1[i].0 == u);
        lemma_insert_unique(r, u, n);
        lemma_found_index_unique(r1, u, i);
        assert(r1.update(i, (u, n)) =~= r1);
    }
}

/// Upserting keeps keys unique.
pub proof fn lemma_insert_unique(r: Seq<(u64, Seq<char>)>, u: u64, n: Seq<char>)
    requires
        unique_keys(r),
    ensures
        unique_keys(spec_insert(r, u, n)),
{
    let s = spec_insert(r, u, n);
    if has_user(r, u) {
        let i = user_index(r, u);
        assert(0 <= i < r.len() && r[i].0 == u);
        assert(unique_keys(s)) by {
            assert(forall|k: int| 0 <= k < s.len() ==> s[k].0 == r[k].0);
        }
    } else {
        assert(unique_keys(s)) by {
            assert(forall|k: int| 0 <= k < r.len() ==> s[k] == r[k]);
            assert(forall|k: int| 0 <= k < r.len() ==> r[k].0 != u);
        }
    }
}

/// Law: removing an absent user changes neither the store nor its
/// rendering.
pub proof fn lemma_remove_absent(r: Seq<(u64, Seq<char>)>, u: u64)
    requires
        !has_user(r, u),
    ensures
        spec_remove(r, u) == r,
        spec_render(spec_remove(r, u)) == spec_render(r),
{
}

/// Law: an empty store renders as exactly the bare label.
pub proof fn lemma_render_empty()
    ensures
        spec_render(Seq::<(u64, Seq<char>)>::empty()) == "On call: "@,
{
    let e = Seq::<(u64, Seq<char>)>::empty();
    assert(names_of(e).len() == 0);
    assert(spec_render(e) =~= "On call: "@);
}

/// Membership after an upsert: the upserted user is present, everyone
/// else's presence is unchanged.
pub proof fn lemma_insert_membership(r: Seq<(u64, Seq<char>)>, u: u64, n: Seq<char>, v: u64)
    ensures
        has_user(spec_insert(r, u, n), u),
        v != u ==> has_user(spec_insert(r, u, n), v) == has_user(r, v),
{
    let s = spec_insert(r, u, n);
    if has_user(r, u) {
        let i = user_index(r, u);
        assert(0 <= i < r.len() && r[i].0 == u);
        assert(s[i].0 == u);
        if v != u {
            if has_user(r, v) {
                let j = user_index(r, v);
                assert(0 <= j < r.len() && r[j].0 == v);
                assert(j != i);
                assert(s[j].0 == v);
            }
            if has_user(s, v) {
                let j = user_index(s, v);
                assert(0 <= j < s.len() && s[j].0 == v);
                assert(j != i);
                assert(r[j].0 == v);
            }
        }
    } else {
        let i = r.len() as int;
        assert(s[i].0 == u);
        if v != u {
            if has_user(r, v) {
                let j = user_index(r, v);
                assert(s[j].0 == v);
            }
            if has_user(s, v) {
                let j = user_index(s, v);
                assert(0 <= j < s.len() && s[j].0 == v);
                assert(j != i);
                assert(r[j].0 == v);
            }
        }
    }
}

/// Membership after a removal: the removed user is gone, everyone else's
/// presence is unchanged.
pub proof fn lemma_remove_membership(r: Seq<(u64, Seq<char>)>, u: u64, v: u64)
    requires
        unique_keys(r),
    ensures
        !has_user(spec_remove(r, u), u),
        v != u ==> has_user(spec_remove(r, u), v) == has_user(r, v),
{
    let s = spec_remove(r, u);
    if has_user(r, u) {
        let i = user_index(r, u);
        assert(0 <= i < r.len() && r[i].0 == u);
        assert(!has_user(s, u)) by {
            assert forall|k: int| 0 <= k < s.len() implies s[k].0 != u by {
                let k0: int = if k < i {
                    k
                } else {
                    k + 1
                };
                assert(s[k] == r[k0]);
                if k0 != i {
                    assert(r[k0].0 != r[i].0);
                }
            }
        }
        if v != u {
            if has_user(r, v) {
                let j = user_index(r, v);
                assert(0 <= j < r.len() && r[j].0 == v);
                assert(j != i);
                if j < i {
                    assert(s[j].0 == v);
                } else {
                    assert(s[j - 1] == r[j]);
                }
            }
            if has_user(s, v) {
                let k = user_index(s, v);
                assert(0 <= k < s.len() && s[k].0 == v);
                let k0: int = if k < i {
                    k
                } else {
                    k + 1
                };
                assert(s[k] == r[k0]);
            }
        }
    }
}

} // verus!

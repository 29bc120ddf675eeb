//! Membership snapshot: the core's model of the authoritative state cache.
//!
//! The transport keeps a full-state cache of the server; the reconciler
//! only ever asks it "which channel is user U in?" and "who is on the
//! server, under what display name?". A `MembershipSnapshot` holds exactly
//! those answers as plain values. The caller rebuilds it from the cache
//! whenever the cache changes and hands it to the reconciler read-only.

use vstd::prelude::*;

verus! {

/// Ghost image of one membership record.
pub ghost struct MemberV {
    pub user: u64,
    pub name: Seq<char>,
    pub channel: Option<u64>,
}

/// One membership record: a user, their display name, and the voice
/// channel they are currently in, if any.
pub struct Member {
    pub user: u64,
    pub name: String,
    pub channel: Option<u64>,
}

impl View for Member {
    type V = MemberV;

    open spec fn view(&self) -> MemberV {
        MemberV { user: self.user, name: self.name@, channel: self.channel }
    }
}

/// No user identity occurs twice.
pub open spec fn unique_users(s: Seq<MemberV>) -> bool {
    forall|i: int, j: int| 0 <= i < j < s.len() ==> s[i].user != s[j].user
}

/// Whether some record is for user `u`.
pub open spec fn snap_has_user(s: Seq<MemberV>, u: u64) -> bool {
    exists|i: int| 0 <= i < s.len() && s[i].user == u
}

/// The index of the record for user `u` (meaningful only when
/// `snap_has_user(s, u)` holds).
pub open spec fn snap_user_index(s: Seq<MemberV>, u: u64) -> int {
    choose|i: int| 0 <= i < s.len() && s[i].user == u
}

/// The channel the snapshot reports for user `u`: `None` both when the
/// user is unknown and when the user is in no voice channel.
pub open spec fn snap_channel_of(s: Seq<MemberV>, u: u64) -> Option<u64> {
    if snap_has_user(s, u) {
        s[snap_user_index(s, u)].channel
    } else {
        None
    }
}

/// The display name the snapshot reports for user `u`, if the user is known.
pub open spec fn snap_name_of(s: Seq<MemberV>, u: u64) -> Option<Seq<char>> {
    if snap_has_user(s, u) {
        Some(s[snap_user_index(s, u)].name)
    } else {
        None
    }
}

/// The snapshot after the record for `m.user` is replaced by `m`, or `m`
/// is appended when the user was unknown.
pub open spec fn snap_upsert(s: Seq<MemberV>, m: MemberV) -> Seq<MemberV> {
    if snap_has_user(s, m.user) {
        s.update(snap_user_index(s, m.user), m)
    } else {
        s.push(m)
    }
}

/// The snapshot after user `u` is reported in channel `channel`; unknown
/// users are left out, since a bare voice event carries no display name.
pub open spec fn snap_set_channel(s: Seq<MemberV>, u: u64, channel: Option<u64>) -> Seq<MemberV> {
    if snap_has_user(s, u) {
        let i = snap_user_index(s, u);
        s.update(i, (MemberV { user: s[i].user, name: s[i].name, channel }))
    } else {
        s
    }
}

/// Queryable view of current voice-channel membership, rebuilt by the
/// caller from the transport's state cache and read-only to the
/// reconciler.
pub struct MembershipSnapshot {
    pub members: Vec<Member>,
}

impl View for MembershipSnapshot {
    type V = Seq<MemberV>;

    open spec fn view(&self) -> Seq<MemberV> {
        self.members@.map_values(|m: Member| m@)
    }
}

impl MembershipSnapshot {
    pub open spec fn wf(self) -> bool {
        unique_users(self@)
    }

    pub fn new() -> (s: MembershipSnapshot)
        ensures
            s@ == Seq::<MemberV>::empty(),
            s.wf(),
    {
        let s = MembershipSnapshot { members: Vec::new() };
        proof {
            assert(s@ =~= Seq::<MemberV>::empty());
        }
        s
    }

    /// The index of the record for user `u`, if there is one.
    fn index_of(&self, u: u64) -> (r: Option<usize>)
        ensures
            (match r {
                Some(i) => {
                    &&& i < self@.len()
                    &&& self@[i as int].user == u
                    &&& snap_has_user(self@, u)
                },
                None => !snap_has_user(self@, u),
            }),
    {
        let mut i: usize = 0;
        while i < self.members.len()
            invariant
                i <= self.members@.len(),
                forall|k: int| 0 <= k < i ==> self@[k].user != u,
            decreases self.members@.len() - i,
        {
            if self.members[i].user == u {
                proof {
                    assert(self@[i as int].user == u);
                }
                return Some(i);
            }
            i += 1;
        }
        proof {
            assert(!snap_has_user(self@, u)) by {
                assert(forall|k: int| 0 <= k < self@.len() ==> self@[k].user != u);
            }
        }
        None
    }

    /// Which channel (if any) is user `u` currently in?
    pub fn channel_of(&self, u: u64) -> (r: Option<u64>)
        requires
            self.wf(),
        ensures
            r == snap_channel_of(self@, u),
    {
        match self.index_of(u) {
            Some(i) => {
                proof {
                    lemma_snap_found_index(self@, u, i as int);
                }
                self.members[i].channel
            },
            None => None,
        }
    }

    /// The display name of user `u`, if the snapshot knows the user.
    pub fn name_of(&self, u: u64) -> (r: Option<String>)
        requires
            self.wf(),
        ensures
            (match r {
                Some(n) => snap_name_of(self@, u) == Some(n@),
                None => !snap_has_user(self@, u),
            }),
    {
        match self.index_of(u) {
            Some(i) => {
                proof {
                    lemma_snap_found_index(self@, u, i as int);
                }
                Some(self.members[i].name.clone())
            },
            None => None,
        }
    }

    /// Records (or replaces) the full record of one user.
    pub fn upsert_member(&mut self, user: u64, name: String, channel: Option<u64>)
        requires
            old(self).wf(),
        ensures
            final(self)@ == snap_upsert(old(self)@, (MemberV { user: user, name: name@, channel })),
            final(self).wf(),
    {
        let ghost mv = MemberV { user: user, name: name@, channel };
        match self.index_of(user) {
            Some(i) => {
                proof {
                    lemma_snap_found_index(self@, user, i as int);
                }
                self.members[i] = Member { user, name, channel };
                proof {
                    assert(self@ =~= snap_upsert(old(self)@, mv));
                    assert(unique_users(self@)) by {
                        assert(forall|k: int|
                            0 <= k < self@.len() ==> self@[k].user == old(self)@[k].user);
                    }
                }
            },
            None => {
                self.members.push(Member { user, name, channel });
                proof {
                    assert(self@ =~= snap_upsert(old(self)@, mv));
                    assert(unique_users(self@)) by {
                        assert(forall|k: int| 0 <= k < old(self)@.len() ==> self@[k] == old(self)@[k]);
                    }
                }
            },
        }
    }

    /// Applies one voice-state change to the snapshot: user `u` is now in
    /// `channel`. A user the snapshot does not know is left out.
    pub fn set_channel(&mut self, u: u64, channel: Option<u64>)
        requires
            old(self).wf(),
        ensures
            final(self)@ == snap_set_channel(old(self)@, u, channel),
            final(self).wf(),
    {
        match self.index_of(u) {
            Some(i) => {
                proof {
                    lemma_snap_found_index(self@, u, i as int);
                }
                let user = self.members[i].user;
                let name = self.members[i].name.clone();
                self.members[i] = Member { user, name, channel };
                proof {
                    assert(self@ =~= snap_set_channel(old(self)@, u, channel));
                }
            },
            None => {},
        }
    }
}

/// When users are unique, any index at which user `u` is found is the one
/// the specification's `snap_user_index` speaks of.
pub proof fn lemma_snap_found_index(s: Seq<MemberV>, u: u64, i: int)
    requires
        unique_users(s),
        0 <= i < s.len(),
        s[i].user == u,
    ensures
        snap_has_user(s, u),
        snap_user_index(s, u) == i,
{
    assert(snap_has_user(s, u));
    let j = snap_user_index(s, u);
    assert(0 <= j < s.len() && s[j].user == u);
    if j < i {
        assert(s[j].user != s[i].user);
    } else if i < j {
        assert(s[i].user != s[j].user);
    }
}

/// How the user-level queries on a snapshot relate to those on its prefix
/// without the last record.
pub proof fn lemma_snap_last(snap: Seq<MemberV>, u: u64)
    requires
        unique_users(snap),
        snap.len() > 0,
    ensures
        unique_users(snap.drop_last()),
        snap_has_user(snap, u) <==> snap_has_user(snap.drop_last(), u) || snap.last().user == u,
        snap_has_user(snap.drop_last(), u) ==> snap_channel_of(snap, u) == snap_channel_of(
            snap.drop_last(),
            u,
        ) && snap_name_of(snap, u) == snap_name_of(snap.drop_last(), u),
        snap.last().user == u ==> snap_channel_of(snap, u) == snap.last().channel && snap_name_of(
            snap,
            u,
        ) == Some(snap.last().name) && !snap_has_user(snap.drop_last(), u),
{
    let pre = snap.drop_last();
    let n = snap.len() - 1;
    assert(forall|k: int| 0 <= k < n ==> pre[k] == snap[k]);
    assert(unique_users(pre));
    if snap_has_user(snap, u) {
        let i = snap_user_index(snap, u);
        assert(0 <= i <= n && snap[i].user == u);
        if i < n {
            assert(pre[i].user == u);
            assert(snap_has_user(pre, u));
        }
    }
    if snap_has_user(pre, u) {
        let j = snap_user_index(pre, u);
        assert(0 <= j < n && pre[j].user == u);
        lemma_snap_found_index(pre, u, j);
        assert(snap[j].user == u);
        lemma_snap_found_index(snap, u, j);
    }
    if snap.last().user == u {
        lemma_snap_found_index(snap, u, n);
        if snap_has_user(pre, u) {
            let j = snap_user_index(pre, u);
            assert(0 <= j < n && pre[j].user == u);
            assert(snap[j].user != snap[n].user);
        }
    }
}

} // verus!

//! Roster reconciler: the event-driven state machine.
//!
//! One flag, `needs_rebuild`, decides between two recoveries: while it is
//! set, the next input of any kind forces a full re-derivation of the
//! roster from the membership snapshot (trusting no incremental deltas);
//! while it is clear, voice-state events are applied as targeted patches,
//! except a move of the operator themselves, which re-derives the roster
//! for the new channel. A session fault only sets the flag; the state is
//! left alone until the first input after the reconnect.

use vstd::prelude::*;
use crate::roster::{
    entries_view, has_user, spec_insert, spec_remove, unique_keys, user_index, Entry, Roster,
};
use crate::snapshot::{
    lemma_snap_last, snap_channel_of, snap_has_user, snap_name_of, unique_users, MemberV,
    MembershipSnapshot,
};

verus! {

/// One user's voice-channel membership changing: a join, a move, or
/// (with no destination channel) a leave.
#[derive(Clone, Copy)]
pub struct VoiceStateEvent {
    /// The server scope the change arrived under, if any.
    pub server: Option<u64>,
    /// The user whose membership changed — possibly the operator.
    pub user: u64,
    /// The channel the user is now in; `None` means they left voice.
    pub channel: Option<u64>,
}

/// What the session handed the loop for one turn.
#[derive(Clone, Copy)]
pub enum GatewayInput {
    /// A voice-state change.
    Voice(VoiceStateEvent),
    /// Any other event. It carries nothing the roster reads, but it still
    /// drives a pending rebuild.
    Other,
}

/// What the caller owes after one input is processed.
#[derive(Clone, Copy)]
pub struct Outcome {
    /// The roster changed or was rebuilt: render it and persist the text.
    pub persist: bool,
    /// Ask the transport for a fresh snapshot of this server scope.
    pub resync: Option<u64>,
}

/// Ghost image of the reconciler.
pub ghost struct ReconcilerV {
    pub operator: u64,
    pub operator_channel: Option<u64>,
    pub needs_rebuild: bool,
    pub roster: Seq<(u64, Seq<char>)>,
}

/// Whether a destination channel `evch` lands in the operator's channel
/// `opch`: the operator must be in a channel and the destination must be
/// that channel. A destination of "none" (the user left voice) never does.
pub open spec fn in_operator_channel(evch: Option<u64>, opch: Option<u64>) -> bool {
    opch is Some && evch == opch
}

/// The roster a full rebuild derives: the members whose channel equals
/// `opch`, in snapshot order, under their snapshot names. An operator in
/// no channel (`opch` of `None`) yields an empty roster.
pub open spec fn rebuilt(snap: Seq<MemberV>, opch: Option<u64>) -> Seq<(u64, Seq<char>)>
    decreases snap.len(),
{
    if snap.len() == 0 {
        Seq::empty()
    } else {
        let prefix = rebuilt(snap.drop_last(), opch);
        let m = snap.last();
        if in_operator_channel(m.channel, opch) {
            prefix.push((m.user, m.name))
        } else {
            prefix
        }
    }
}

/// The full rebuild a set `needs_rebuild` forces: the operator's channel
/// re-read from the snapshot, the roster re-derived, the flag cleared.
pub open spec fn spec_rebuild(s: ReconcilerV, snap: Seq<MemberV>) -> ReconcilerV {
    let opch = snap_channel_of(snap, s.operator);
    ReconcilerV { operator_channel: opch, roster: rebuilt(snap, opch), needs_rebuild: false, ..s }
}

/// The transition one gateway input causes: first a pending rebuild, if
/// any; then, for a voice event, the operator-move rebuild, the upsert of
/// a user arriving in the operator's channel, or the removal of one who
/// is elsewhere now. `persist` reports whether anything changed that is
/// owed to disk; `resync` reports the scope whose snapshot the caller
/// must ask the transport to refresh.
pub open spec fn spec_process(s: ReconcilerV, snap: Seq<MemberV>, input: GatewayInput) -> (
    ReconcilerV,
    Outcome,
) {
    let s1 = if s.needs_rebuild {
        spec_rebuild(s, snap)
    } else {
        s
    };
    let rebuilt_now = s.needs_rebuild;
    match input {
        GatewayInput::Other => (s1, Outcome { persist: rebuilt_now, resync: None }),
        GatewayInput::Voice(ev) => {
            if ev.user == s1.operator {
                let s2 = ReconcilerV {
                    operator_channel: ev.channel,
                    roster: rebuilt(snap, ev.channel),
                    ..s1
                };
                (s2, Outcome { persist: true, resync: ev.server })
            } else if in_operator_channel(ev.channel, s1.operator_channel) {
                match snap_name_of(snap, ev.user) {
                    Some(n) => (
                        ReconcilerV { roster: spec_insert(s1.roster, ev.user, n), ..s1 },
                        Outcome { persist: true, resync: None },
                    ),
                    None => (s1, Outcome { persist: rebuilt_now, resync: None }),
                }
            } else {
                if has_user(s1.roster, ev.user) {
                    (
                        ReconcilerV { roster: spec_remove(s1.roster, ev.user), ..s1 },
                        Outcome { persist: true, resync: None },
                    )
                } else {
                    (s1, Outcome { persist: rebuilt_now, resync: None })
                }
            }
        },
    }
}

/// The reconciler: the operator's identity, the operator's currently
/// known channel, the rebuild flag, and the derived roster.
pub struct Reconciler {
    pub operator: u64,
    pub operator_channel: Option<u64>,
    pub needs_rebuild: bool,
    pub roster: Roster,
}

impl View for Reconciler {
    type V = ReconcilerV;

    open spec fn view(&self) -> ReconcilerV {
        ReconcilerV {
            operator: self.operator,
            operator_channel: self.operator_channel,
            needs_rebuild: self.needs_rebuild,
            roster: self.roster@,
        }
    }
}

impl Reconciler {
    pub open spec fn wf(self) -> bool {
        unique_keys(self@.roster)
    }

    /// A fresh session's reconciler: empty roster, no known channel, and
    /// a rebuild owed on the first input.
    pub fn new(operator: u64) -> (r: Reconciler)
        ensures
            r@.operator == operator,
            r@.operator_channel is None,
            r@.needs_rebuild,
            r@.roster == Seq::<(u64, Seq<char>)>::empty(),
            r.wf(),
    {
        Reconciler { operator, operator_channel: None, needs_rebuild: true, roster: Roster::new() }
    }

    /// A session fault was classified: events may have been missed, so
    /// nothing incremental is trusted until the next input forces a
    /// rebuild. The roster and channel are left alone until then.
    pub fn on_session_fault(&mut self)
        requires
            old(self).wf(),
        ensures
            final(self)@ == (ReconcilerV { needs_rebuild: true, ..old(self)@ }),
            final(self).wf(),
    {
        self.needs_rebuild = true;
    }

    /// Derives the roster for channel `opch` from the snapshot.
    fn rebuild_roster(snap: &MembershipSnapshot, opch: Option<u64>) -> (r: Roster)
        requires
            snap.wf(),
        ensures
            r@ == rebuilt(snap@, opch),
            r.wf(),
    {
        let mut entries: Vec<Entry> = Vec::new();
        proof {
            assert(entries_view(entries@) =~= rebuilt(snap@.take(0), opch));
        }
        let mut i: usize = 0;
        while i < snap.members.len()
            invariant
                i <= snap@.len(),
                snap@.len() == snap.members@.len(),
                entries_view(entries@) == rebuilt(snap@.take(i as int), opch),
            decreases snap@.len() - i,
        {
            let m = &snap.members[i];
            let in_ch = match (m.channel, opch) {
                (Some(a), Some(b)) => a == b,
                _ => false,
            };
            proof {
                assert(in_ch == in_operator_channel(snap@[i as int].channel, opch));
            }
            if in_ch {
                entries.push(Entry { user: m.user, name: m.name.clone() });
            }
            proof {
                let pre = snap@.take(i as int);
                let post = snap@.take(i as int + 1);
                assert(post.drop_last() =~= pre);
                assert(post.last() == snap@[i as int]);
                assert(entries_view(entries@) =~= rebuilt(post, opch));
            }
            i += 1;
        }
        proof {
            assert(snap@.take(snap@.len() as int) =~= snap@);
            lemma_rebuild_correct(snap@, opch);
        }
        Roster { entries }
    }

    /// Applies one turn of the loop: the pending rebuild, if any, then
    /// the input itself, exactly as `spec_process` states.
    pub fn process(&mut self, snap: &MembershipSnapshot, input: GatewayInput) -> (out: Outcome)
        requires
            old(self).wf(),
            snap.wf(),
        ensures
            final(self).wf(),
            final(self)@ == spec_process(old(self)@, snap@, input).0,
            out == spec_process(old(self)@, snap@, input).1,
    {
        let mut rebuilt_now = false;
        if self.needs_rebuild {
            self.operator_channel = snap.channel_of(self.operator);
            self.roster = Self::rebuild_roster(snap, self.operator_channel);
            self.needs_rebuild = false;
            rebuilt_now = true;
        }
        let ghost s1 = if old(self)@.needs_rebuild {
            spec_rebuild(old(self)@, snap@)
        } else {
            old(self)@
        };
        proof {
            assert(self@ == s1);
        }
        match input {
            GatewayInput::Other => Outcome { persist: rebuilt_now, resync: None },
            GatewayInput::Voice(ev) => {
                if ev.user == self.operator {
                    self.operator_channel = ev.channel;
                    self.roster = Self::rebuild_roster(snap, ev.channel);
                    Outcome { persist: true, resync: ev.server }
                } else {
                    let in_ch = match (ev.channel, self.operator_channel) {
                        (Some(a), Some(b)) => a == b,
                        _ => false,
                    };
                    proof {
                        assert(in_ch == in_operator_channel(ev.channel, s1.operator_channel));
                    }
                    if in_ch {
                        match snap.name_of(ev.user) {
                            Some(name) => {
                                self.roster.insert(ev.user, name);
                                Outcome { persist: true, resync: None }
                            },
                            None => Outcome { persist: rebuilt_now, resync: None },
                        }
                    } else {
                        match self.roster.remove(ev.user) {
                            Some(_) => Outcome { persist: true, resync: None },
                            None => Outcome { persist: rebuilt_now, resync: None },
                        }
                    }
                }
            },
        }
    }
}

/// Law: a full rebuild derives exactly the users whose snapshot channel
/// equals the operator's channel — no more, no less — each under their
/// snapshot display name, and never lists a user twice.
pub proof fn lemma_rebuild_correct(snap: Seq<MemberV>, opch: Option<u64>)
    requires
        unique_users(snap),
    ensures
        unique_keys(rebuilt(snap, opch)),
        forall|u: u64|
            #[trigger] has_user(rebuilt(snap, opch), u) <==> snap_has_user(snap, u)
                && in_operator_channel(snap_channel_of(snap, u), opch),
        forall|k: int|
            0 <= k < rebuilt(snap, opch).len() ==> snap_name_of(
                snap,
                (#[trigger] rebuilt(snap, opch)[k]).0,
            ) == Some(rebuilt(snap, opch)[k].1),
    decreases snap.len(),
{
    let r = rebuilt(snap, opch);
    if snap.len() == 0 {
        assert(r.len() == 0);
    } else {
        let pre = snap.drop_last();
        let m = snap.last();
        assert(unique_users(pre)) by {
            lemma_snap_last(snap, m.user);
        }
        lemma_rebuild_correct(pre, opch);
        let rp = rebuilt(pre, opch);
        assert(!snap_has_user(pre, m.user)) by {
            lemma_snap_last(snap, m.user);
        }
        assert(!has_user(rp, m.user));
        if in_operator_channel(m.channel, opch) {
            assert(r == rp.push((m.user, m.name)));
            assert(forall|k: int| 0 <= k < rp.len() ==> r[k] == rp[k]);
            assert(r[rp.len() as int] == (m.user, m.name));
            assert(unique_keys(r)) by {
                assert(forall|k: int| 0 <= k < rp.len() ==> r[k].0 != m.user);
            }
            assert forall|u: u64| #[trigger] has_user(r, u) <==> snap_has_user(snap, u)
                && in_operator_channel(snap_channel_of(snap, u), opch) by {
                lemma_snap_last(snap, u);
                if u == m.user {
                    assert(r[rp.len() as int].0 == u);
                    assert(has_user(r, u));
                } else {
                    assert(has_user(r, u) <==> has_user(rp, u)) by {
                        if has_user(rp, u) {
                            let j = user_index(rp, u);
                            assert(r[j].0 == u);
                        }
                        if has_user(r, u) {
                            let j = user_index(r, u);
                            assert(0 <= j < r.len() && r[j].0 == u);
                            assert(j < rp.len());
                            assert(rp[j].0 == u);
                        }
                    }
                }
            }
            assert forall|k: int| 0 <= k < r.len() implies snap_name_of(snap, (#[trigger] r[k]).0)
                == Some(r[k].1) by {
                lemma_snap_last(snap, r[k].0);
                if k < rp.len() {
                    assert(r[k] == rp[k]);
                    assert(snap_has_user(pre, rp[k].0));
                } else {
                    assert(r[k] == (m.user, m.name));
                }
            }
        } else {
            assert(r == rp);
            assert forall|u: u64| #[trigger] has_user(r, u) <==> snap_has_user(snap, u)
                && in_operator_channel(snap_channel_of(snap, u), opch) by {
                lemma_snap_last(snap, u);
                if u == m.user {
                    assert(!has_user(rp, u));
                    assert(snap_channel_of(snap, u) == m.channel);
                }
            }
            assert forall|k: int| 0 <= k < r.len() implies snap_name_of(snap, (#[trigger] r[k]).0)
                == Some(r[k].1) by {
                lemma_snap_last(snap, r[k].0);
                assert(snap_has_user(pre, r[k].0));
            }
        }
    }
}

/// Law: an event that moves the operator themselves leaves the reconciler
/// tracking the event's destination channel, with the roster re-derived
/// from the snapshot for that channel — whatever the roster held before —
/// and asks for a persist, and for a resync of the event's server scope.
pub proof fn lemma_operator_move(s: ReconcilerV, snap: Seq<MemberV>, ev: VoiceStateEvent)
    requires
        ev.user == s.operator,
    ensures
        spec_process(s, snap, GatewayInput::Voice(ev)).0.operator_channel == ev.channel,
        spec_process(s, snap, GatewayInput::Voice(ev)).0.roster == rebuilt(snap, ev.channel),
        spec_process(s, snap, GatewayInput::Voice(ev)).1.persist,
        spec_process(s, snap, GatewayInput::Voice(ev)).1.resync == ev.server,
{
}

/// Law: while a rebuild is pending, the next input of any kind fires it —
/// the flag comes out cleared and the roster is owed to disk — and a
/// non-voice input leaves exactly the rebuilt state.
pub proof fn lemma_pending_rebuild_fires(s: ReconcilerV, snap: Seq<MemberV>, input: GatewayInput)
    requires
        s.needs_rebuild,
    ensures
        !spec_process(s, snap, input).0.needs_rebuild,
        spec_process(s, snap, input).1.persist,
        input is Other ==> spec_process(s, snap, input).0 == spec_rebuild(s, snap),
{
}

/// Law: with tracking up to date, a non-operator event into the
/// operator's channel leaves that user on the roster (when the snapshot
/// knows them, so a name exists to store); an event to any other
/// destination — another channel, or out of voice — takes them off it.
pub proof fn lemma_event_routing(s: ReconcilerV, snap: Seq<MemberV>, ev: VoiceStateEvent)
    requires
        unique_keys(s.roster),
        !s.needs_rebuild,
        ev.user != s.operator,
    ensures
        in_operator_channel(ev.channel, s.operator_channel) && snap_has_user(snap, ev.user)
            ==> has_user(spec_process(s, snap, GatewayInput::Voice(ev)).0.roster, ev.user),
        !in_operator_channel(ev.channel, s.operator_channel) ==> !has_user(
            spec_process(s, snap, GatewayInput::Voice(ev)).0.roster,
            ev.user,
        ),
{
    if in_operator_channel(ev.channel, s.operator_channel) {
        if snap_has_user(snap, ev.user) {
            let n = snap_name_of(snap, ev.user).unwrap();
            crate::roster::lemma_insert_membership(s.roster, ev.user, n, ev.user);
        }
    } else {
        if has_user(s.roster, ev.user) {
            crate::roster::lemma_remove_membership(s.roster, ev.user, ev.user);
        }
    }
}

} // verus!

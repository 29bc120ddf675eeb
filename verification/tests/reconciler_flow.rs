use oncall_roster::reconciler::{GatewayInput, Reconciler, VoiceStateEvent};
use oncall_roster::snapshot::MembershipSnapshot;

const OP: u64 = 1;
const C1: u64 = 10;
const C2: u64 = 20;

/// Operator in C1 beside Bob; Carol is in C2 and Dave out of voice.
fn snapshot_at_c1() -> MembershipSnapshot {
    let mut s = MembershipSnapshot::new();
    s.upsert_member(OP, String::from("Op"), Some(C1));
    s.upsert_member(2, String::from("Bob"), Some(C1));
    s.upsert_member(3, String::from("Carol"), Some(C2));
    s.upsert_member(4, String::from("Dave"), None);
    s
}

fn voice(server: Option<u64>, user: u64, channel: Option<u64>) -> GatewayInput {
    GatewayInput::Voice(VoiceStateEvent { server, user, channel })
}

#[test]
fn snapshot_answers_channel_and_name() {
    let s = snapshot_at_c1();
    assert_eq!(s.channel_of(2), Some(C1));
    assert_eq!(s.channel_of(4), None);
    assert_eq!(s.channel_of(99), None);
    assert_eq!(s.name_of(3), Some(String::from("Carol")));
    assert_eq!(s.name_of(99), None);
}

#[test]
fn first_event_rebuilds_exactly_the_cohabitants() {
    let snap = snapshot_at_c1();
    let mut rec = Reconciler::new(OP);
    assert!(rec.needs_rebuild);
    let out = rec.process(&snap, GatewayInput::Other);
    assert!(out.persist);
    assert_eq!(out.resync, None);
    assert!(!rec.needs_rebuild);
    assert_eq!(rec.operator_channel, Some(C1));
    assert!(rec.roster.contains_user(OP));
    assert!(rec.roster.contains_user(2));
    assert!(!rec.roster.contains_user(3));
    assert!(!rec.roster.contains_user(4));
    assert_eq!(rec.roster.render(), "On call: Op, Bob");
}

#[test]
fn non_voice_event_without_pending_rebuild_is_quiet() {
    let snap = snapshot_at_c1();
    let mut rec = Reconciler::new(OP);
    rec.process(&snap, GatewayInput::Other);
    let out = rec.process(&snap, GatewayInput::Other);
    assert!(!out.persist);
    assert_eq!(out.resync, None);
}

#[test]
fn user_moving_into_operator_channel_is_added_then_removed_when_gone() {
    let mut snap = snapshot_at_c1();
    let mut rec = Reconciler::new(OP);
    rec.process(&snap, GatewayInput::Other);

    snap.set_channel(3, Some(C1));
    let out = rec.process(&snap, voice(None, 3, Some(C1)));
    assert!(out.persist);
    assert!(rec.roster.contains_user(3));
    assert_eq!(rec.roster.render(), "On call: Op, Bob, Carol");

    snap.set_channel(3, Some(C2));
    let out = rec.process(&snap, voice(None, 3, Some(C2)));
    assert!(out.persist);
    assert!(!rec.roster.contains_user(3));
    assert_eq!(rec.roster.render(), "On call: Op, Bob");
}

#[test]
fn user_leaving_voice_entirely_is_removed() {
    let mut snap = snapshot_at_c1();
    let mut rec = Reconciler::new(OP);
    rec.process(&snap, GatewayInput::Other);

    snap.set_channel(2, None);
    let out = rec.process(&snap, voice(None, 2, None));
    assert!(out.persist);
    assert!(!rec.roster.contains_user(2));
    assert_eq!(rec.roster.render(), "On call: Op");
}

#[test]
fn event_for_user_already_elsewhere_changes_nothing() {
    let snap = snapshot_at_c1();
    let mut rec = Reconciler::new(OP);
    rec.process(&snap, GatewayInput::Other);
    let out = rec.process(&snap, voice(None, 3, Some(C2)));
    assert!(!out.persist);
    assert_eq!(rec.roster.render(), "On call: Op, Bob");
}

#[test]
fn unknown_user_arriving_changes_nothing() {
    let snap = snapshot_at_c1();
    let mut rec = Reconciler::new(OP);
    rec.process(&snap, GatewayInput::Other);
    let out = rec.process(&snap, voice(None, 99, Some(C1)));
    assert!(!out.persist);
    assert!(!rec.roster.contains_user(99));
    assert_eq!(rec.roster.render(), "On call: Op, Bob");
}

#[test]
fn operator_move_rebuilds_for_the_new_channel_and_requests_resync() {
    let mut snap = snapshot_at_c1();
    let mut rec = Reconciler::new(OP);
    rec.process(&snap, GatewayInput::Other);
    assert!(rec.roster.contains_user(2));

    snap.set_channel(OP, Some(C2));
    let out = rec.process(&snap, voice(Some(7), OP, Some(C2)));
    assert!(out.persist);
    assert_eq!(out.resync, Some(7));
    assert_eq!(rec.operator_channel, Some(C2));
    assert!(rec.roster.contains_user(OP));
    assert!(rec.roster.contains_user(3));
    assert!(!rec.roster.contains_user(2));
    assert_eq!(rec.roster.render(), "On call: Op, Carol");
}

#[test]
fn operator_leaving_voice_yields_an_empty_roster() {
    let mut snap = snapshot_at_c1();
    let mut rec = Reconciler::new(OP);
    rec.process(&snap, GatewayInput::Other);

    snap.set_channel(OP, None);
    let out = rec.process(&snap, voice(None, OP, None));
    assert!(out.persist);
    assert_eq!(rec.operator_channel, None);
    assert_eq!(rec.roster.len(), 0);
    assert_eq!(rec.roster.render(), "On call: ");
}

#[test]
fn leave_event_while_operator_is_out_of_voice_takes_the_removal_path() {
    let mut snap = snapshot_at_c1();
    snap.set_channel(OP, None);
    let mut rec = Reconciler::new(OP);
    rec.process(&snap, GatewayInput::Other);
    assert_eq!(rec.roster.len(), 0);

    // Both the destination and the operator's channel are "none": the
    // user left voice, so they must not be inserted.
    snap.set_channel(4, None);
    let out = rec.process(&snap, voice(None, 4, None));
    assert!(!out.persist);
    assert!(!rec.roster.contains_user(4));
    assert_eq!(rec.roster.render(), "On call: ");
}

#[test]
fn session_fault_forces_a_full_rebuild_on_the_next_event() {
    let mut snap = snapshot_at_c1();
    let mut rec = Reconciler::new(OP);
    rec.process(&snap, GatewayInput::Other);
    assert!(!rec.needs_rebuild);

    rec.on_session_fault();
    assert!(rec.needs_rebuild);
    assert_eq!(rec.roster.render(), "On call: Op, Bob");

    // While the session was down, Bob left and Carol joined C1.
    snap.set_channel(2, None);
    snap.set_channel(3, Some(C1));
    let out = rec.process(&snap, GatewayInput::Other);
    assert!(out.persist);
    assert!(!rec.needs_rebuild);
    assert_eq!(rec.roster.render(), "On call: Op, Carol");
}

#[test]
fn pending_rebuild_fires_even_on_a_voice_event() {
    let mut snap = snapshot_at_c1();
    let mut rec = Reconciler::new(OP);
    rec.process(&snap, GatewayInput::Other);
    rec.on_session_fault();

    snap.set_channel(3, Some(C1));
    let out = rec.process(&snap, voice(None, 3, Some(C1)));
    assert!(out.persist);
    assert!(!rec.needs_rebuild);
    assert!(rec.roster.contains_user(3));
    assert_eq!(rec.roster.render(), "On call: Op, Bob, Carol");
}

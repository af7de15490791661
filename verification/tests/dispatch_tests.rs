//! The dispatcher's tick: draining, decoding, notifying.

use react_gain::codec::{encode_outbound, OutboundMessage};
use react_gain::dispatch::{tick, DispatcherState, ResizeRequest};
use react_gain::param::{GainParameter, WriteOrigin, MAX_AMP_MICRO};

fn msgs(raw: &[&[u8]]) -> Vec<Vec<u8>> {
    raw.iter().map(|m| m.to_vec()).collect()
}

#[test]
fn init_before_any_resize_reports_the_default_size() {
    let mut d = DispatcherState::new();
    let mut p = GainParameter::new();
    let out = tick(&mut d, &mut p, &msgs(&[b"{\"type\":\"init\"}"]));
    assert_eq!(
        out.outbound,
        vec![OutboundMessage::SetSizeNotice { width: 900, height: 600 }]
    );
    assert_eq!(out.resizes, vec![]);
    assert_eq!(out.discarded, 0);
    assert_eq!(
        encode_outbound(&out.outbound[0]),
        b"{\"type\":\"set_size\",\"width\":900,\"height\":600}".to_vec()
    );
}

#[test]
fn init_after_a_resize_reports_the_last_known_size() {
    let mut d = DispatcherState::new();
    let mut p = GainParameter::new();
    let out = tick(
        &mut d,
        &mut p,
        &msgs(&[
            b"{\"type\":\"set_size\",\"width\":1024,\"height\":768}",
            b"{\"type\":\"init\"}",
        ]),
    );
    assert_eq!(out.resizes, vec![ResizeRequest { width: 1024, height: 768 }]);
    assert_eq!(
        out.outbound,
        vec![OutboundMessage::SetSizeNotice { width: 1024, height: 768 }]
    );
}

#[test]
fn set_gain_writes_and_notifies_once() {
    let mut d = DispatcherState::new();
    let mut p = GainParameter::new();
    let out = tick(&mut d, &mut p, &msgs(&[b"{\"type\":\"set_gain\",\"value\":0.5}"]));
    assert_eq!(p.current_value(), 500_000);
    assert_eq!(
        out.outbound,
        vec![OutboundMessage::ParamChangeNotice { value_micro: 500_000 }]
    );
    assert_eq!(out.discarded, 0);
}

#[test]
fn malformed_payload_changes_nothing() {
    let mut d = DispatcherState::new();
    let mut p = GainParameter::new();
    p.write(400_000, WriteOrigin::Ui);
    assert!(p.consume_if_dirty());
    let before = p.current_value();
    let out = tick(&mut d, &mut p, &msgs(&[b"{\"gibberish\""]));
    assert_eq!(out.outbound, vec![]);
    assert_eq!(out.resizes, vec![]);
    assert_eq!(out.discarded, 1);
    assert_eq!(p.current_value(), before);
    assert_eq!(d, DispatcherState::new());
    // The only effect was the counted discard: the next tick stays silent.
    let quiet = tick(&mut d, &mut p, &msgs(&[]));
    assert_eq!(quiet.outbound, vec![]);
}

#[test]
fn two_gain_writes_in_one_tick_coalesce_to_one_notice() {
    let mut d = DispatcherState::new();
    let mut p = GainParameter::new();
    let out = tick(
        &mut d,
        &mut p,
        &msgs(&[
            b"{\"type\":\"set_gain\",\"value\":0.3}",
            b"{\"type\":\"set_gain\",\"value\":0.7}",
        ]),
    );
    assert_eq!(
        out.outbound,
        vec![OutboundMessage::ParamChangeNotice { value_micro: 700_000 }]
    );
}

#[test]
fn out_of_range_gain_from_the_wire_is_clamped() {
    let mut d = DispatcherState::new();
    let mut p = GainParameter::new();
    let out = tick(&mut d, &mut p, &msgs(&[b"{\"type\":\"set_gain\",\"value\":10.0}"]));
    assert_eq!(p.current_value(), MAX_AMP_MICRO);
    assert_eq!(
        out.outbound,
        vec![OutboundMessage::ParamChangeNotice { value_micro: MAX_AMP_MICRO }]
    );
}

#[test]
fn change_while_the_ui_was_closed_is_reported_on_reopen() {
    let mut p = GainParameter::new();
    // Host automation writes while no dispatcher exists.
    p.write(250_000, WriteOrigin::HostAutomation);
    // The UI reopens: a fresh dispatcher, the same parameter and flag.
    let mut d = DispatcherState::new();
    let out = tick(&mut d, &mut p, &msgs(&[]));
    assert_eq!(
        out.outbound,
        vec![OutboundMessage::ParamChangeNotice { value_micro: 250_000 }]
    );
    // Consumed exactly once.
    let quiet = tick(&mut d, &mut p, &msgs(&[]));
    assert_eq!(quiet.outbound, vec![]);
}

#[test]
fn good_and_bad_payloads_mix() {
    let mut d = DispatcherState::new();
    let mut p = GainParameter::new();
    let out = tick(
        &mut d,
        &mut p,
        &msgs(&[
            b"nonsense",
            b"{\"type\":\"set_size\",\"width\":10,\"height\":20}",
            b"{\"type\":\"unknown\"}",
            b"{\"type\":\"init\"}",
        ]),
    );
    assert_eq!(out.discarded, 2);
    assert_eq!(out.resizes, vec![ResizeRequest { width: 10, height: 20 }]);
    assert_eq!(
        out.outbound,
        vec![OutboundMessage::SetSizeNotice { width: 10, height: 20 }]
    );
}

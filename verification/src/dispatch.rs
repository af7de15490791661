//! The UI-side action dispatcher.
//!
//! Once per host UI tick the embedding drains its inbound queue and hands
//! the pending payloads to `tick`. Each payload is decoded against the
//! action schema: malformed ones are counted and discarded with no other
//! effect; `init` is answered with the last known viewport size (900 by
//! 600 before any resize); `set_size` records the viewport and forwards a
//! resize request; `set_gain` writes the gain through a bracketed
//! transaction. After draining, the change flag is polled once, and if any
//! write had signalled it, exactly one change notice carrying the freshly
//! read committed value is emitted.

use vstd::prelude::*;
use crate::codec::decode_action;
use crate::codec::spec_decode;
use crate::codec::OutboundMessage;
use crate::codec::UIAction;
use crate::param::GainParameter;
use crate::param::GainTransaction;

verus! {

/// Default viewport width before any resize.
pub const DEFAULT_WIDTH: u32 = 900;

/// Default viewport height before any resize.
pub const DEFAULT_HEIGHT: u32 = 600;

/// The dispatcher's own state: the last viewport size the UI asked for.
#[derive(Clone, Copy, Debug, PartialEq, Eq, Structural)]
pub struct DispatcherState {
    pub width: u32,
    pub height: u32,
}

impl DispatcherState {
    /// A fresh dispatcher: the default viewport.
    pub fn new() -> (r: DispatcherState)
        ensures
            r.width == DEFAULT_WIDTH,
            r.height == DEFAULT_HEIGHT,
    {
        DispatcherState { width: DEFAULT_WIDTH, height: DEFAULT_HEIGHT }
    }
}

/// A resize request forwarded to the windowing collaborator, taken as
/// given, without validation.
#[derive(Clone, Copy, Debug, PartialEq, Eq, Structural)]
pub struct ResizeRequest {
    pub width: u32,
    pub height: u32,
}

/// Everything one tick hands back to the embedding.
#[derive(Clone, Debug, PartialEq, Eq)]
pub struct TickOutput {
    /// Notices to put on the wire, in order.
    pub outbound: Vec<OutboundMessage>,
    /// Resize requests for the windowing collaborator, in order.
    pub resizes: Vec<ResizeRequest>,
    /// How many inbound payloads were malformed, logged and dropped.
    pub discarded: usize,
}

/// The model of what a tick does: the states afterwards and the collected
/// effects.
pub struct TickModel {
    pub disp: DispatcherState,
    pub param: GainParameter,
    pub outbound: Seq<OutboundMessage>,
    pub resizes: Seq<ResizeRequest>,
    pub discarded: nat,
}

/// The views of a batch of inbound payloads.
pub open spec fn views_of(msgs: Seq<Vec<u8>>) -> Seq<Seq<u8>> {
    msgs.map_values(|v: Vec<u8>| v@)
}

/// The effect of one inbound payload. A payload that fails to decode
/// changes nothing and is counted; a decoded action has exactly its own
/// effect and no other.
pub open spec fn spec_apply(d: DispatcherState, p: GainParameter, m: Seq<u8>) -> TickModel {
    match spec_decode(m) {
        Err(_) => TickModel {
            disp: d,
            param: p,
            outbound: Seq::empty(),
            resizes: Seq::empty(),
            discarded: 1,
        },
        Ok(UIAction::Init) => TickModel {
            disp: d,
            param: p,
            outbound: seq![
                OutboundMessage::SetSizeNotice { width: d.width, height: d.height },
            ],
            resizes: Seq::empty(),
            discarded: 0,
        },
        Ok(UIAction::SetSize { width, height }) => TickModel {
            disp: DispatcherState { width, height },
            param: p,
            outbound: Seq::empty(),
            resizes: seq![ResizeRequest { width, height }],
            discarded: 0,
        },
        Ok(UIAction::SetGain { value_micro }) => TickModel {
            disp: d,
            param: p.spec_write(value_micro),
            outbound: Seq::empty(),
            resizes: Seq::empty(),
            discarded: 0,
        },
    }
}

/// Draining a batch: each payload's effect, in order, from the state the
/// previous payloads left behind.
pub open spec fn spec_drain(d: DispatcherState, p: GainParameter, msgs: Seq<Seq<u8>>) -> TickModel
    decreases msgs.len(),
{
    if msgs.len() == 0 {
        TickModel { disp: d, param: p, outbound: Seq::empty(), resizes: Seq::empty(), discarded: 0 }
    } else {
        let head = spec_apply(d, p, msgs[0]);
        let rest = spec_drain(head.disp, head.param, msgs.skip(1));
        TickModel {
            disp: rest.disp,
            param: rest.param,
            outbound: head.outbound + rest.outbound,
            resizes: head.resizes + rest.resizes,
            discarded: head.discarded + rest.discarded,
        }
    }
}

/// A whole tick: drain the batch, then poll the flag once; if any write
/// had signalled it, append exactly one change notice carrying the
/// committed value read back fresh from the parameter.
pub open spec fn spec_tick(d: DispatcherState, p: GainParameter, msgs: Seq<Seq<u8>>) -> TickModel {
    let dr = spec_drain(d, p, msgs);
    TickModel {
        disp: dr.disp,
        param: dr.param.spec_consumed(),
        outbound: if dr.param.flag_state().is_dirty() {
            dr.outbound + seq![
                OutboundMessage::ParamChangeNotice { value_micro: dr.param.target_micro() },
            ]
        } else {
            dr.outbound
        },
        resizes: dr.resizes,
        discarded: dr.discarded,
    }
}

proof fn lemma_drain_snoc(d: DispatcherState, p: GainParameter, msgs: Seq<Seq<u8>>, m: Seq<u8>)
    ensures
        ({
            let dr = spec_drain(d, p, msgs);
            let one = spec_apply(dr.disp, dr.param, m);
            let all = spec_drain(d, p, msgs.push(m));
            all.disp == one.disp && all.param == one.param && all.outbound == dr.outbound
                + one.outbound && all.resizes == dr.resizes + one.resizes && all.discarded
                == dr.discarded + one.discarded
        }),
    decreases msgs.len(),
{
    reveal_with_fuel(spec_drain, 3);
    if msgs.len() == 0 {
        assert(msgs.push(m)[0] == m);
        assert(msgs.push(m).skip(1) =~= Seq::<Seq<u8>>::empty());
        let one = spec_apply(d, p, m);
        assert(one.outbound + Seq::<OutboundMessage>::empty() =~= one.outbound);
        assert(one.resizes + Seq::<ResizeRequest>::empty() =~= one.resizes);
        assert(Seq::<OutboundMessage>::empty() + one.outbound =~= one.outbound);
        assert(Seq::<ResizeRequest>::empty() + one.resizes =~= one.resizes);
    } else {
        assert(msgs.push(m)[0] == msgs[0]);
        assert(msgs.push(m).skip(1) =~= msgs.skip(1).push(m));
        let head = spec_apply(d, p, msgs[0]);
        lemma_drain_snoc(head.disp, head.param, msgs.skip(1), m);
        let dr_rest = spec_drain(head.disp, head.param, msgs.skip(1));
        let one = spec_apply(dr_rest.disp, dr_rest.param, m);
        assert(head.outbound + (dr_rest.outbound + one.outbound) =~= (head.outbound
            + dr_rest.outbound) + one.outbound);
        assert(head.resizes + (dr_rest.resizes + one.resizes) =~= (head.resizes
            + dr_rest.resizes) + one.resizes);
    }
}

/// A malformed payload is inert: it leaves the dispatcher and the
/// parameter untouched, emits nothing, asks for nothing, and is merely
/// counted as discarded.
pub proof fn lemma_malformed_is_inert(d: DispatcherState, p: GainParameter, m: Seq<u8>)
    requires
        spec_decode(m) is Err,
    ensures
        spec_apply(d, p, m).disp == d,
        spec_apply(d, p, m).param == p,
        spec_apply(d, p, m).outbound == Seq::<OutboundMessage>::empty(),
        spec_apply(d, p, m).resizes == Seq::<ResizeRequest>::empty(),
        spec_apply(d, p, m).discarded == 1,
{
}

/// An `init` payload is answered with the dispatcher's last known viewport
/// size, and with the defaults of 900 by 600 when nothing ever resized it;
/// it changes no state.
pub proof fn lemma_init_reports_viewport(d: DispatcherState, p: GainParameter, m: Seq<u8>)
    requires
        spec_decode(m) == Ok::<_, crate::codec::DecodeError>(UIAction::Init),
    ensures
        (spec_apply(d, p, m).outbound == seq![
            (OutboundMessage::SetSizeNotice { width: d.width, height: d.height }),
        ]),
        spec_apply(d, p, m).disp == d,
        spec_apply(d, p, m).param == p,
        (d == (DispatcherState { width: DEFAULT_WIDTH, height: DEFAULT_HEIGHT })
            ==> spec_apply(d, p, m).outbound == seq![
            (OutboundMessage::SetSizeNotice { width: 900u32, height: 600u32 }),
        ]),
{
}

/// One tick of the dispatcher's event loop: drain the given batch of
/// inbound payloads, then poll the change flag once.
pub fn tick(d: &mut DispatcherState, p: &mut GainParameter, inbound: &Vec<Vec<u8>>) -> (out: TickOutput)
    requires
        old(p).wf(),
    ensures
        final(p).wf(),
        ({
            let model = spec_tick(*old(d), *old(p), views_of(inbound@));
            *final(d) == model.disp && *final(p) == model.param && out.outbound@ == model.outbound
                && out.resizes@ == model.resizes && out.discarded == model.discarded
        }),
{
    let ghost msgs = views_of(inbound@);
    let mut outbound: Vec<OutboundMessage> = Vec::new();
    let mut resizes: Vec<ResizeRequest> = Vec::new();
    let mut discarded: usize = 0;
    let mut i: usize = 0;
    while i < inbound.len()
        invariant
            i <= inbound@.len(),
            msgs == views_of(inbound@),
            msgs.len() == inbound@.len(),
            discarded <= i,
            p.wf(),
            ({
                let dr = spec_drain(*old(d), *old(p), msgs.take(i as int));
                *d == dr.disp && *p == dr.param && outbound@ == dr.outbound && resizes@
                    == dr.resizes && discarded == dr.discarded
            }),
        decreases inbound@.len() - i,
    {
        proof {
            lemma_drain_snoc(*old(d), *old(p), msgs.take(i as int), msgs[i as int]);
            assert(msgs.take(i as int).push(msgs[i as int]) =~= msgs.take(i + 1 as int));
            assert(msgs[i as int] == inbound@[i as int]@);
        }
        match decode_action(&inbound[i]) {
            Err(_) => {
                discarded = discarded + 1;
            },
            Ok(UIAction::Init) => {
                outbound.push(
                    OutboundMessage::SetSizeNotice { width: d.width, height: d.height },
                );
            },
            Ok(UIAction::SetSize { width, height }) => {
                d.width = width;
                d.height = height;
                resizes.push(ResizeRequest { width, height });
            },
            Ok(UIAction::SetGain { value_micro }) => {
                let mut tx = GainTransaction::begin();
                tx.set_value(value_micro);
                tx.end(p);
            },
        }
        i = i + 1;
    }
    proof {
        assert(msgs.take(i as int) =~= msgs);
    }
    let changed = p.consume_if_dirty();
    if changed {
        let ghost before = outbound@;
        outbound.push(OutboundMessage::ParamChangeNotice { value_micro: p.current_value() });
        proof {
            assert(outbound@ =~= before + seq![
                OutboundMessage::ParamChangeNotice {
                    value_micro: spec_drain(*old(d), *old(p), msgs).param.target_micro(),
                },
            ]);
        }
    }
    TickOutput { outbound, resizes, discarded }
}

} // verus!

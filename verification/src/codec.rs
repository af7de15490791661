//! The action protocol: decoding inbound payloads against the UI action
//! schema, and encoding outbound notices.
//!
//! Inbound payloads are JSON objects keyed on a `type` discriminator:
//! `{"type":"init"}`, `{"type":"set_size","width":W,"height":H}` and
//! `{"type":"set_gain","value":V}`, with the fields in any order. A payload
//! of any other shape decodes to an explicit error, never to a default
//! action. Widths and heights must be unsigned integers; gain values are
//! read into millionths of unity amplitude.

use vstd::prelude::*;
use crate::json::lemma_parse_number_advances;
use crate::json::lemma_parse_string_advances;
use crate::json::lemma_skip_ws_bounds;
use crate::json::parse_number;
use crate::json::parse_string;
use crate::json::skip_ws;
use crate::json::spec_parse_number;
use crate::json::spec_parse_string;
use crate::json::spec_skip_ws;

verus! {

/// A validated inbound action.
#[derive(Clone, Copy, Debug, PartialEq, Eq, Structural)]
pub enum UIAction {
    /// The UI has come up and asks for the current viewport size.
    Init,
    /// The UI asks for a new viewport size, taken as given.
    SetSize { width: u32, height: u32 },
    /// The UI asks for a new gain target, in millionths of unity amplitude.
    SetGain { value_micro: i64 },
}

/// Why an inbound payload was rejected. Either way the payload is logged
/// and discarded; nothing else happens.
#[derive(Clone, Copy, Debug, PartialEq, Eq, Structural)]
pub enum DecodeError {
    /// The bytes are not in the accepted JSON subset.
    Syntax,
    /// Well-formed JSON, but not a known action shape.
    Schema,
}

/// The `type` discriminator values.
#[derive(Clone, Copy, Debug, PartialEq, Eq, Structural)]
pub enum ActionTag {
    Init,
    SetSize,
    SetGain,
}

/// The fields collected while walking an object's pairs; each may be seen
/// at most once.
#[derive(Clone, Copy, Debug, PartialEq, Eq)]
pub struct FieldSlots {
    pub tag: Option<ActionTag>,
    pub width: Option<u32>,
    pub height: Option<u32>,
    pub value: Option<i64>,
}

/// No fields seen yet.
pub open spec fn empty_slots() -> FieldSlots {
    FieldSlots { tag: None, width: None, height: None, value: None }
}

/// The bytes of the key `"type"`.
pub open spec fn key_type() -> Seq<u8> {
    seq![116u8, 121u8, 112u8, 101u8]
}

/// The bytes of the key `"width"`.
pub open spec fn key_width() -> Seq<u8> {
    seq![119u8, 105u8, 100u8, 116u8, 104u8]
}

/// The bytes of the key `"height"`.
pub open spec fn key_height() -> Seq<u8> {
    seq![104u8, 101u8, 105u8, 103u8, 104u8, 116u8]
}

/// The bytes of the key `"value"`.
pub open spec fn key_value() -> Seq<u8> {
    seq![118u8, 97u8, 108u8, 117u8, 101u8]
}

/// The bytes of the tag value `"init"`.
pub open spec fn tag_init() -> Seq<u8> {
    seq![105u8, 110u8, 105u8, 116u8]
}

/// The bytes of the tag value `"set_size"`.
pub open spec fn tag_set_size() -> Seq<u8> {
    seq![115u8, 101u8, 116u8, 95u8, 115u8, 105u8, 122u8, 101u8]
}

/// The bytes of the tag value `"set_gain"`.
pub open spec fn tag_set_gain() -> Seq<u8> {
    seq![115u8, 101u8, 116u8, 95u8, 103u8, 97u8, 105u8, 110u8]
}

/// Record a string-valued pair. Only `type` takes a string, only once, and
/// only one of the three known tags.
pub open spec fn spec_assign_str(sl: FieldSlots, key: Seq<u8>, v: Seq<u8>) -> Result<
    FieldSlots,
    DecodeError,
> {
    if key == key_type() {
        if sl.tag is Some {
            Err(DecodeError::Schema)
        } else if v == tag_init() {
            Ok(FieldSlots { tag: Some(ActionTag::Init), ..sl })
        } else if v == tag_set_size() {
            Ok(FieldSlots { tag: Some(ActionTag::SetSize), ..sl })
        } else if v == tag_set_gain() {
            Ok(FieldSlots { tag: Some(ActionTag::SetGain), ..sl })
        } else {
            Err(DecodeError::Schema)
        }
    } else {
        Err(DecodeError::Schema)
    }
}

/// Record a number-valued pair. `width` and `height` must be whole,
/// non-negative and fit a 32-bit word; `value` takes any parsed amount,
/// in millionths. Each only once.
pub open spec fn spec_assign_num(sl: FieldSlots, key: Seq<u8>, n: int) -> Result<
    FieldSlots,
    DecodeError,
> {
    if key == key_width() {
        if sl.width is Some || !(0 <= n && n % 1_000_000 == 0 && n / 1_000_000 <= 0xffff_ffff) {
            Err(DecodeError::Schema)
        } else {
            Ok(FieldSlots { width: Some((n / 1_000_000) as u32), ..sl })
        }
    } else if key == key_height() {
        if sl.height is Some || !(0 <= n && n % 1_000_000 == 0 && n / 1_000_000 <= 0xffff_ffff) {
            Err(DecodeError::Schema)
        } else {
            Ok(FieldSlots { height: Some((n / 1_000_000) as u32), ..sl })
        }
    } else if key == key_value() {
        if sl.value is Some {
            Err(DecodeError::Schema)
        } else {
            Ok(FieldSlots { value: Some(n as i64), ..sl })
        }
    } else {
        Err(DecodeError::Schema)
    }
}

/// Walk the object's pairs from position `i` (the start of a key string,
/// whitespace already skipped), collecting fields, up to and including the
/// closing brace. Yields the collected fields and the position just past
/// the brace.
pub open spec fn spec_parse_pairs(s: Seq<u8>, i: int, sl: FieldSlots) -> Result<
    (FieldSlots, int),
    DecodeError,
>
    decreases s.len() - i,
    when 0 <= i <= s.len()
    via spec_parse_pairs_decreases
{
    match spec_parse_string(s, i) {
        None => Err(DecodeError::Syntax),
        Some(kp) => {
            let i3 = spec_skip_ws(s, kp.1);
            if !(i3 < s.len() && s[i3] == 58) {
                Err(DecodeError::Syntax)
            } else {
                let i4 = spec_skip_ws(s, i3 + 1);
                let assigned = if i4 < s.len() && s[i4] == 34 {
                    match spec_parse_string(s, i4) {
                        None => Err(DecodeError::Syntax),
                        Some(vp) => match spec_assign_str(sl, kp.0, vp.0) {
                            Err(e) => Err(e),
                            Ok(sl2) => Ok((sl2, vp.1)),
                        },
                    }
                } else {
                    match spec_parse_number(s, i4) {
                        None => Err(DecodeError::Syntax),
                        Some(np) => match spec_assign_num(sl, kp.0, np.0) {
                            Err(e) => Err(e),
                            Ok(sl2) => Ok((sl2, np.1)),
                        },
                    }
                };
                match assigned {
                    Err(e) => Err(e),
                    Ok(p) => {
                        let i6 = spec_skip_ws(s, p.1);
                        if i6 < s.len() && s[i6] == 44 {
                            spec_parse_pairs(s, spec_skip_ws(s, i6 + 1), p.0)
                        } else if i6 < s.len() && s[i6] == 125 {
                            Ok((p.0, i6 + 1))
                        } else {
                            Err(DecodeError::Syntax)
                        }
                    },
                }
            }
        },
    }
}

#[via_fn]
proof fn spec_parse_pairs_decreases(s: Seq<u8>, i: int, sl: FieldSlots) {
    lemma_parse_string_advances(s, i);
    match spec_parse_string(s, i) {
        None => (),
        Some(kp) => {
            lemma_skip_ws_bounds(s, kp.1);
            let i3 = spec_skip_ws(s, kp.1);
            if i3 < s.len() && s[i3] == 58 {
                lemma_skip_ws_bounds(s, i3 + 1);
                let i4 = spec_skip_ws(s, i3 + 1);
                lemma_parse_string_advances(s, i4);
                lemma_parse_number_advances(s, i4);
                match spec_parse_string(s, i4) {
                    None => (),
                    Some(vp) => {
                        lemma_skip_ws_bounds(s, vp.1);
                        let i6 = spec_skip_ws(s, vp.1);
                        if i6 < s.len() {
                            lemma_skip_ws_bounds(s, i6 + 1);
                        }
                    },
                }
                match spec_parse_number(s, i4) {
                    None => (),
                    Some(np) => {
                        lemma_skip_ws_bounds(s, np.1);
                        let i6 = spec_skip_ws(s, np.1);
                        if i6 < s.len() {
                            lemma_skip_ws_bounds(s, i6 + 1);
                        }
                    },
                }
            }
        },
    }
}

/// Turn the collected fields into an action: the tag decides the variant,
/// and exactly the variant's fields must have been seen.
pub open spec fn spec_finish(sl: FieldSlots) -> Result<UIAction, DecodeError> {
    match sl.tag {
        None => Err(DecodeError::Schema),
        Some(ActionTag::Init) => {
            if sl.width is None && sl.height is None && sl.value is None {
                Ok(UIAction::Init)
            } else {
                Err(DecodeError::Schema)
            }
        },
        Some(ActionTag::SetSize) => {
            match sl.width {
                Some(w) => match sl.height {
                    Some(h) => {
                        if sl.value is None {
                            Ok(UIAction::SetSize { width: w, height: h })
                        } else {
                            Err(DecodeError::Schema)
                        }
                    },
                    None => Err(DecodeError::Schema),
                },
                None => Err(DecodeError::Schema),
            }
        },
        Some(ActionTag::SetGain) => {
            match sl.value {
                Some(v) => {
                    if sl.width is None && sl.height is None {
                        Ok(UIAction::SetGain { value_micro: v })
                    } else {
                        Err(DecodeError::Schema)
                    }
                },
                None => Err(DecodeError::Schema),
            }
        },
    }
}

/// What a whole inbound payload decodes to: one object, nothing but
/// whitespace around it, its fields matching one action shape exactly.
pub open spec fn spec_decode(s: Seq<u8>) -> Result<UIAction, DecodeError> {
    let i = spec_skip_ws(s, 0);
    if !(i < s.len() && s[i] == 123) {
        Err(DecodeError::Syntax)
    } else {
        let j = spec_skip_ws(s, i + 1);
        if j < s.len() && s[j] == 125 {
            if spec_skip_ws(s, j + 1) == s.len() {
                spec_finish(empty_slots())
            } else {
                Err(DecodeError::Syntax)
            }
        } else {
            match spec_parse_pairs(s, j, empty_slots()) {
                Err(e) => Err(e),
                Ok(p) => {
                    if spec_skip_ws(s, p.1) == s.len() {
                        spec_finish(p.0)
                    } else {
                        Err(DecodeError::Syntax)
                    }
                },
            }
        }
    }
}

fn is_key_type(k: &Vec<u8>) -> (r: bool)
    ensures
        r == (k@ == key_type()),
{
    let r = k.len() == 4 && k[0] == 116 && k[1] == 121 && k[2] == 112 && k[3] == 101;
    proof {
        if r {
            assert(k@ =~= key_type());
        }
    }
    r
}

fn is_key_width(k: &Vec<u8>) -> (r: bool)
    ensures
        r == (k@ == key_width()),
{
    let r = k.len() == 5 && k[0] == 119 && k[1] == 105 && k[2] == 100 && k[3] == 116 && k[4]
        == 104;
    proof {
        if r {
            assert(k@ =~= key_width());
        }
    }
    r
}

fn is_key_height(k: &Vec<u8>) -> (r: bool)
    ensures
        r == (k@ == key_height()),
{
    let r = k.len() == 6 && k[0] == 104 && k[1] == 101 && k[2] == 105 && k[3] == 103 && k[4]
        == 104 && k[5] == 116;
    proof {
        if r {
            assert(k@ =~= key_height());
        }
    }
    r
}

fn is_key_value(k: &Vec<u8>) -> (r: bool)
    ensures
        r == (k@ == key_value()),
{
    let r = k.len() == 5 && k[0] == 118 && k[1] == 97 && k[2] == 108 && k[3] == 117 && k[4]
        == 101;
    proof {
        if r {
            assert(k@ =~= key_value());
        }
    }
    r
}

fn is_tag_init(v: &Vec<u8>) -> (r: bool)
    ensures
        r == (v@ == tag_init()),
{
    let r = v.len() == 4 && v[0] == 105 && v[1] == 110 && v[2] == 105 && v[3] == 116;
    proof {
        if r {
            assert(v@ =~= tag_init());
        }
    }
    r
}

fn is_tag_set_size(v: &Vec<u8>) -> (r: bool)
    ensures
        r == (v@ == tag_set_size()),
{
    let r = v.len() == 8 && v[0] == 115 && v[1] == 101 && v[2] == 116 && v[3] == 95 && v[4]
        == 115 && v[5] == 105 && v[6] == 122 && v[7] == 101;
    proof {
        if r {
            assert(v@ =~= tag_set_size());
        }
    }
    r
}

fn is_tag_set_gain(v: &Vec<u8>) -> (r: bool)
    ensures
        r == (v@ == tag_set_gain()),
{
    let r = v.len() == 8 && v[0] == 115 && v[1] == 101 && v[2] == 116 && v[3] == 95 && v[4]
        == 103 && v[5] == 97 && v[6] == 105 && v[7] == 110;
    proof {
        if r {
            assert(v@ =~= tag_set_gain());
        }
    }
    r
}

fn assign_str(sl: FieldSlots, key: &Vec<u8>, v: &Vec<u8>) -> (r: Result<FieldSlots, DecodeError>)
    ensures
        r == spec_assign_str(sl, key@, v@),
{
    if is_key_type(key) {
        if sl.tag.is_some() {
            Err(DecodeError::Schema)
        } else if is_tag_init(v) {
            Ok(FieldSlots { tag: Some(ActionTag::Init), ..sl })
        } else if is_tag_set_size(v) {
            Ok(FieldSlots { tag: Some(ActionTag::SetSize), ..sl })
        } else if is_tag_set_gain(v) {
            Ok(FieldSlots { tag: Some(ActionTag::SetGain), ..sl })
        } else {
            Err(DecodeError::Schema)
        }
    } else {
        Err(DecodeError::Schema)
    }
}

fn assign_num(sl: FieldSlots, key: &Vec<u8>, n: i64) -> (r: Result<FieldSlots, DecodeError>)
    ensures
        r == spec_assign_num(sl, key@, n as int),
{
    if is_key_width(key) {
        if sl.width.is_some() || !(0 <= n && n % 1_000_000 == 0 && n / 1_000_000 <= 0xffff_ffff) {
            Err(DecodeError::Schema)
        } else {
            Ok(FieldSlots { width: Some((n / 1_000_000) as u32), ..sl })
        }
    } else if is_key_height(key) {
        if sl.height.is_some() || !(0 <= n && n % 1_000_000 == 0 && n / 1_000_000 <= 0xffff_ffff) {
            Err(DecodeError::Schema)
        } else {
            Ok(FieldSlots { height: Some((n / 1_000_000) as u32), ..sl })
        }
    } else if is_key_value(key) {
        if sl.value.is_some() {
            Err(DecodeError::Schema)
        } else {
            Ok(FieldSlots { value: Some(n), ..sl })
        }
    } else {
        Err(DecodeError::Schema)
    }
}

fn parse_pairs(s: &Vec<u8>, i: usize, sl: FieldSlots) -> (r: Result<(FieldSlots, usize), DecodeError>)
    requires
        i <= s@.len(),
    ensures
        match r {
            Ok(p) => spec_parse_pairs(s@, i as int, sl) == Ok::<_, DecodeError>((p.0, p.1 as int))
                && p.1 <= s@.len(),
            Err(e) => spec_parse_pairs(s@, i as int, sl) == Err::<(FieldSlots, int), _>(e),
        },
    decreases s@.len() - i,
{
    proof {
        lemma_parse_string_advances(s@, i as int);
    }
    match parse_string(s, i) {
        None => Err(DecodeError::Syntax),
        Some((key, i2)) => {
            let i3 = skip_ws(s, i2);
            if !(i3 < s.len() && s[i3] == 58) {
                return Err(DecodeError::Syntax);
            }
            let i4 = skip_ws(s, i3 + 1);
            proof {
                lemma_parse_string_advances(s@, i4 as int);
                lemma_parse_number_advances(s@, i4 as int);
            }
            let assigned: Result<(FieldSlots, usize), DecodeError> = if i4 < s.len() && s[i4]
                == 34 {
                match parse_string(s, i4) {
                    None => Err(DecodeError::Syntax),
                    Some((v, i5)) => match assign_str(sl, &key, &v) {
                        Err(e) => Err(e),
                        Ok(sl2) => Ok((sl2, i5)),
                    },
                }
            } else {
                match parse_number(s, i4) {
                    None => Err(DecodeError::Syntax),
                    Some((n, i5)) => match assign_num(sl, &key, n) {
                        Err(e) => Err(e),
                        Ok(sl2) => Ok((sl2, i5)),
                    },
                }
            };
            match assigned {
                Err(e) => Err(e),
                Ok((sl2, i5)) => {
                    let i6 = skip_ws(s, i5);
                    if i6 < s.len() && s[i6] == 44 {
                        let i7 = skip_ws(s, i6 + 1);
                        parse_pairs(s, i7, sl2)
                    } else if i6 < s.len() && s[i6] == 125 {
                        Ok((sl2, i6 + 1))
                    } else {
                        Err(DecodeError::Syntax)
                    }
                },
            }
        },
    }
}

/// Decode one inbound payload against the action schema. The result is
/// exactly what the schema gives: `Ok` for the three action shapes, the
/// explicit error otherwise, and nothing else happens on either path.
pub fn decode_action(msg: &Vec<u8>) -> (r: Result<UIAction, DecodeError>)
    ensures
        r == spec_decode(msg@),
{
    let i = skip_ws(msg, 0);
    if !(i < msg.len() && msg[i] == 123) {
        return Err(DecodeError::Syntax);
    }
    let j = skip_ws(msg, i + 1);
    if j < msg.len() && msg[j] == 125 {
        if skip_ws(msg, j + 1) == msg.len() {
            finish_slots(FieldSlots { tag: None, width: None, height: None, value: None })
        } else {
            Err(DecodeError::Syntax)
        }
    } else {
        match parse_pairs(msg, j, FieldSlots { tag: None, width: None, height: None, value: None }) {
            Err(e) => Err(e),
            Ok((sl, k)) => {
                if skip_ws(msg, k) == msg.len() {
                    finish_slots(sl)
                } else {
                    Err(DecodeError::Syntax)
                }
            },
        }
    }
}

fn finish_slots(sl: FieldSlots) -> (r: Result<UIAction, DecodeError>)
    ensures
        r == spec_finish(sl),
{
    match sl.tag {
        None => Err(DecodeError::Schema),
        Some(ActionTag::Init) => {
            if sl.width.is_none() && sl.height.is_none() && sl.value.is_none() {
                Ok(UIAction::Init)
            } else {
                Err(DecodeError::Schema)
            }
        },
        Some(ActionTag::SetSize) => {
            match (sl.width, sl.height) {
                (Some(w), Some(h)) => {
                    if sl.value.is_none() {
                        Ok(UIAction::SetSize { width: w, height: h })
                    } else {
                        Err(DecodeError::Schema)
                    }
                },
                _ => Err(DecodeError::Schema),
            }
        },
        Some(ActionTag::SetGain) => {
            match sl.value {
                Some(v) => {
                    if sl.width.is_none() && sl.height.is_none() {
                        Ok(UIAction::SetGain { value_micro: v })
                    } else {
                        Err(DecodeError::Schema)
                    }
                },
                None => Err(DecodeError::Schema),
            }
        },
    }
}

/// An outbound notice, built by the dispatcher and put on the wire by the
/// embedding.
#[derive(Clone, Copy, Debug, PartialEq, Eq, Structural)]
pub enum OutboundMessage {
    /// Reply to `Init`: the last known viewport size.
    SetSizeNotice { width: u32, height: u32 },
    /// Reply to a detected parameter change: the committed value, in
    /// millionths of unity amplitude. Its display text is derived from the
    /// value when the notice is encoded.
    ParamChangeNotice { value_micro: i64 },
}

impl OutboundMessage {
    /// A notice the dispatcher can emit: a carried value lies in the
    /// parameter's fixed-point range.
    pub open spec fn wf(self) -> bool {
        match self {
            OutboundMessage::SetSizeNotice { .. } => true,
            OutboundMessage::ParamChangeNotice { value_micro } => 0 <= value_micro
                <= 1_000_000,
        }
    }
}

/// The decimal digits of `n`, most significant first.
pub open spec fn spec_u32_dec(n: int) -> Seq<u8>
    decreases n,
{
    if n < 0 {
        Seq::empty()
    } else if n < 10 {
        seq![(48 + n) as u8]
    } else {
        spec_u32_dec(n / 10).push((48 + n % 10) as u8)
    }
}

fn push_u32_dec(out: &mut Vec<u8>, n: u32)
    ensures
        final(out)@ == old(out)@ + spec_u32_dec(n as int),
    decreases n,
{
    if n < 10 {
        out.push(48 + n as u8);
        proof {
            assert(final(out)@ =~= old(out)@ + spec_u32_dec(n as int));
        }
    } else {
        push_u32_dec(out, n / 10);
        out.push(48 + (n % 10) as u8);
        proof {
            assert(final(out)@ =~= old(out)@ + spec_u32_dec(n as int));
        }
    }
}

/// The display text of an amplitude in millionths: one integer digit, a
/// point, six fraction digits ("0.501187", "1.000000"). Also a valid JSON
/// number, so the same digits serve as the notice's wire value.
pub open spec fn spec_amp_text(v: int) -> Seq<u8> {
    seq![
        if v >= 1_000_000 {
            49u8
        } else {
            48u8
        },
        46u8,
        (48 + (v / 100_000) % 10) as u8,
        (48 + (v / 10_000) % 10) as u8,
        (48 + (v / 1_000) % 10) as u8,
        (48 + (v / 100) % 10) as u8,
        (48 + (v / 10) % 10) as u8,
        (48 + v % 10) as u8,
    ]
}

/// The display text of a stored amplitude, for a change notice.
pub fn amp_text_bytes(v: i64) -> (r: Vec<u8>)
    requires
        0 <= v <= 1_000_000,
    ensures
        r@ == spec_amp_text(v as int),
{
    let mut out: Vec<u8> = Vec::new();
    push_amp_text(&mut out, v);
    out
}

fn push_amp_text(out: &mut Vec<u8>, v: i64)
    requires
        0 <= v <= 1_000_000,
    ensures
        final(out)@ == old(out)@ + spec_amp_text(v as int),
{
    out.push(if v >= 1_000_000 { 49 } else { 48 });
    out.push(46);
    out.push((48 + (v / 100_000) % 10) as u8);
    out.push((48 + (v / 10_000) % 10) as u8);
    out.push((48 + (v / 1_000) % 10) as u8);
    out.push((48 + (v / 100) % 10) as u8);
    out.push((48 + (v / 10) % 10) as u8);
    out.push((48 + v % 10) as u8);
    proof {
        assert(final(out)@ =~= old(out)@ + spec_amp_text(v as int));
    }
}

/// The bytes of `{"type":"set_size","width":`.
pub open spec fn lit_set_size_head() -> Seq<u8> {
    seq![
        123u8, 34u8, 116u8, 121u8, 112u8, 101u8, 34u8, 58u8, 34u8, 115u8, 101u8, 116u8, 95u8,
        115u8, 105u8, 122u8, 101u8, 34u8, 44u8, 34u8, 119u8, 105u8, 100u8, 116u8, 104u8, 34u8,
        58u8,
    ]
}

/// The bytes of `,"height":`.
pub open spec fn lit_height_mid() -> Seq<u8> {
    seq![44u8, 34u8, 104u8, 101u8, 105u8, 103u8, 104u8, 116u8, 34u8, 58u8]
}

/// The bytes of `{"type":"param_change","action":"set_gain","value":`.
pub open spec fn lit_param_change_head() -> Seq<u8> {
    seq![
        123u8, 34u8, 116u8, 121u8, 112u8, 101u8, 34u8, 58u8, 34u8, 112u8, 97u8, 114u8, 97u8,
        109u8, 95u8, 99u8, 104u8, 97u8, 110u8, 103u8, 101u8, 34u8, 44u8, 34u8, 97u8, 99u8, 116u8,
        105u8, 111u8, 110u8, 34u8, 58u8, 34u8, 115u8, 101u8, 116u8, 95u8, 103u8, 97u8, 105u8,
        110u8, 34u8, 44u8, 34u8, 118u8, 97u8, 108u8, 117u8, 101u8, 34u8, 58u8,
    ]
}

/// The bytes of `,"text":"`.
pub open spec fn lit_text_mid() -> Seq<u8> {
    seq![44u8, 34u8, 116u8, 101u8, 120u8, 116u8, 34u8, 58u8, 34u8]
}

/// The exact wire bytes of an outbound notice.
pub open spec fn spec_encode_outbound(m: OutboundMessage) -> Seq<u8> {
    match m {
        OutboundMessage::SetSizeNotice { width, height } => lit_set_size_head() + spec_u32_dec(
            width as int,
        ) + lit_height_mid() + spec_u32_dec(height as int) + seq![125u8],
        OutboundMessage::ParamChangeNotice { value_micro } => lit_param_change_head()
            + spec_amp_text(value_micro as int) + lit_text_mid() + spec_amp_text(
            value_micro as int,
        ) + seq![34u8, 125u8],
    }
}

fn push_set_size_head(out: &mut Vec<u8>)
    ensures
        final(out)@ == old(out)@ + lit_set_size_head(),
{
    out.push(123);
    out.push(34);
    out.push(116);
    out.push(121);
    out.push(112);
    out.push(101);
    out.push(34);
    out.push(58);
    out.push(34);
    out.push(115);
    out.push(101);
    out.push(116);
    out.push(95);
    out.push(115);
    out.push(105);
    out.push(122);
    out.push(101);
    out.push(34);
    out.push(44);
    out.push(34);
    out.push(119);
    out.push(105);
    out.push(100);
    out.push(116);
    out.push(104);
    out.push(34);
    out.push(58);
    proof {
        assert(final(out)@ =~= old(out)@ + lit_set_size_head());
    }
}

fn push_height_mid(out: &mut Vec<u8>)
    ensures
        final(out)@ == old(out)@ + lit_height_mid(),
{
    out.push(44);
    out.push(34);
    out.push(104);
    out.push(101);
    out.push(105);
    out.push(103);
    out.push(104);
    out.push(116);
    out.push(34);
    out.push(58);
    proof {
        assert(final(out)@ =~= old(out)@ + lit_height_mid());
    }
}

fn push_param_change_head(out: &mut Vec<u8>)
    ensures
        final(out)@ == old(out)@ + lit_param_change_head(),
{
    out.push(123);
    out.push(34);
    out.push(116);
    out.push(121);
    out.push(112);
    out.push(101);
    out.push(34);
    out.push(58);
    out.push(34);
    out.push(112);
    out.push(97);
    out.push(114);
    out.push(97);
    out.push(109);
    out.push(95);
    out.push(99);
    out.push(104);
    out.push(97);
    out.push(110);
    out.push(103);
    out.push(101);
    out.push(34);
    out.push(44);
    out.push(34);
    out.push(97);
    out.push(99);
    out.push(116);
    out.push(105);
    out.push(111);
    out.push(110);
    out.push(34);
    out.push(58);
    out.push(34);
    out.push(115);
    out.push(101);
    out.push(116);
    out.push(95);
    out.push(103);
    out.push(97);
    out.push(105);
    out.push(110);
    out.push(34);
    out.push(44);
    out.push(34);
    out.push(118);
    out.push(97);
    out.push(108);
    out.push(117);
    out.push(101);
    out.push(34);
    out.push(58);
    proof {
        assert(final(out)@ =~= old(out)@ + lit_param_change_head());
    }
}

fn push_text_mid(out: &mut Vec<u8>)
    ensures
        final(out)@ == old(out)@ + lit_text_mid(),
{
    out.push(44);
    out.push(34);
    out.push(116);
    out.push(101);
    out.push(120);
    out.push(116);
    out.push(34);
    out.push(58);
    out.push(34);
    proof {
        assert(final(out)@ =~= old(out)@ + lit_text_mid());
    }
}

/// Put one outbound notice on the wire, exactly as the encoding spec says.
pub fn encode_outbound(m: &OutboundMessage) -> (r: Vec<u8>)
    requires
        m.wf(),
    ensures
        r@ == spec_encode_outbound(*m),
{
    let mut out: Vec<u8> = Vec::new();
    match m {
        OutboundMessage::SetSizeNotice { width, height } => {
            push_set_size_head(&mut out);
            push_u32_dec(&mut out, *width);
            push_height_mid(&mut out);
            push_u32_dec(&mut out, *height);
            out.push(125);
            proof {
                assert(out@ =~= spec_encode_outbound(*m));
            }
        },
        OutboundMessage::ParamChangeNotice { value_micro } => {
            push_param_change_head(&mut out);
            push_amp_text(&mut out, *value_micro);
            push_text_mid(&mut out);
            push_amp_text(&mut out, *value_micro);
            out.push(34);
            out.push(125);
            proof {
                assert(out@ =~= spec_encode_outbound(*m));
            }
        },
    }
    out
}

} // verus!

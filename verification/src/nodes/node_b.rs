//! Quality filter: drops bad readings and marks readings outside the alarm
//! band as uncertain.

use vstd::prelude::*;
use crate::ieee::{double_gt, double_lt, gt, lt};
use crate::types::{views, FlowMsg, FlowMsgView, TagValue, TagValueView, ValueKind};

verus! {

/// Upper edge of the alarm band: the bit pattern of 104.0.
pub const HIGH_ALARM: u64 = 0x405A_0000_0000_0000;

/// Lower edge of the alarm band: the bit pattern of 32.0.
pub const LOW_ALARM: u64 = 0x4040_0000_0000_0000;

/// The first quality grade that counts as bad.
pub const BAD_QUALITY: u8 = 2;

/// The quality grade for a doubtful reading.
pub const UNCERTAIN: u8 = 1;

/// Whether a double lies outside the alarm band. A NaN does not.
pub open spec fn outside_band(value: u64) -> bool {
    gt(value, HIGH_ALARM) || lt(value, LOW_ALARM)
}

/// What the filter emits for a message: nothing for a bad reading or a value
/// that is no double; else the message with its value unchanged, graded
/// uncertain when the value is outside the alarm band.
pub open spec fn filtered(msg: FlowMsgView) -> Seq<FlowMsgView> {
    if msg.quality >= BAD_QUALITY {
        seq![]
    } else {
        match msg.value {
            TagValueView::F64Val(v) => seq![
                FlowMsgView {
                    tag_id: msg.tag_id,
                    msg_id: msg.msg_id,
                    value: TagValueView::F64Val(v),
                    timestamp: msg.timestamp,
                    quality: if outside_band(v) {
                        UNCERTAIN
                    } else {
                        msg.quality
                    },
                },
            ],
            _ => seq![],
        }
    }
}

/// The quality filter. It keeps no state.
pub struct NodeB;

impl NodeB {
    /// The kinds of value that the node accepts.
    pub fn accepted_input_types() -> (kinds: Vec<ValueKind>)
        ensures
            kinds@ == seq![ValueKind::F64Val],
    {
        vec![ValueKind::F64Val]
    }

    /// The kind of value that the node emits.
    pub fn output_type() -> (kind: ValueKind)
        ensures
            kind == ValueKind::F64Val,
    {
        ValueKind::F64Val
    }

    /// The name that the node declares.
    pub fn name() -> (name: String)
        ensures
            name@ == "node-b:quality-filter"@,
    {
        "node-b:quality-filter".to_owned()
    }

    /// The version that the node declares.
    pub fn version() -> (version: String)
        ensures
            version@ == "0.1.0"@,
    {
        "0.1.0".to_owned()
    }

    /// Filters one message; see [`filtered`].
    pub fn process(msg: FlowMsg) -> (out: Vec<FlowMsg>)
        ensures
            views(out@) == filtered(msg@),
    {
        if msg.quality >= BAD_QUALITY {
            let out: Vec<FlowMsg> = Vec::new();
            assert(views(out@) =~= filtered(msg@));
            return out;
        }
        let val: u64 = match msg.value {
            TagValue::F64Val(v) => v,
            _ => {
                let out: Vec<FlowMsg> = Vec::new();
                assert(views(out@) =~= filtered(msg@));
                return out;
            },
        };
        let quality: u8 = if double_gt(val, HIGH_ALARM) || double_lt(val, LOW_ALARM) {
            UNCERTAIN
        } else {
            msg.quality
        };
        let out = vec![
            FlowMsg {
                tag_id: msg.tag_id,
                msg_id: msg.msg_id,
                value: TagValue::F64Val(val),
                timestamp: msg.timestamp,
                quality,
            },
        ];
        assert(views(out@) =~= filtered(msg@));
        out
    }

    /// This node takes no raw input.
    pub fn process_raw(tag_id: u32, msg_id: u32, raw: Vec<u8>) -> (out: Vec<FlowMsg>)
        ensures
            out@.len() == 0,
    {
        Vec::new()
    }

    /// This node has no state to save.
    pub fn save_state() -> (state: Vec<u8>)
        ensures
            state@.len() == 0,
    {
        Vec::new()
    }

    /// This node has no state to load: any bytes are accepted and ignored.
    pub fn load_state(state: Vec<u8>) {
    }
}

} // verus!

//! Source: turns a decoded tag update into the one message that enters the
//! pipeline.

use vstd::prelude::*;
use crate::records::{TagUpdate, TagUpdateView};
use crate::types::{views, FlowMsg, FlowMsgView, TagValue, TagValueView, ValueKind};

verus! {

/// The value that an update carries: the first typed field that is present,
/// looked for in the order bool, i32, u32, f32, f64, string, blob.
pub open spec fn first_value(update: TagUpdateView) -> Option<TagValueView> {
    if update.bool_val is Some {
        Some(TagValueView::BoolVal(update.bool_val->0))
    } else if update.i32_val is Some {
        Some(TagValueView::I32Val(update.i32_val->0))
    } else if update.u32_val is Some {
        Some(TagValueView::U32Val(update.u32_val->0))
    } else if update.f32_val is Some {
        Some(TagValueView::F32Val(update.f32_val->0))
    } else if update.f64_val is Some {
        Some(TagValueView::F64Val(update.f64_val->0))
    } else if update.str_val is Some {
        Some(TagValueView::ShortStr(update.str_val->0))
    } else if update.blob_val is Some {
        Some(TagValueView::Blob(update.blob_val->0))
    } else {
        None
    }
}

/// The quality grade of a message made from an update: the low eight bits of
/// the reported grade.
pub open spec fn narrowed_quality(quality: u32) -> u8 {
    (quality % 256) as u8
}

/// What the source emits for a record: nothing when the record could not be
/// decoded or carries no value; else one message with the given identifiers,
/// the update's first value and timestamp, and its quality narrowed.
pub open spec fn emitted(tag_id: u32, msg_id: u32, decoded: Option<TagUpdateView>) -> Seq<
    FlowMsgView,
> {
    match decoded {
        None => seq![],
        Some(update) => match first_value(update) {
            None => seq![],
            Some(value) => seq![
                FlowMsgView {
                    tag_id,
                    msg_id,
                    value,
                    timestamp: update.timestamp,
                    quality: narrowed_quality(update.quality),
                },
            ],
        },
    }
}

/// The view of a decoding result.
pub open spec fn decoded_view(decoded: Option<TagUpdate>) -> Option<TagUpdateView> {
    match decoded {
        Some(update) => Some(update@),
        None => None,
    }
}

/// The source node. It keeps no state.
pub struct SourceNode;

impl SourceNode {
    /// A source takes raw records only, so it accepts no value kind.
    pub fn accepted_input_types() -> (kinds: Vec<ValueKind>)
        ensures
            kinds@.len() == 0,
    {
        Vec::new()
    }

    /// The kind of value that the node emits.
    pub fn output_type() -> (kind: ValueKind)
        ensures
            kind == ValueKind::Any,
    {
        ValueKind::Any
    }

    /// The name that the node declares.
    pub fn name() -> (name: String)
        ensures
            name@ == "source-node:protobuf-tag-update"@,
    {
        "source-node:protobuf-tag-update".to_owned()
    }

    /// The version that the node declares.
    pub fn version() -> (version: String)
        ensures
            version@ == "0.1.0"@,
    {
        "0.1.0".to_owned()
    }

    /// A source is no intermediate node: it drops every message handed to it.
    pub fn process(msg: FlowMsg) -> (out: Vec<FlowMsg>)
        ensures
            out@.len() == 0,
    {
        Vec::new()
    }

    /// Makes the message for one raw record, given what decoding the record
    /// gave (`None` when it could not be decoded); see [`emitted`].
    pub fn emit(tag_id: u32, msg_id: u32, decoded: Option<TagUpdate>) -> (out: Vec<FlowMsg>)
        ensures
            views(out@) == emitted(tag_id, msg_id, decoded_view(decoded)),
    {
        let update = match decoded {
            Some(update) => update,
            None => {
                let out: Vec<FlowMsg> = Vec::new();
                assert(views(out@) =~= emitted(tag_id, msg_id, decoded_view(decoded)));
                return out;
            },
        };
        let ghost seen = update@;
        let timestamp = update.timestamp;
        let quality: u8 = (update.quality % 256) as u8;
        let value = if let Some(v) = update.bool_val {
            TagValue::BoolVal(v)
        } else if let Some(v) = update.i32_val {
            TagValue::I32Val(v)
        } else if let Some(v) = update.u32_val {
            TagValue::U32Val(v)
        } else if let Some(v) = update.f32_val {
            TagValue::F32Val(v)
        } else if let Some(v) = update.f64_val {
            TagValue::F64Val(v)
        } else if let Some(v) = update.str_val {
            TagValue::ShortStr(v)
        } else if let Some(v) = update.blob_val {
            TagValue::Blob(v)
        } else {
            let out: Vec<FlowMsg> = Vec::new();
            assert(views(out@) =~= emitted(tag_id, msg_id, Some(seen)));
            return out;
        };
        assert(first_value(seen) == Some(value@));
        let out = vec![FlowMsg { tag_id, msg_id, value, timestamp, quality }];
        assert(views(out@) =~= emitted(tag_id, msg_id, Some(seen)));
        out
    }

    /// Takes one raw record: hands its bytes to `decode`, which turns the
    /// wire form of a tag update into the update or fails, and makes the
    /// message from what that gave; see [`SourceNode::emit`].
    pub fn process_raw<D: Fn(Vec<u8>) -> Option<TagUpdate>>(
        tag_id: u32,
        msg_id: u32,
        raw: Vec<u8>,
        decode: D,
    ) -> (out: Vec<FlowMsg>)
        requires
            decode.requires((raw,)),
        ensures
            exists|decoded: Option<TagUpdate>|
                #![auto]
                decode.ensures((raw,), decoded) && views(out@) == emitted(
                    tag_id,
                    msg_id,
                    decoded_view(decoded),
                ),
    {
        let decoded = decode(raw);
        let ghost seen = decoded;
        let out = Self::emit(tag_id, msg_id, decoded);
        assert(decode.ensures((raw,), seen) && views(out@) == emitted(
            tag_id,
            msg_id,
            decoded_view(seen),
        ));
        out
    }

    /// This node has no state to save.
    pub fn save_state() -> (state: Vec<u8>)
        ensures
            state@.len() == 0,
    {
        Vec::new()
    }

    /// This node has no state to load: any bytes are accepted and ignored.
    pub fn load_state(state: Vec<u8>) {
    }
}

} // verus!

//! Sink: turns the message that reaches the end of the pipeline into a flow
//! result, encodes it, and holds the bytes that leave the sandbox.
//!
//! The sink coerces every scalar to a double. A boolean and a double need no
//! arithmetic; an integer or a single-precision float is widened by the
//! evaluator.

use vstd::prelude::*;
use crate::arith::{accepts_all, gives, FloatOp};
use crate::records::{FlowResult, FlowResultView};
use crate::text::{decimal, joined, text_view, u32_to_decimal};
use crate::types::{FlowMsg, FlowMsgView, TagValue, TagValueView, ValueKind};
use crate::wire::{encode_flow_result, flow_result_wire};

verus! {

/// The bit pattern of the double 1.0.
pub const ONE: u64 = 0x3FF0_0000_0000_0000;

/// The bit pattern of the double 0.0.
pub const ZERO: u64 = 0;

/// How the sink gets a double out of a value.
pub enum Coercion {
    /// The double is known: its bit pattern.
    Exact(u64),
    /// The double is the answer to this conversion.
    Widen(FloatOp),
    /// The value is no scalar: the sink emits nothing for it.
    Unsupported,
}

/// How a value is coerced: `false` is 0.0 and `true` is 1.0, a double stands
/// for itself, other numbers are widened, text and blobs are unsupported.
pub open spec fn coercion(value: TagValueView) -> Coercion {
    match value {
        TagValueView::BoolVal(v) => Coercion::Exact(
            if v {
                ONE
            } else {
                ZERO
            },
        ),
        TagValueView::I32Val(v) => Coercion::Widen(FloatOp::FromI32(v)),
        TagValueView::U32Val(v) => Coercion::Widen(FloatOp::FromU32(v)),
        TagValueView::F32Val(v) => Coercion::Widen(FloatOp::FromSingle(v)),
        TagValueView::F64Val(v) => Coercion::Exact(v),
        TagValueView::ShortStr(_) => Coercion::Unsupported,
        TagValueView::Blob(_) => Coercion::Unsupported,
    }
}

/// The tag name in a result: the registered one, or `tag_` and the tag's
/// number where none is registered.
pub open spec fn name_or_default(tag_id: u32, name: Option<Seq<char>>) -> Seq<char> {
    match name {
        Some(n) => n,
        None => "tag_"@ + decimal(tag_id as nat),
    }
}

/// The topic in a result: the registered one, or `iiot/tag/` and the tag's
/// number where none is registered.
pub open spec fn topic_or_default(tag_id: u32, topic: Option<Seq<char>>) -> Seq<char> {
    match topic {
        Some(t) => t,
        None => "iiot/tag/"@ + decimal(tag_id as nat),
    }
}

/// The result for a message whose value was coerced to the double `value`.
pub open spec fn result_for(
    msg: FlowMsgView,
    name: Option<Seq<char>>,
    topic: Option<Seq<char>>,
    value: u64,
) -> FlowResultView {
    FlowResultView {
        tag_id: msg.tag_id,
        tag_name: name_or_default(msg.tag_id, name),
        mqtt_topic: topic_or_default(msg.tag_id, topic),
        msg_id: msg.msg_id,
        value,
        timestamp: msg.timestamp,
        quality: msg.quality as u32,
        flow_id: "flow-temp-pipeline-v1"@,
    }
}

/// The result for a message carries the message's tag and message
/// identifiers, its timestamp and its quality, whatever the names and the
/// value are.
pub proof fn lemma_result_carries_message(
    msg: FlowMsgView,
    name: Option<Seq<char>>,
    topic: Option<Seq<char>>,
    value: u64,
)
    ensures
        result_for(msg, name, topic, value).tag_id == msg.tag_id,
        result_for(msg, name, topic, value).msg_id == msg.msg_id,
        result_for(msg, name, topic, value).timestamp == msg.timestamp,
        result_for(msg, name, topic, value).quality == msg.quality,
{
}

/// The sink node. It keeps no state between messages but its output buffer.
pub struct SinkNode;

impl SinkNode {
    /// The kinds of value that the node accepts.
    pub fn accepted_input_types() -> (kinds: Vec<ValueKind>)
        ensures
            kinds@ == seq![
                ValueKind::BoolVal,
                ValueKind::I32Val,
                ValueKind::U32Val,
                ValueKind::F32Val,
                ValueKind::F64Val,
                ValueKind::ShortStr,
            ],
    {
        vec![
            ValueKind::BoolVal,
            ValueKind::I32Val,
            ValueKind::U32Val,
            ValueKind::F32Val,
            ValueKind::F64Val,
            ValueKind::ShortStr,
        ]
    }

    /// The kind of value that the node emits.
    pub fn output_type() -> (kind: ValueKind)
        ensures
            kind == ValueKind::Any,
    {
        ValueKind::Any
    }

    /// The name that the node declares.
    pub fn name() -> (name: String)
        ensures
            name@ == "sink-node:protobuf-flow-result"@,
    {
        "sink-node:protobuf-flow-result".to_owned()
    }

    /// The version that the node declares.
    pub fn version() -> (version: String)
        ensures
            version@ == "0.1.0"@,
    {
        "0.1.0".to_owned()
    }

    /// Builds the result for one message. `name` and `mqtt_topic` are what the
    /// host's tag service answered for the attributes of those names.
    ///
    /// Text and blobs give no result. Every other value gives one: it carries
    /// the message's tag and message identifiers, timestamp and quality, the
    /// name and topic (or their defaults), and the value as a double, which
    /// for a widened number is the evaluator's answer to the conversion.
    pub fn result<E: Fn(FloatOp) -> u64>(
        msg: FlowMsg,
        name: Option<String>,
        mqtt_topic: Option<String>,
        eval: &E,
    ) -> (result: Option<FlowResult>)
        requires
            accepts_all(*eval),
        ensures
            match coercion(msg@.value) {
                Coercion::Unsupported => result is None,
                Coercion::Exact(value) => result matches Some(r) && r@ == result_for(
                    msg@,
                    text_view(name),
                    text_view(mqtt_topic),
                    value,
                ),
                Coercion::Widen(op) => result matches Some(r) && gives(*eval, op, r@.value) && r@
                    == result_for(msg@, text_view(name), text_view(mqtt_topic), r@.value),
            },
    {
        let tag_name = match name {
            Some(n) => n,
            None => joined("tag_", u32_to_decimal(msg.tag_id).as_str()),
        };
        let topic = match mqtt_topic {
            Some(t) => t,
            None => joined("iiot/tag/", u32_to_decimal(msg.tag_id).as_str()),
        };
        let value: u64 = match msg.value {
            TagValue::BoolVal(v) => if v {
                ONE
            } else {
                ZERO
            },
            TagValue::I32Val(v) => eval(FloatOp::FromI32(v)),
            TagValue::U32Val(v) => eval(FloatOp::FromU32(v)),
            TagValue::F32Val(v) => eval(FloatOp::FromSingle(v)),
            TagValue::F64Val(v) => v,
            _ => {
                return None;
            },
        };
        Some(
            FlowResult {
                tag_id: msg.tag_id,
                tag_name,
                mqtt_topic: topic,
                msg_id: msg.msg_id,
                value,
                timestamp: msg.timestamp,
                quality: msg.quality as u32,
                flow_id: "flow-temp-pipeline-v1".to_owned(),
            },
        )
    }

    /// Takes the message that reached the end of the pipeline. The sink asks
    /// the host's tag service, through `tag_attr`, for the tag's `name` and
    /// `mqtt_topic`, builds the result (see [`SinkNode::result`]), and puts
    /// its wire form in `out` for the host to take. So the bytes in `out` are
    /// the encoding of a result whose tag and message identifiers, timestamp
    /// and quality are those of the message. For text and blobs there is no
    /// result, and `out` is emptied: what `out` held before the call is never
    /// on offer after it. A sink emits no message.
    pub fn process<A, E>(msg: FlowMsg, out: &mut OutputBuffer, tag_attr: A, eval: E) -> (emitted:
        Vec<FlowMsg>) where A: Fn(u32, &str) -> Option<String>, E: Fn(FloatOp) -> u64
        requires
            tag_attr.requires((msg.tag_id, "name")),
            tag_attr.requires((msg.tag_id, "mqtt_topic")),
            accepts_all(eval),
        ensures
            emitted@.len() == 0,
            coercion(msg@.value) is Unsupported ==> final(out)@.len() == 0,
            !(coercion(msg@.value) is Unsupported) ==> exists|
                name: Option<String>,
                topic: Option<String>,
                value: u64,
            |
                #![auto]
                {
                    &&& tag_attr.ensures((msg.tag_id, "name"), name)
                    &&& tag_attr.ensures((msg.tag_id, "mqtt_topic"), topic)
                    &&& match coercion(msg@.value) {
                        Coercion::Exact(exact) => value == exact,
                        Coercion::Widen(op) => gives(eval, op, value),
                        Coercion::Unsupported => false,
                    }
                    &&& final(out)@ == flow_result_wire(
                        result_for(msg@, text_view(name), text_view(topic), value),
                    )
                },
    {
        let ghost seen = msg@;
        let tag_id = msg.tag_id;
        let name = tag_attr(tag_id, "name");
        let topic = tag_attr(tag_id, "mqtt_topic");
        let ghost answers = (name, topic);
        match Self::result(msg, name, topic, &eval) {
            Some(r) => {
                out.put(encode_flow_result(&r));
                assert({
                    &&& tag_attr.ensures((seen.tag_id, "name"), answers.0)
                    &&& tag_attr.ensures((seen.tag_id, "mqtt_topic"), answers.1)
                    &&& match coercion(seen.value) {
                        Coercion::Exact(exact) => r@.value == exact,
                        Coercion::Widen(op) => gives(eval, op, r@.value),
                        Coercion::Unsupported => false,
                    }
                    &&& out@ == flow_result_wire(
                        result_for(seen, text_view(answers.0), text_view(answers.1), r@.value),
                    )
                });
            },
            None => {
                out.clear_output();
            },
        }
        Vec::new()
    }

    /// This node takes no raw input.
    pub fn process_raw(tag_id: u32, msg_id: u32, raw: Vec<u8>) -> (out: Vec<FlowMsg>)
        ensures
            out@.len() == 0,
    {
        Vec::new()
    }

    /// This node has no state to save.
    pub fn save_state() -> (state: Vec<u8>)
        ensures
            state@.len() == 0,
    {
        Vec::new()
    }

    /// This node has no state to load: any bytes are accepted and ignored.
    pub fn load_state(state: Vec<u8>) {
    }
}

/// The bytes that the sink offers to the host after a message: the encoded
/// result, or nothing.
#[derive(Debug)]
pub struct OutputBuffer {
    bytes: Vec<u8>,
}

impl View for OutputBuffer {
    type V = Seq<u8>;

    closed spec fn view(&self) -> Seq<u8> {
        self.bytes@
    }
}

impl OutputBuffer {
    /// A buffer that offers nothing.
    pub fn new() -> (buffer: OutputBuffer)
        ensures
            buffer@.len() == 0,
    {
        OutputBuffer { bytes: Vec::new() }
    }

    /// Puts an encoded result in place of what the buffer held.
    pub fn put(&mut self, encoded: Vec<u8>)
        ensures
            final(self)@ == encoded@,
    {
        self.bytes = encoded;
    }

    /// The bytes on offer.
    pub fn contents(&self) -> (bytes: &Vec<u8>)
        ensures
            bytes@ == self@,
    {
        &self.bytes
    }

    /// The number of bytes on offer, as the 32-bit quantity that crosses the
    /// sandbox boundary.
    pub fn take_output_len(&self) -> (len: u32)
        ensures
            len == self@.len() % 0x1_0000_0000,
    {
        ((self.bytes.len() as u64) % 0x1_0000_0000) as u32
    }

    /// Withdraws the offer.
    pub fn clear_output(&mut self)
        ensures
            final(self)@.len() == 0,
    {
        self.bytes.clear();
    }

    /// Hands the bytes on offer over and withdraws the offer, so that they
    /// can be had once.
    pub fn take(&mut self) -> (bytes: Vec<u8>)
        ensures
            bytes@ == old(self)@,
            final(self)@.len() == 0,
    {
        let mut bytes: Vec<u8> = Vec::new();
        core::mem::swap(&mut self.bytes, &mut bytes);
        bytes
    }
}

/// The part of a sandbox's memory that a sink offers: `len` bytes from
/// address `ptr`, where the memory holds that many there.
pub open spec fn region(memory: Seq<u8>, ptr: u32, len: u32) -> Option<Seq<u8>> {
    if ptr + len <= memory.len() {
        Some(memory.subrange(ptr as int, ptr + len))
    } else {
        None
    }
}

/// Reads what a sink offers out of its sandbox's memory; see [`region`].
/// There is nothing to read where the offer reaches beyond the memory.
pub fn read_output(memory: &[u8], ptr: u32, len: u32) -> (bytes: Option<Vec<u8>>)
    ensures
        match region(memory@, ptr, len) {
            Some(part) => bytes matches Some(b) && b@ == part,
            None => bytes is None,
        },
{
    let end: u64 = ptr as u64 + len as u64;
    if end > memory.len() as u64 {
        return None;
    }
    let part = vstd::slice::slice_subrange(memory, ptr as usize, end as usize);
    Some(vstd::slice::slice_to_vec(part))
}

} // verus!

//! Unit conversion from degrees Celsius to degrees Fahrenheit:
//! `f = c * 9 / 5 + 32`, computed in that order.

use vstd::prelude::*;
use crate::arith::{accepts_all, gives, FloatOp};
use crate::types::{views, with_double, FlowMsg, FlowMsgView, TagValue, TagValueView, ValueKind};

verus! {

/// The bit pattern of 9.0.
pub const NINE: u64 = 0x4022_0000_0000_0000;

/// The bit pattern of 5.0.
pub const FIVE: u64 = 0x4014_0000_0000_0000;

/// The bit pattern of 32.0.
pub const THIRTY_TWO: u64 = 0x4040_0000_0000_0000;

/// Whether `celsius` is the reading that a value holds: a double stands for
/// itself, a single-precision float is widened, and nothing else is a
/// reading.
pub open spec fn reads<E: Fn(FloatOp) -> u64>(eval: E, value: TagValueView, celsius: u64) -> bool {
    match value {
        TagValueView::F32Val(v) => gives(eval, FloatOp::FromSingle(v), celsius),
        TagValueView::F64Val(v) => celsius == v,
        _ => false,
    }
}

/// Whether `fahrenheit` is what the conversion makes of `celsius`: the
/// reading times 9, that divided by 5, and 32 added to that.
pub open spec fn converts<E: Fn(FloatOp) -> u64>(eval: E, celsius: u64, fahrenheit: u64) -> bool {
    exists|scaled: u64, ratio: u64|
        #![auto]
        {
            &&& gives(eval, FloatOp::Mul(celsius, NINE), scaled)
            &&& gives(eval, FloatOp::Div(scaled, FIVE), ratio)
            &&& gives(eval, FloatOp::Add(ratio, THIRTY_TWO), fahrenheit)
        }
}

/// Whether a value is a float of either width.
pub open spec fn is_float(value: TagValueView) -> bool {
    value is F32Val || value is F64Val
}

/// The unit converter. It keeps no state.
pub struct NodeA;

impl NodeA {
    /// The kinds of value that the node accepts.
    pub fn accepted_input_types() -> (kinds: Vec<ValueKind>)
        ensures
            kinds@ == seq![ValueKind::F32Val, ValueKind::F64Val],
    {
        vec![ValueKind::F32Val, ValueKind::F64Val]
    }

    /// The kind of value that the node emits.
    pub fn output_type() -> (kind: ValueKind)
        ensures
            kind == ValueKind::F64Val,
    {
        ValueKind::F64Val
    }

    /// The name that the node declares.
    pub fn name() -> (name: String)
        ensures
            name@ == "node-a:unit-converter"@,
    {
        "node-a:unit-converter".to_owned()
    }

    /// The version that the node declares.
    pub fn version() -> (version: String)
        ensures
            version@ == "0.1.0"@,
    {
        "0.1.0".to_owned()
    }

    /// Converts one reading with the evaluator; see [`converts`].
    pub fn to_fahrenheit<E: Fn(FloatOp) -> u64>(celsius: u64, eval: &E) -> (fahrenheit: u64)
        requires
            accepts_all(*eval),
        ensures
            converts(*eval, celsius, fahrenheit),
    {
        let scaled = eval(FloatOp::Mul(celsius, NINE));
        let ratio = eval(FloatOp::Div(scaled, FIVE));
        let fahrenheit = eval(FloatOp::Add(ratio, THIRTY_TWO));
        assert(gives(*eval, FloatOp::Mul(celsius, NINE), scaled) && gives(
            *eval,
            FloatOp::Div(scaled, FIVE),
            ratio,
        ) && gives(*eval, FloatOp::Add(ratio, THIRTY_TWO), fahrenheit));
        fahrenheit
    }

    /// Converts one message. A value that is no float is dropped. Otherwise
    /// exactly one message comes out: the incoming one with its value replaced
    /// by the reading converted to degrees Fahrenheit.
    pub fn process<E: Fn(FloatOp) -> u64>(msg: FlowMsg, eval: E) -> (out: Vec<FlowMsg>)
        requires
            accepts_all(eval),
        ensures
            !is_float(msg@.value) ==> out@.len() == 0,
            is_float(msg@.value) ==> exists|celsius: u64, fahrenheit: u64|
                #![auto]
                {
                    &&& reads(eval, msg@.value, celsius)
                    &&& converts(eval, celsius, fahrenheit)
                    &&& views(out@) == seq![with_double(msg@, fahrenheit)]
                },
    {
        let celsius: u64 = match msg.value {
            TagValue::F32Val(v) => eval(FloatOp::FromSingle(v)),
            TagValue::F64Val(v) => v,
            _ => {
                return Vec::new();
            },
        };
        let fahrenheit = Self::to_fahrenheit(celsius, &eval);
        let out = vec![
            FlowMsg {
                tag_id: msg.tag_id,
                msg_id: msg.msg_id,
                value: TagValue::F64Val(fahrenheit),
                timestamp: msg.timestamp,
                quality: msg.quality,
            },
        ];
        assert(reads(eval, msg@.value, celsius) && converts(eval, celsius, fahrenheit) && views(out@)
            =~= seq![with_double(msg@, fahrenheit)]);
        out
    }

    /// This node takes no raw input.
    pub fn process_raw(tag_id: u32, msg_id: u32, raw: Vec<u8>) -> (out: Vec<FlowMsg>)
        ensures
            out@.len() == 0,
    {
        Vec::new()
    }

    /// This node has no state to save.
    pub fn save_state() -> (state: Vec<u8>)
        ensures
            state@.len() == 0,
    {
        Vec::new()
    }

    /// This node has no state to load: any bytes are accepted and ignored.
    pub fn load_state(state: Vec<u8>) {
    }
}

} // verus!

//! The data that flows through a pipeline: value kinds, tagged values and
//! messages, each with its mathematical view.
//!
//! Floating-point carriers are held as their IEEE-754 bit patterns: a
//! single-precision value as a `u32`, a double-precision value as a `u64`.

use vstd::prelude::*;

verus! {

/// The kind of value a node accepts or emits. `Any` is a wildcard that only
/// type compatibility uses; no value has that kind.
#[derive(Clone, Copy, Debug, PartialEq, Eq, Structural)]
pub enum ValueKind {
    BoolVal,
    I32Val,
    U32Val,
    F32Val,
    F64Val,
    ShortStr,
    Blob,
    Any,
}

/// A value carried by a message, one carrier per kind but `Any`.
#[derive(Debug)]
pub enum TagValue {
    BoolVal(bool),
    I32Val(i32),
    U32Val(u32),
    /// Bit pattern of a single-precision float.
    F32Val(u32),
    /// Bit pattern of a double-precision float.
    F64Val(u64),
    ShortStr(String),
    Blob(Vec<u8>),
}

/// Mathematical view of a [`TagValue`].
pub enum TagValueView {
    BoolVal(bool),
    I32Val(i32),
    U32Val(u32),
    F32Val(u32),
    F64Val(u64),
    ShortStr(Seq<char>),
    Blob(Seq<u8>),
}

impl View for TagValue {
    type V = TagValueView;

    open spec fn view(&self) -> TagValueView {
        match *self {
            TagValue::BoolVal(v) => TagValueView::BoolVal(v),
            TagValue::I32Val(v) => TagValueView::I32Val(v),
            TagValue::U32Val(v) => TagValueView::U32Val(v),
            TagValue::F32Val(v) => TagValueView::F32Val(v),
            TagValue::F64Val(v) => TagValueView::F64Val(v),
            TagValue::ShortStr(v) => TagValueView::ShortStr(v@),
            TagValue::Blob(v) => TagValueView::Blob(v@),
        }
    }
}

/// The kind of a value, read off its variant.
pub open spec fn kind_of(value: TagValueView) -> ValueKind {
    match value {
        TagValueView::BoolVal(_) => ValueKind::BoolVal,
        TagValueView::I32Val(_) => ValueKind::I32Val,
        TagValueView::U32Val(_) => ValueKind::U32Val,
        TagValueView::F32Val(_) => ValueKind::F32Val,
        TagValueView::F64Val(_) => ValueKind::F64Val,
        TagValueView::ShortStr(_) => ValueKind::ShortStr,
        TagValueView::Blob(_) => ValueKind::Blob,
    }
}

impl Clone for TagValue {
    /// A copy with the same view.
    fn clone(&self) -> (copy: TagValue)
        ensures
            copy@ == self@,
    {
        match self {
            TagValue::BoolVal(v) => TagValue::BoolVal(*v),
            TagValue::I32Val(v) => TagValue::I32Val(*v),
            TagValue::U32Val(v) => TagValue::U32Val(*v),
            TagValue::F32Val(v) => TagValue::F32Val(*v),
            TagValue::F64Val(v) => TagValue::F64Val(*v),
            TagValue::ShortStr(v) => TagValue::ShortStr(v.clone()),
            TagValue::Blob(v) => {
                let copy = v.clone();
                assert(copy@ =~= v@);
                TagValue::Blob(copy)
            },
        }
    }
}

impl TagValue {
    /// The kind of this value. It is never `Any`.
    pub fn kind(&self) -> (k: ValueKind)
        ensures
            k == kind_of(self@),
            k != ValueKind::Any,
    {
        match self {
            TagValue::BoolVal(_) => ValueKind::BoolVal,
            TagValue::I32Val(_) => ValueKind::I32Val,
            TagValue::U32Val(_) => ValueKind::U32Val,
            TagValue::F32Val(_) => ValueKind::F32Val,
            TagValue::F64Val(_) => ValueKind::F64Val,
            TagValue::ShortStr(_) => ValueKind::ShortStr,
            TagValue::Blob(_) => ValueKind::Blob,
        }
    }
}

/// One unit of data flowing between nodes.
#[derive(Debug)]
pub struct FlowMsg {
    pub tag_id: u32,
    /// Never zero for a message that the dispatcher started.
    pub msg_id: u32,
    pub value: TagValue,
    /// Milliseconds since the epoch, assigned by the source.
    pub timestamp: u64,
    /// 0 is good, 1 uncertain, 2 and above bad.
    pub quality: u8,
}

/// Mathematical view of a [`FlowMsg`].
pub struct FlowMsgView {
    pub tag_id: u32,
    pub msg_id: u32,
    pub value: TagValueView,
    pub timestamp: u64,
    pub quality: u8,
}

impl View for FlowMsg {
    type V = FlowMsgView;

    open spec fn view(&self) -> FlowMsgView {
        FlowMsgView {
            tag_id: self.tag_id,
            msg_id: self.msg_id,
            value: self.value@,
            timestamp: self.timestamp,
            quality: self.quality,
        }
    }
}

impl Clone for FlowMsg {
    /// A copy with the same view.
    fn clone(&self) -> (copy: FlowMsg)
        ensures
            copy@ == self@,
    {
        FlowMsg {
            tag_id: self.tag_id,
            msg_id: self.msg_id,
            value: self.value.clone(),
            timestamp: self.timestamp,
            quality: self.quality,
        }
    }
}

/// The message `msg` with its value replaced by the double `bits`.
pub open spec fn with_double(msg: FlowMsgView, bits: u64) -> FlowMsgView {
    FlowMsgView {
        tag_id: msg.tag_id,
        msg_id: msg.msg_id,
        value: TagValueView::F64Val(bits),
        timestamp: msg.timestamp,
        quality: msg.quality,
    }
}

/// The views of a sequence of messages, in order.
pub open spec fn views(msgs: Seq<FlowMsg>) -> Seq<FlowMsgView> {
    msgs.map_values(|m: FlowMsg| m@)
}

} // verus!

//! The two records that cross the pipeline's boundary: the tag update that
//! the ingress delivers and the flow result that the sink hands on. Both are
//! held here as plain values; floats are IEEE-754 bit patterns.

use vstd::prelude::*;

verus! {

/// One update of a tag as the field protocol driver reports it. At most one
/// of the typed value fields is expected to be present.
#[derive(Debug)]
pub struct TagUpdate {
    /// Dotted name of the tag.
    pub tag_id_str: String,
    /// Milliseconds since the epoch.
    pub timestamp: u64,
    /// 0 is good, 1 uncertain, 2 and above bad.
    pub quality: u32,
    pub unit: String,
    pub bool_val: Option<bool>,
    pub i32_val: Option<i32>,
    pub u32_val: Option<u32>,
    /// Bit pattern of a single-precision float.
    pub f32_val: Option<u32>,
    /// Bit pattern of a double-precision float.
    pub f64_val: Option<u64>,
    pub str_val: Option<String>,
    pub blob_val: Option<Vec<u8>>,
}

/// Mathematical view of a [`TagUpdate`].
pub struct TagUpdateView {
    pub tag_id_str: Seq<char>,
    pub timestamp: u64,
    pub quality: u32,
    pub unit: Seq<char>,
    pub bool_val: Option<bool>,
    pub i32_val: Option<i32>,
    pub u32_val: Option<u32>,
    pub f32_val: Option<u32>,
    pub f64_val: Option<u64>,
    pub str_val: Option<Seq<char>>,
    pub blob_val: Option<Seq<u8>>,
}

impl View for TagUpdate {
    type V = TagUpdateView;

    open spec fn view(&self) -> TagUpdateView {
        TagUpdateView {
            tag_id_str: self.tag_id_str@,
            timestamp: self.timestamp,
            quality: self.quality,
            unit: self.unit@,
            bool_val: self.bool_val,
            i32_val: self.i32_val,
            u32_val: self.u32_val,
            f32_val: self.f32_val,
            f64_val: self.f64_val,
            str_val: match self.str_val {
                Some(s) => Some(s@),
                None => None,
            },
            blob_val: match self.blob_val {
                Some(b) => Some(b@),
                None => None,
            },
        }
    }
}

/// What the sink produces for one message.
#[derive(Debug)]
pub struct FlowResult {
    pub tag_id: u32,
    pub tag_name: String,
    pub mqtt_topic: String,
    pub msg_id: u32,
    /// Bit pattern of a double-precision float.
    pub value: u64,
    /// Milliseconds since the epoch.
    pub timestamp: u64,
    pub quality: u32,
    pub flow_id: String,
}

/// Mathematical view of a [`FlowResult`].
pub struct FlowResultView {
    pub tag_id: u32,
    pub tag_name: Seq<char>,
    pub mqtt_topic: Seq<char>,
    pub msg_id: u32,
    pub value: u64,
    pub timestamp: u64,
    pub quality: u32,
    pub flow_id: Seq<char>,
}

impl View for FlowResult {
    type V = FlowResultView;

    open spec fn view(&self) -> FlowResultView {
        FlowResultView {
            tag_id: self.tag_id,
            tag_name: self.tag_name@,
            mqtt_topic: self.mqtt_topic@,
            msg_id: self.msg_id,
            value: self.value,
            timestamp: self.timestamp,
            quality: self.quality,
            flow_id: self.flow_id@,
        }
    }
}

} // verus!

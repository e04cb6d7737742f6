//! The wire form of a flow result: a run of protobuf fields, written with
//! `prost`.
//!
//! A field is its key, a varint of the field number and the wire type,
//! followed by its payload. A field that holds its type's default value is
//! left out.

use vstd::prelude::*;
use vstd::bytes::spec_u64_to_le_bytes;
use vstd::utf8::encode_utf8;
use crate::ieee::SIGN_BIT;
use crate::records::{FlowResult, FlowResultView};

verus! {

/// The largest field number.
pub const MAX_TAG: u32 = 0x1FFF_FFFF;

/// An integer in base 128, lowest digit first, with the top bit of a byte
/// set on all but the last.
pub open spec fn varint(value: nat) -> Seq<u8>
    decreases value,
{
    if value < 128 {
        seq![value as u8]
    } else {
        seq![(value % 128 + 128) as u8] + varint(value / 128)
    }
}

/// The key of a field: the varint of its number, times eight, plus its wire
/// type.
pub open spec fn key(tag: u32, wire_type: nat) -> Seq<u8> {
    varint((tag * 8 + wire_type) as nat)
}

/// An integer field: wire type 0, the value as a varint.
pub open spec fn varint_field(tag: u32, value: nat) -> Seq<u8> {
    key(tag, 0) + varint(value)
}

/// A 64-bit field: wire type 1, the eight bytes lowest first.
pub open spec fn fixed64_field(tag: u32, bits: u64) -> Seq<u8> {
    key(tag, 1) + spec_u64_to_le_bytes(bits)
}

/// A text field: wire type 2, the number of bytes as a varint, and the text
/// in UTF-8.
pub open spec fn text_field(tag: u32, text: Seq<char>) -> Seq<u8> {
    key(tag, 2) + varint(encode_utf8(text).len()) + encode_utf8(text)
}

/// An integer field of a record: absent when the value is zero.
pub open spec fn integer(tag: u32, value: nat) -> Seq<u8> {
    if value == 0 {
        Seq::empty()
    } else {
        varint_field(tag, value)
    }
}

/// A text field of a record: absent when the text is empty.
pub open spec fn text(tag: u32, value: Seq<char>) -> Seq<u8> {
    if value.len() == 0 {
        Seq::empty()
    } else {
        text_field(tag, value)
    }
}

/// A double field of a record: absent when the double is a zero of either
/// sign.
pub open spec fn double(tag: u32, bits: u64) -> Seq<u8> {
    if bits == 0 || bits == SIGN_BIT {
        Seq::empty()
    } else {
        fixed64_field(tag, bits)
    }
}

/// The wire form of a flow result: its eight fields in the order of their
/// numbers.
pub open spec fn flow_result_wire(r: FlowResultView) -> Seq<u8> {
    integer(1, r.tag_id as nat) + text(2, r.tag_name) + text(3, r.mqtt_topic) + integer(
        4,
        r.msg_id as nat,
    ) + double(5, r.value) + integer(6, r.timestamp as nat) + integer(7, r.quality as nat) + text(
        8,
        r.flow_id,
    )
}

/// Calls `prost::encoding::uint32::encode`, which appends to the buffer the
/// key of field `tag` with wire type 0 and then the value as a varint.
#[verifier::external_body]
fn put_uint32(tag: u32, value: u32, buf: &mut Vec<u8>)
    requires
        1 <= tag <= MAX_TAG,
    ensures
        final(buf)@ == old(buf)@ + varint_field(tag, value as nat),
{
    prost::encoding::uint32::encode(tag, &value, buf)
}

/// Calls `prost::encoding::uint64::encode`, which appends to the buffer the
/// key of field `tag` with wire type 0 and then the value as a varint.
#[verifier::external_body]
fn put_uint64(tag: u32, value: u64, buf: &mut Vec<u8>)
    requires
        1 <= tag <= MAX_TAG,
    ensures
        final(buf)@ == old(buf)@ + varint_field(tag, value as nat),
{
    prost::encoding::uint64::encode(tag, &value, buf)
}

/// Calls `prost::encoding::fixed64::encode`, which appends to the buffer the
/// key of field `tag` with wire type 1 and then the value's eight bytes,
/// lowest first. A double is written as these same bytes of its bit pattern.
#[verifier::external_body]
fn put_fixed64(tag: u32, bits: u64, buf: &mut Vec<u8>)
    requires
        1 <= tag <= MAX_TAG,
    ensures
        final(buf)@ == old(buf)@ + fixed64_field(tag, bits),
{
    prost::encoding::fixed64::encode(tag, &bits, buf)
}

/// Calls `prost::encoding::string::encode`, which appends to the buffer the
/// key of field `tag` with wire type 2, the text's length in bytes as a
/// varint, and the text's bytes.
#[verifier::external_body]
fn put_string(tag: u32, value: &String, buf: &mut Vec<u8>)
    requires
        1 <= tag <= MAX_TAG,
    ensures
        final(buf)@ == old(buf)@ + text_field(tag, value@),
{
    prost::encoding::string::encode(tag, value, buf)
}

/// Appends an integer field unless the value is zero.
fn put_integer(tag: u32, value: u64, buf: &mut Vec<u8>)
    requires
        1 <= tag <= MAX_TAG,
    ensures
        final(buf)@ == old(buf)@ + integer(tag, value as nat),
{
    if value != 0 {
        put_uint64(tag, value, buf);
    } else {
        assert(buf@ =~= old(buf)@ + integer(tag, value as nat));
    }
}

/// Appends a 32-bit integer field unless the value is zero.
fn put_small_integer(tag: u32, value: u32, buf: &mut Vec<u8>)
    requires
        1 <= tag <= MAX_TAG,
    ensures
        final(buf)@ == old(buf)@ + integer(tag, value as nat),
{
    if value != 0 {
        put_uint32(tag, value, buf);
    } else {
        assert(buf@ =~= old(buf)@ + integer(tag, value as nat));
    }
}

/// Appends a text field unless the text is empty.
fn put_text(tag: u32, value: &String, buf: &mut Vec<u8>)
    requires
        1 <= tag <= MAX_TAG,
    ensures
        final(buf)@ == old(buf)@ + text(tag, value@),
{
    if !value.as_str().is_empty() {
        put_string(tag, value, buf);
    } else {
        assert(buf@ =~= old(buf)@ + text(tag, value@));
    }
}

/// Appends a double field unless the double is a zero.
fn put_double(tag: u32, bits: u64, buf: &mut Vec<u8>)
    requires
        1 <= tag <= MAX_TAG,
    ensures
        final(buf)@ == old(buf)@ + double(tag, bits),
{
    if bits != 0 && bits != SIGN_BIT {
        put_fixed64(tag, bits, buf);
    } else {
        assert(buf@ =~= old(buf)@ + double(tag, bits));
    }
}

/// Encodes a flow result; see [`flow_result_wire`].
pub fn encode_flow_result(r: &FlowResult) -> (bytes: Vec<u8>)
    ensures
        bytes@ == flow_result_wire(r@),
{
    let mut buf: Vec<u8> = Vec::new();
    put_small_integer(1, r.tag_id, &mut buf);
    put_text(2, &r.tag_name, &mut buf);
    put_text(3, &r.mqtt_topic, &mut buf);
    put_small_integer(4, r.msg_id, &mut buf);
    put_double(5, r.value, &mut buf);
    put_integer(6, r.timestamp, &mut buf);
    put_small_integer(7, r.quality, &mut buf);
    put_text(8, &r.flow_id, &mut buf);
    assert(buf@ =~= flow_result_wire(r@));
    buf
}

} // verus!

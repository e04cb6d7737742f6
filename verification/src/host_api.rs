//! What the host offers to the code inside a sandbox: the attributes and the
//! engineering range of a tag, and a debug log.
//!
//! Each function takes the registry for the length of one call.

use vstd::prelude::*;
use vstd::string::StringExecFns;
use crate::ieee::le;
use crate::registry::{attribute_of, range_of, valid, TagRegistry};
use crate::text::text_view;

verus! {

/// The sandbox's `get-tag-attr`: the text attribute of a tag under a key,
/// none for an unknown tag or key.
pub fn get_tag_attr(registry: &TagRegistry, tag_id: u32, key: &str) -> (value: Option<String>)
    ensures
        text_view(value) == attribute_of(registry@, tag_id, key@),
        valid(registry@),
{
    registry.get_attr(tag_id, key)
}

/// The sandbox's `get-eng-range`: the engineering range of a tag, low end
/// first, none for an unknown tag.
pub fn get_eng_range(registry: &TagRegistry, tag_id: u32) -> (range: Option<(u64, u64)>)
    ensures
        range == range_of(registry@, tag_id),
        range matches Some(r) ==> le(r.0, r.1),
        valid(registry@),
{
    registry.get_eng_range(tag_id)
}

/// The line of a debug message: the node's name in a `[WASM:..]` prefix,
/// a space, and the message.
pub open spec fn debug_line(node_name: Seq<char>, msg: Seq<char>) -> Seq<char> {
    "[WASM:"@ + node_name + "] "@ + msg
}

/// The sandbox's `log-debug`: the line that the host writes to its error
/// stream for a message of node `node_name`.
pub fn log_debug(node_name: &str, msg: &str) -> (line: String)
    ensures
        line@ == debug_line(node_name@, msg@),
{
    let mut line = String::from_str("[WASM:");
    line.append(node_name);
    line.append("] ");
    line.append(msg);
    line
}

} // verus!

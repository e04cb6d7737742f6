//! Deploy-time type checking: a pipeline is activated only when every node
//! accepts what the node before it emits.

use vstd::prelude::*;
use vstd::string::StringExecFns;
use crate::types::ValueKind;

verus! {

/// Whether a node that accepts `accepted` can follow a node that emits
/// `emitted`: the emitter is untyped, or the receiver lists the emitted kind
/// or the wildcard.
pub open spec fn compatible(emitted: ValueKind, accepted: Seq<ValueKind>) -> bool {
    emitted == ValueKind::Any || exists|i: int|
        0 <= i < accepted.len() && (#[trigger] accepted[i] == ValueKind::Any || accepted[i]
            == emitted)
}

/// A rejected edge of a pipeline: both endpoints and their declared kinds.
#[derive(Debug)]
pub struct TypeMismatch {
    /// Name of the emitting node.
    pub from: String,
    /// The kind it emits.
    pub from_out: ValueKind,
    /// Name of the receiving node.
    pub to: String,
    /// The kinds it accepts.
    pub to_in: Vec<ValueKind>,
}

/// Mathematical view of a [`TypeMismatch`].
pub struct TypeMismatchView {
    pub from: Seq<char>,
    pub from_out: ValueKind,
    pub to: Seq<char>,
    pub to_in: Seq<ValueKind>,
}

impl View for TypeMismatch {
    type V = TypeMismatchView;

    open spec fn view(&self) -> TypeMismatchView {
        TypeMismatchView {
            from: self.from@,
            from_out: self.from_out,
            to: self.to@,
            to_in: self.to_in@,
        }
    }
}

/// The written form of a kind.
pub open spec fn kind_text(kind: ValueKind) -> Seq<char> {
    match kind {
        ValueKind::BoolVal => "BoolVal"@,
        ValueKind::I32Val => "I32Val"@,
        ValueKind::U32Val => "U32Val"@,
        ValueKind::F32Val => "F32Val"@,
        ValueKind::F64Val => "F64Val"@,
        ValueKind::ShortStr => "ShortStr"@,
        ValueKind::Blob => "Blob"@,
        ValueKind::Any => "Any"@,
    }
}

/// The written forms of some kinds, separated by a comma and a space.
pub open spec fn kinds_text(kinds: Seq<ValueKind>) -> Seq<char>
    decreases kinds.len(),
{
    if kinds.len() == 0 {
        Seq::empty()
    } else if kinds.len() == 1 {
        kind_text(kinds[0])
    } else {
        kinds_text(kinds.drop_last()) + ", "@ + kind_text(kinds.last())
    }
}

/// The one-line diagnostic for a rejected edge: a marker, then each endpoint
/// followed by its kinds in parentheses, with an arrow between the two.
pub open spec fn diagnostic(e: TypeMismatchView) -> Seq<char> {
    "❌ 型別不符  "@ + e.from + " ("@ + kind_text(e.from_out) + ") → "@ + e.to + " (["@ + kinds_text(
        e.to_in,
    ) + "])"@
}

/// The written form of a kind.
pub fn kind_name(kind: ValueKind) -> (name: &'static str)
    ensures
        name@ == kind_text(kind),
{
    match kind {
        ValueKind::BoolVal => "BoolVal",
        ValueKind::I32Val => "I32Val",
        ValueKind::U32Val => "U32Val",
        ValueKind::F32Val => "F32Val",
        ValueKind::F64Val => "F64Val",
        ValueKind::ShortStr => "ShortStr",
        ValueKind::Blob => "Blob",
        ValueKind::Any => "Any",
    }
}

impl TypeMismatch {
    /// The diagnostic for this mismatch; see [`diagnostic`].
    pub fn message(&self) -> (text: String)
        ensures
            text@ == diagnostic(self@),
    {
        let mut text = String::from_str("❌ 型別不符  ");
        text.append(self.from.as_str());
        text.append(" (");
        text.append(kind_name(self.from_out));
        text.append(") → ");
        text.append(self.to.as_str());
        text.append(" ([");
        let ghost head = text@;
        let mut i: usize = 0;
        while i < self.to_in.len()
            invariant
                i <= self.to_in.len(),
                text@ == head + kinds_text(self.to_in@.take(i as int)),
            decreases self.to_in.len() - i,
        {
            let ghost done = self.to_in@.take(i as int);
            let ghost more = self.to_in@.take(i + 1);
            proof {
                assert(more.drop_last() =~= done);
                assert(more.last() == self.to_in@[i as int]);
            }
            if i > 0 {
                text.append(", ");
            }
            text.append(kind_name(self.to_in[i]));
            proof {
                if i == 0 {
                    assert(kinds_text(done) =~= Seq::<char>::empty());
                }
                assert(text@ =~= head + kinds_text(more));
            }
            i += 1;
        }
        proof {
            assert(self.to_in@.take(i as int) =~= self.to_in@);
        }
        text.append("])");
        assert(text@ =~= diagnostic(self@));
        text
    }
}

/// Whether a node that accepts `accepted` can follow one that emits
/// `emitted`; see [`compatible`].
pub fn is_compatible(emitted: ValueKind, accepted: &[ValueKind]) -> (ok: bool)
    ensures
        ok == compatible(emitted, accepted@),
{
    if emitted == ValueKind::Any {
        return true;
    }
    let mut i: usize = 0;
    while i < accepted.len()
        invariant
            i <= accepted.len(),
            emitted != ValueKind::Any,
            forall|k: int|
                0 <= k < i ==> !(#[trigger] accepted@[k] == ValueKind::Any || accepted@[k]
                    == emitted),
        decreases accepted.len() - i,
    {
        if accepted[i] == ValueKind::Any || accepted[i] == emitted {
            return true;
        }
        i += 1;
    }
    false
}

/// Checks one edge of a pipeline. It passes exactly when the two nodes are
/// compatible; otherwise the error names both endpoints and their kinds.
pub fn type_check(from: &str, from_out: ValueKind, to: &str, to_in: &[ValueKind]) -> (checked:
    Result<(), TypeMismatch>)
    ensures
        checked is Ok <==> compatible(from_out, to_in@),
        checked matches Err(e) ==> e@ == (TypeMismatchView {
            from: from@,
            from_out,
            to: to@,
            to_in: to_in@,
        }),
{
    if is_compatible(from_out, to_in) {
        Ok(())
    } else {
        Err(
            TypeMismatch {
                from: from.to_owned(),
                from_out,
                to: to.to_owned(),
                to_in: vstd::slice::slice_to_vec(to_in),
            },
        )
    }
}

/// What a node declares of itself: its name and the kinds it accepts and
/// emits. A source accepts no kind, since it takes raw records only.
#[derive(Debug)]
pub struct NodeMeta {
    pub name: String,
    pub accepted_input_types: Vec<ValueKind>,
    pub output_type: ValueKind,
}

/// Mathematical view of a [`NodeMeta`].
pub struct NodeMetaView {
    pub name: Seq<char>,
    pub accepted_input_types: Seq<ValueKind>,
    pub output_type: ValueKind,
}

impl View for NodeMeta {
    type V = NodeMetaView;

    open spec fn view(&self) -> NodeMetaView {
        NodeMetaView {
            name: self.name@,
            accepted_input_types: self.accepted_input_types@,
            output_type: self.output_type,
        }
    }
}

/// The views of a sequence of nodes, in order.
pub open spec fn node_views(nodes: Seq<NodeMeta>) -> Seq<NodeMetaView> {
    nodes.map_values(|n: NodeMeta| n@)
}

/// Whether the edge from node `i` to node `i + 1` passes.
pub open spec fn edge_ok(nodes: Seq<NodeMetaView>, i: int) -> bool {
    compatible(nodes[i].output_type, nodes[i + 1].accepted_input_types)
}

/// Whether every edge of a pipeline passes.
pub open spec fn deployable(nodes: Seq<NodeMetaView>) -> bool {
    forall|i: int| 0 <= i < nodes.len() - 1 ==> #[trigger] edge_ok(nodes, i)
}

/// The mismatch that the edge from node `i` to node `i + 1` is reported with.
pub open spec fn mismatch_at(nodes: Seq<NodeMetaView>, i: int) -> TypeMismatchView {
    TypeMismatchView {
        from: nodes[i].name,
        from_out: nodes[i].output_type,
        to: nodes[i + 1].name,
        to_in: nodes[i + 1].accepted_input_types,
    }
}

/// Whether edge `i` is the first of a pipeline that does not pass.
pub open spec fn first_failing(nodes: Seq<NodeMetaView>, i: int) -> bool {
    &&& 0 <= i < nodes.len() - 1
    &&& !edge_ok(nodes, i)
    &&& forall|k: int| 0 <= k < i ==> #[trigger] edge_ok(nodes, k)
}

/// An activated pipeline: a sequence of nodes, source first and sink last,
/// every edge of which passed the type check.
#[derive(Debug)]
pub struct Pipeline {
    nodes: Vec<NodeMeta>,
}

impl View for Pipeline {
    type V = Seq<NodeMetaView>;

    closed spec fn view(&self) -> Seq<NodeMetaView> {
        node_views(self.nodes@)
    }
}

impl Pipeline {
    #[verifier::type_invariant]
    spec fn checked(&self) -> bool {
        deployable(node_views(self.nodes@))
    }

    /// How many nodes the pipeline has. Every edge between them passes.
    pub fn len(&self) -> (n: usize)
        ensures
            n == self@.len(),
            deployable(self@),
    {
        proof {
            use_type_invariant(self);
        }
        self.nodes.len()
    }

    /// The name of node `i`.
    pub fn node_name(&self, i: usize) -> (name: &String)
        requires
            i < self@.len(),
        ensures
            name@ == self@[i as int].name,
    {
        &self.nodes[i].name
    }
}

/// Checks every edge of a pipeline, in order, and activates it when all of
/// them pass. Otherwise nothing is activated, and the error reports the first
/// edge that does not pass.
pub fn deploy(nodes: Vec<NodeMeta>) -> (deployed: Result<Pipeline, TypeMismatch>)
    ensures
        deployed is Ok <==> deployable(node_views(nodes@)),
        deployed matches Ok(pipeline) ==> pipeline@ == node_views(nodes@),
        deployed matches Err(e) ==> exists|i: int|
            #![auto]
            first_failing(node_views(nodes@), i) && e@ == mismatch_at(node_views(nodes@), i),
{
    let ghost all = node_views(nodes@);
    let mut i: usize = 1;
    while i < nodes.len()
        invariant
            1 <= i,
            all == node_views(nodes@),
            forall|k: int| 0 <= k < i - 1 ==> #[trigger] edge_ok(all, k),
        decreases nodes.len() - i,
    {
        let from = &nodes[i - 1];
        let to = &nodes[i];
        match type_check(
            from.name.as_str(),
            from.output_type,
            to.name.as_str(),
            to.accepted_input_types.as_slice(),
        ) {
            Ok(()) => {
                assert(edge_ok(all, i - 1));
            },
            Err(e) => {
                assert(!edge_ok(all, i - 1));
                assert(first_failing(all, i - 1));
                assert(e@ == mismatch_at(all, i - 1));
                return Err(e);
            },
        }
        i += 1;
    }
    Ok(Pipeline { nodes })
}

} // verus!

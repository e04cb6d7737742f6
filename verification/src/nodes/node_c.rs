//! Sliding average over the last eight samples, with a state that can be
//! saved to bytes and loaded back.
//!
//! The node keeps the ring of samples and emits the arithmetic mean of the
//! filled part of it: the samples summed in slot order, divided by their
//! number. Samples are bit patterns of doubles.

use vstd::prelude::*;
use vstd::bytes::{
    lemma_auto_spec_u64_to_from_le_bytes, spec_u64_from_le_bytes, spec_u64_to_le_bytes,
    spec_u64_to_le_bytes_to_open, u64_from_le_bytes, u64_to_le_bytes,
};
use vstd::slice::slice_subrange;
use crate::arith::{accepts_all, gives, single_valued, FloatOp};
use crate::types::{views, with_double, FlowMsg, FlowMsgView, TagValue, TagValueView, ValueKind};

verus! {

/// Number of samples that the average runs over.
pub const WINDOW: u64 = 8;

/// Length of a saved state: eight samples and three counters, eight bytes each.
pub const STATE_LEN: usize = 88;

/// The bit pattern of negative zero: where a sum starts, since adding it to
/// any double gives that double.
pub const NEG_ZERO: u64 = 0x8000_0000_0000_0000;

/// Mathematical view of the node's state.
pub struct NodeCView {
    /// The ring of samples; always `WINDOW` long.
    pub buf: Seq<u64>,
    /// Where the next sample goes.
    pub pos: u64,
    /// How many slots are filled, counted from slot 0.
    pub count: u64,
    /// How many samples were ever taken.
    pub total: u64,
}

/// The state before any sample.
pub open spec fn initial() -> NodeCView {
    NodeCView { buf: Seq::new(WINDOW as nat, |i: int| 0u64), pos: 0, count: 0, total: 0 }
}

/// Whether a state can take a sample: the position is inside the ring, no
/// more slots are filled than there are, and the total can still grow.
pub open spec fn well_formed(s: NodeCView) -> bool {
    &&& s.buf.len() == WINDOW
    &&& s.pos < WINDOW
    &&& s.count <= WINDOW
    &&& s.total < u64::MAX
}

/// The state after taking `sample`: it overwrites the slot at the position,
/// the position moves on round the ring, and the counters grow.
pub open spec fn pushed(s: NodeCView, sample: u64) -> NodeCView {
    NodeCView {
        buf: s.buf.update(s.pos as int, sample),
        pos: ((s.pos + 1) % (WINDOW as int)) as u64,
        count: if s.count < WINDOW {
            (s.count + 1) as u64
        } else {
            s.count
        },
        total: (s.total + 1) as u64,
    }
}

/// The filled slots, in slot order: what the mean is taken over.
pub open spec fn window(s: NodeCView) -> Seq<u64> {
    s.buf.subrange(0, s.count as int)
}

/// Whether `partial` holds the running sums of `samples`: it starts at
/// negative zero, and each entry after that is the entry before it with the
/// next sample added.
pub open spec fn running_sums<E: Fn(FloatOp) -> u64>(
    eval: E,
    samples: Seq<u64>,
    partial: Seq<u64>,
) -> bool {
    &&& partial.len() == samples.len() + 1
    &&& partial[0] == NEG_ZERO
    &&& forall|i: int|
        0 <= i < samples.len() ==> gives(
            eval,
            FloatOp::Add(partial[i], #[trigger] samples[i]),
            partial[i + 1],
        )
}

/// Whether `sum` is what adding up `samples` in order gives.
pub open spec fn sums<E: Fn(FloatOp) -> u64>(eval: E, samples: Seq<u64>, sum: u64) -> bool {
    exists|partial: Seq<u64>| #[trigger] running_sums(eval, samples, partial) && partial.last() == sum
}

/// Whether `mean` is the arithmetic mean of `samples`: their sum divided by
/// their number.
pub open spec fn averages<E: Fn(FloatOp) -> u64>(eval: E, samples: Seq<u64>, mean: u64) -> bool {
    exists|sum: u64, number: u64|
        #![auto]
        {
            &&& sums(eval, samples, sum)
            &&& gives(eval, FloatOp::FromCount(samples.len() as u64), number)
            &&& gives(eval, FloatOp::Div(sum, number), mean)
        }
}

/// The eleven words of a saved state: the samples by slot, then position,
/// filled count and total.
pub open spec fn word(s: NodeCView, k: int) -> u64 {
    if k < WINDOW {
        s.buf[k]
    } else if k == 8 {
        s.pos
    } else if k == 9 {
        s.count
    } else {
        s.total
    }
}

/// The saved form of a state: its eleven words, each as eight little-endian
/// bytes.
pub open spec fn encoded(s: NodeCView) -> Seq<u8> {
    Seq::new(STATE_LEN as nat, |i: int| spec_u64_to_le_bytes(word(s, i / 8))[i % 8])
}

/// Word `k` of a saved state.
pub open spec fn word_at(bytes: Seq<u8>, k: int) -> u64 {
    spec_u64_from_le_bytes(bytes.subrange(8 * k, 8 * k + 8))
}

/// The state that the first `STATE_LEN` bytes of `bytes` stand for.
pub open spec fn decoded(bytes: Seq<u8>) -> NodeCView {
    NodeCView {
        buf: Seq::new(WINDOW as nat, |k: int| word_at(bytes, k)),
        pos: word_at(bytes, 8),
        count: word_at(bytes, 9),
        total: word_at(bytes, 10),
    }
}

/// What loading `bytes` makes of a state: bytes too short to hold a state
/// leave it as it is.
pub open spec fn loaded(s: NodeCView, bytes: Seq<u8>) -> NodeCView {
    if bytes.len() < STATE_LEN {
        s
    } else {
        decoded(bytes)
    }
}

/// The sliding-average node with its state.
#[derive(Debug)]
pub struct NodeC {
    buf: [u64; 8],
    pos: u64,
    count: u64,
    total: u64,
}

impl View for NodeC {
    type V = NodeCView;

    closed spec fn view(&self) -> NodeCView {
        NodeCView { buf: self.buf@, pos: self.pos, count: self.count, total: self.total }
    }
}

impl NodeC {
    /// A node that has seen no sample.
    pub fn new() -> (node: NodeC)
        ensures
            node@ == initial(),
            well_formed(node@),
    {
        let node = NodeC { buf: [0, 0, 0, 0, 0, 0, 0, 0], pos: 0, count: 0, total: 0 };
        assert(node@.buf =~= initial().buf);
        node
    }

    /// The kinds of value that the node accepts.
    pub fn accepted_input_types() -> (kinds: Vec<ValueKind>)
        ensures
            kinds@ == seq![ValueKind::F64Val],
    {
        vec![ValueKind::F64Val]
    }

    /// The kind of value that the node emits.
    pub fn output_type() -> (kind: ValueKind)
        ensures
            kind == ValueKind::F64Val,
    {
        ValueKind::F64Val
    }

    /// The name that the node declares.
    pub fn name() -> (name: String)
        ensures
            name@ == "node-c:sliding-avg"@,
    {
        "node-c:sliding-avg".to_owned()
    }

    /// The version that the node declares.
    pub fn version() -> (version: String)
        ensures
            version@ == "0.1.0"@,
    {
        "0.1.0".to_owned()
    }

    /// Every state has a ring of `WINDOW` slots.
    pub proof fn lemma_ring_len(&self)
        ensures
            self@.buf.len() == WINDOW,
    {
    }

    /// Whether the state can take a sample; see [`well_formed`].
    pub fn is_well_formed(&self) -> (ok: bool)
        ensures
            ok == well_formed(self@),
    {
        self.pos < WINDOW && self.count <= WINDOW && self.total < u64::MAX
    }

    /// How many samples were ever taken.
    pub fn total(&self) -> (total: u64)
        ensures
            total == self@.total,
    {
        self.total
    }

    /// The filled slots, in slot order.
    pub fn samples(&self) -> (w: Vec<u64>)
        requires
            self@.count <= WINDOW,
        ensures
            w@ == window(self@),
    {
        let mut w: Vec<u64> = Vec::new();
        let mut i: usize = 0;
        while i < self.count as usize
            invariant
                i <= self.count <= WINDOW,
                w@ == self.buf@.subrange(0, i as int),
            decreases self.count - i,
        {
            w.push(self.buf[i]);
            assert(w@ =~= self.buf@.subrange(0, i + 1));
            i += 1;
        }
        w
    }

    /// The arithmetic mean of the filled slots; see [`averages`].
    pub fn mean<E: Fn(FloatOp) -> u64>(&self, eval: &E) -> (mean: u64)
        requires
            accepts_all(*eval),
            self@.count <= WINDOW,
        ensures
            averages(*eval, window(self@), mean),
    {
        let mut sum: u64 = NEG_ZERO;
        let ghost mut partial: Seq<u64> = seq![NEG_ZERO];
        let mut i: usize = 0;
        while i < self.count as usize
            invariant
                i <= self.count <= WINDOW,
                accepts_all(*eval),
                running_sums(*eval, self.buf@.subrange(0, i as int), partial),
                partial.last() == sum,
            decreases self.count - i,
        {
            let ghost before = partial;
            sum = eval(FloatOp::Add(sum, self.buf[i]));
            proof {
                partial = before.push(sum);
                let more = self.buf@.subrange(0, i + 1);
                assert forall|k: int| 0 <= k < more.len() implies gives(
                    *eval,
                    FloatOp::Add(partial[k], #[trigger] more[k]),
                    partial[k + 1],
                ) by {
                    if k < i {
                        assert(self.buf@.subrange(0, i as int)[k] == more[k]);
                    }
                }
            }
            i += 1;
        }
        let number = eval(FloatOp::FromCount(self.count));
        let mean = eval(FloatOp::Div(sum, number));
        proof {
            let filled = window(self@);
            assert(filled =~= self.buf@.subrange(0, i as int));
            assert(sums(*eval, filled, sum) && gives(
                *eval,
                FloatOp::FromCount(filled.len() as u64),
                number,
            ) && gives(*eval, FloatOp::Div(sum, number), mean));
        }
        mean
    }

    /// Takes one message. A value that is no double is dropped and leaves the
    /// state as it is. Otherwise the sample enters the ring (see [`pushed`])
    /// and exactly one message comes out: the incoming one with its value
    /// replaced by the mean of the slots that are then filled.
    pub fn process<E: Fn(FloatOp) -> u64>(&mut self, msg: FlowMsg, eval: E) -> (out: Vec<FlowMsg>)
        requires
            well_formed(old(self)@),
            accepts_all(eval),
        ensures
            !(msg@.value is F64Val) ==> out@.len() == 0 && final(self)@ == old(self)@,
            msg@.value matches TagValueView::F64Val(v) ==> {
                &&& final(self)@ == pushed(old(self)@, v)
                &&& exists|mean: u64|
                    #![auto]
                    averages(eval, window(final(self)@), mean) && views(out@) == seq![
                        with_double(msg@, mean),
                    ]
            },
    {
        let val: u64 = match msg.value {
            TagValue::F64Val(v) => v,
            _ => {
                return Vec::new();
            },
        };
        self.buf[self.pos as usize] = val;
        self.pos = (self.pos + 1) % WINDOW;
        if self.count < WINDOW {
            self.count += 1;
        }
        self.total += 1;
        assert(self@.buf =~= pushed(old(self)@, val).buf);
        let mean = self.mean(&eval);
        let out = vec![
            FlowMsg {
                tag_id: msg.tag_id,
                msg_id: msg.msg_id,
                value: TagValue::F64Val(mean),
                timestamp: msg.timestamp,
                quality: msg.quality,
            },
        ];
        assert(averages(eval, window(self@), mean) && views(out@) =~= seq![with_double(msg@, mean)]);
        out
    }

    /// This node takes no raw input.
    pub fn process_raw(tag_id: u32, msg_id: u32, raw: Vec<u8>) -> (out: Vec<FlowMsg>)
        ensures
            out@.len() == 0,
    {
        Vec::new()
    }

    /// Saves the state; see [`encoded`].
    pub fn save_state(&self) -> (state: Vec<u8>)
        ensures
            state@ == encoded(self@),
            state@.len() == STATE_LEN,
    {
        proof {
            lemma_auto_spec_u64_to_from_le_bytes();
        }
        let mut state: Vec<u8> = Vec::with_capacity(STATE_LEN);
        let mut k: usize = 0;
        while k < 8
            invariant
                k <= 8,
                state@.len() == 8 * k,
                forall|i: int|
                    0 <= i < 8 * k ==> state@[i] == spec_u64_to_le_bytes(self.buf@[i / 8])[i % 8],
                forall|x: u64| #[trigger] spec_u64_to_le_bytes(x).len() == 8,
            decreases 8 - k,
        {
            let mut word = u64_to_le_bytes(self.buf[k]);
            let ghost before = state@;
            state.append(&mut word);
            assert forall|i: int| 0 <= i < 8 * (k + 1) implies state@[i] == spec_u64_to_le_bytes(
                self.buf@[i / 8],
            )[i % 8] by {
                if i >= 8 * k {
                    assert(i / 8 == k as int);
                    assert(i % 8 == i - 8 * k);
                }
            }
            k += 1;
        }
        let ghost samples = state@;
        let mut word = u64_to_le_bytes(self.pos);
        state.append(&mut word);
        let mut word = u64_to_le_bytes(self.count);
        state.append(&mut word);
        let mut word = u64_to_le_bytes(self.total);
        state.append(&mut word);
        assert(state@ =~= encoded(self@)) by {
            assert forall|i: int| 0 <= i < 88 implies state@[i] == encoded(self@)[i] by {
                if i < 64 {
                    assert(state@[i] == samples[i]);
                } else if i < 72 {
                    assert(i / 8 == 8 && i % 8 == i - 64);
                } else if i < 80 {
                    assert(i / 8 == 9 && i % 8 == i - 72);
                } else {
                    assert(i / 8 == 10 && i % 8 == i - 80);
                }
            }
        }
        state
    }

    /// Loads a saved state; see [`loaded`]. Bytes beyond the first
    /// `STATE_LEN` are ignored. The counters are taken as they are saved:
    /// whether the state can take a sample is for [`NodeC::is_well_formed`]
    /// to tell.
    pub fn load_state(&mut self, state: Vec<u8>)
        ensures
            final(self)@ == loaded(old(self)@, state@),
    {
        if state.len() < STATE_LEN {
            return;
        }
        let bytes = state.as_slice();
        let mut k: usize = 0;
        while k < 8
            invariant
                k <= 8,
                bytes@ == state@,
                bytes@.len() >= STATE_LEN,
                forall|j: int| 0 <= j < k ==> self.buf@[j] == word_at(state@, j),
            decreases 8 - k,
        {
            let word = u64_from_le_bytes(slice_subrange(bytes, k * 8, k * 8 + 8));
            self.buf[k] = word;
            k += 1;
        }
        self.pos = u64_from_le_bytes(slice_subrange(bytes, 64, 72));
        self.count = u64_from_le_bytes(slice_subrange(bytes, 72, 80));
        self.total = u64_from_le_bytes(slice_subrange(bytes, 80, 88));
        assert(self@.buf =~= decoded(state@).buf);
    }
}

/// Saving and loading give the state back: the saved form of a state decodes
/// to that state.
pub proof fn lemma_snapshot_round_trip(s: NodeCView)
    requires
        s.buf.len() == WINDOW,
    ensures
        encoded(s).len() == STATE_LEN,
        decoded(encoded(s)) == s,
        forall|other: NodeCView| loaded(other, encoded(s)) == s,
{
    lemma_auto_spec_u64_to_from_le_bytes();
    let bytes = encoded(s);
    assert forall|k: int| 0 <= k < 11 implies word_at(bytes, k) == word(s, k) by {
        let part = bytes.subrange(8 * k, 8 * k + 8);
        let whole = spec_u64_to_le_bytes(word(s, k));
        assert forall|j: int| 0 <= j < 8 implies part[j] == whole[j] by {
            assert((8 * k + j) / 8 == k);
            assert((8 * k + j) % 8 == j);
        }
        assert(part =~= whole);
    }
    assert(decoded(bytes).buf =~= s.buf);
    assert(decoded(bytes).pos == word(s, 8));
    assert(decoded(bytes).count == word(s, 9));
    assert(decoded(bytes).total == word(s, 10));
}

/// A state restored from a snapshot behaves as the state it was taken from:
/// whatever state the snapshot is loaded into, taking a sample afterwards
/// gives the same state, and the same slots to take the mean of, as taking
/// it in the state that was saved.
pub proof fn lemma_restored_behaves_alike(s: NodeCView, fresh: NodeCView, sample: u64)
    requires
        s.buf.len() == WINDOW,
    ensures
        loaded(fresh, encoded(s)) == s,
        pushed(loaded(fresh, encoded(s)), sample) == pushed(s, sample),
        window(pushed(loaded(fresh, encoded(s)), sample)) == window(pushed(s, sample)),
{
    lemma_snapshot_round_trip(s);
}

/// Taking a sample keeps the ring: its length, a position inside it and at
/// most `WINDOW` filled slots, of which there is then at least one. The
/// sample is in the slot that the position pointed at, and all other slots
/// are as before.
pub proof fn lemma_pushed_keeps_ring(s: NodeCView, sample: u64)
    requires
        well_formed(s),
    ensures
        pushed(s, sample).buf.len() == WINDOW,
        pushed(s, sample).pos < WINDOW,
        1 <= pushed(s, sample).count <= WINDOW,
        pushed(s, sample).total == s.total + 1,
        pushed(s, sample).buf[s.pos as int] == sample,
        forall|k: int| 0 <= k < WINDOW && k != s.pos ==> pushed(s, sample).buf[k] == s.buf[k],
        1 <= window(pushed(s, sample)).len() <= WINDOW,
{
}

/// Byte `i` of a saved state is byte `i % 8` of word `i / 8`, lowest byte
/// first.
pub proof fn lemma_encoded_byte(s: NodeCView, i: int)
    requires
        0 <= i < STATE_LEN,
    ensures
        encoded(s)[i] == ((word(s, i / 8) >> ((8 * (i % 8)) as u64)) & 0xff) as u8,
{
    let w = word(s, i / 8);
    spec_u64_to_le_bytes_to_open(w);
    let k = i % 8;
    if k == 0 {
        assert(w >> 0u64 == w) by (bit_vector);
    } else if k == 1 {
    } else if k == 2 {
    } else if k == 3 {
    } else if k == 4 {
    } else if k == 5 {
    } else if k == 6 {
    } else {
        assert(k == 7);
    }
}

/// With an evaluator that has one answer to each operation, the running sums
/// of some samples are determined.
proof fn lemma_running_sums_unique<E: Fn(FloatOp) -> u64>(
    eval: E,
    samples: Seq<u64>,
    one: Seq<u64>,
    other: Seq<u64>,
    k: int,
)
    requires
        single_valued(eval),
        running_sums(eval, samples, one),
        running_sums(eval, samples, other),
        0 <= k <= samples.len(),
    ensures
        one[k] == other[k],
    decreases k,
{
    if k > 0 {
        lemma_running_sums_unique(eval, samples, one, other, k - 1);
        let op = FloatOp::Add(one[k - 1], samples[k - 1]);
        assert(gives(eval, op, one[k]));
        assert(gives(eval, op, other[k]));
    }
}

/// With an evaluator that has one answer to each operation, some samples
/// have one mean.
pub proof fn lemma_mean_is_determined<E: Fn(FloatOp) -> u64>(
    eval: E,
    samples: Seq<u64>,
    one: u64,
    other: u64,
)
    requires
        single_valued(eval),
        averages(eval, samples, one),
        averages(eval, samples, other),
    ensures
        one == other,
{
    let (sum1, n1) = choose|sum: u64, number: u64|
        #![auto]
        {
            &&& sums(eval, samples, sum)
            &&& gives(eval, FloatOp::FromCount(samples.len() as u64), number)
            &&& gives(eval, FloatOp::Div(sum, number), one)
        };
    let (sum2, n2) = choose|sum: u64, number: u64|
        #![auto]
        {
            &&& sums(eval, samples, sum)
            &&& gives(eval, FloatOp::FromCount(samples.len() as u64), number)
            &&& gives(eval, FloatOp::Div(sum, number), other)
        };
    let p1 = choose|partial: Seq<u64>|
        #[trigger] running_sums(eval, samples, partial) && partial.last() == sum1;
    let p2 = choose|partial: Seq<u64>|
        #[trigger] running_sums(eval, samples, partial) && partial.last() == sum2;
    lemma_running_sums_unique(eval, samples, p1, p2, samples.len() as int);
    assert(sum1 == sum2);
    assert(n1 == n2);
}

/// A node restored from a snapshot emits what the node it was saved from
/// emits. Let a state be saved and loaded into any other state, and let both
/// then take the same message carrying a double, with an evaluator that has
/// one answer to each operation. Then both end in the same state, and the
/// messages they emit are equal in every field: the same identifiers,
/// timestamp and quality, and the same mean, bit for bit.
pub proof fn lemma_restored_emits_alike<E: Fn(FloatOp) -> u64>(
    eval: E,
    s: NodeCView,
    fresh: NodeCView,
    msg: FlowMsgView,
    sample: u64,
    mean: u64,
    restored_mean: u64,
)
    requires
        s.buf.len() == WINDOW,
        single_valued(eval),
        msg.value == TagValueView::F64Val(sample),
        averages(eval, window(pushed(s, sample)), mean),
        averages(eval, window(pushed(loaded(fresh, encoded(s)), sample)), restored_mean),
    ensures
        pushed(loaded(fresh, encoded(s)), sample) == pushed(s, sample),
        with_double(msg, restored_mean) == with_double(msg, mean),
{
    lemma_restored_behaves_alike(s, fresh, sample);
    lemma_mean_is_determined(eval, window(pushed(s, sample)), mean, restored_mean);
}

} // verus!

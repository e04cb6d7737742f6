//! The per-message hot path as a state machine.
//!
//! One message is driven from the source through the intermediate nodes to
//! the sink. The nodes live in sandboxes that this library cannot call, so
//! the dispatcher decides and its caller acts: every step takes what the last
//! plugin call gave and answers with the next call to make, or with the
//! message's outcome.
//!
//! Nodes are counted from 0, the source, to `last`, the sink. Within a node
//! the messages are fed in the order in which the node before emitted them,
//! and what comes out is kept in the order in which it came.
//!
//! Where the node before the sink emitted more than one message, the caller
//! has said which of them the sink gets: see [`SinkFeed`].

use vstd::prelude::*;
use crate::deploy::Pipeline;
use crate::msg_id::{advanced, issued, next_msg_id, MsgIdAllocator};
use crate::registry::{created, valid, TagMeta, TagRegistry};
use crate::types::{views, FlowMsg, FlowMsgView};

verus! {

/// Which of the messages that reach the end of the pipeline the sink is
/// handed.
#[derive(Clone, Copy, Debug, PartialEq, Eq, Structural)]
pub enum SinkFeed {
    /// The first one only: a message that fanned out on its way is delivered
    /// once.
    First,
    /// Each of them, in order.
    Each,
}

/// How a message ended.
#[derive(Clone, Copy, Debug, PartialEq, Eq, Structural)]
pub enum Outcome {
    /// Node `stage` emitted nothing for it.
    Dropped { stage: usize },
    /// The sink took it.
    Delivered,
    /// The call into node `stage` failed.
    Failed { stage: usize },
}

/// What the last plugin call gave.
#[derive(Debug)]
pub enum Event {
    /// The call returned these messages. What a sink returns is ignored.
    Emitted(Vec<FlowMsg>),
    /// The call failed.
    Failed,
}

/// Mathematical view of an [`Event`].
pub enum EventView {
    Emitted(Seq<FlowMsgView>),
    Failed,
}

impl View for Event {
    type V = EventView;

    open spec fn view(&self) -> EventView {
        match *self {
            Event::Emitted(msgs) => EventView::Emitted(views(msgs@)),
            Event::Failed => EventView::Failed,
        }
    }
}

/// What the caller is to do next.
#[derive(Debug)]
pub enum Action {
    /// Hand the raw record to the source, with these identifiers.
    ProcessRaw { tag_id: u32, msg_id: u32 },
    /// Hand `msg` to the intermediate node `node`.
    Process { node: usize, msg: FlowMsg },
    /// Hand `msg` to the sink, which is node `node`.
    Sink { node: usize, msg: FlowMsg },
    /// Nothing more: the message ended this way.
    Done(Outcome),
}

/// Mathematical view of an [`Action`].
pub enum ActionView {
    ProcessRaw { tag_id: u32, msg_id: u32 },
    Process { node: usize, msg: FlowMsgView },
    Sink { node: usize, msg: FlowMsgView },
    Done(Outcome),
}

impl View for Action {
    type V = ActionView;

    open spec fn view(&self) -> ActionView {
        match *self {
            Action::ProcessRaw { tag_id, msg_id } => ActionView::ProcessRaw { tag_id, msg_id },
            Action::Process { node, msg } => ActionView::Process { node, msg: msg@ },
            Action::Sink { node, msg } => ActionView::Sink { node, msg: msg@ },
            Action::Done(outcome) => ActionView::Done(outcome),
        }
    }
}

/// Mathematical view of a dispatch in progress.
pub struct DispatchView {
    pub tag_id: u32,
    pub msg_id: u32,
    /// Number of the sink.
    pub last: usize,
    /// Which messages the sink is handed.
    pub feed: SinkFeed,
    /// Number of the node whose answer is awaited.
    pub at: usize,
    /// The messages for node `at`; none for the source.
    pub inputs: Seq<FlowMsgView>,
    /// Which of `inputs` node `at` was handed last.
    pub fed: int,
    /// What node `at` has emitted so far.
    pub outputs: Seq<FlowMsgView>,
    /// How the message ended, once it has.
    pub outcome: Option<Outcome>,
}

/// What holds of every dispatch: there is a sink after the source, the
/// awaited node exists, and an intermediate node or sink was handed one of
/// its inputs.
pub open spec fn coherent(s: DispatchView) -> bool {
    &&& 1 <= s.last
    &&& s.at <= s.last
    &&& s.at == 0 ==> s.inputs.len() == 0 && s.fed == 0
    &&& s.at > 0 ==> 0 <= s.fed < s.inputs.len()
}

/// The dispatch of a message that was just handed to the source.
pub open spec fn started(tag_id: u32, msg_id: u32, last: usize, feed: SinkFeed) -> DispatchView {
    DispatchView {
        tag_id,
        msg_id,
        last,
        feed,
        at: 0,
        inputs: Seq::empty(),
        fed: 0,
        outputs: Seq::empty(),
        outcome: None,
    }
}

/// The dispatch `s` ended with `outcome`.
pub open spec fn ended(s: DispatchView, outcome: Outcome) -> DispatchView {
    DispatchView { outcome: Some(outcome), ..s }
}

/// The call that hands message `msg` to node `node`: a sink call for the
/// last node, a process call for any other.
pub open spec fn call_to(last: usize, node: usize, msg: FlowMsgView) -> ActionView {
    if node == last {
        ActionView::Sink { node, msg }
    } else {
        ActionView::Process { node, msg }
    }
}

/// One step of the dispatcher: the dispatch afterwards and what to do next.
///
/// - A dispatch that has ended stays as it is and answers with its outcome.
/// - A failed call ends the message as failed at the awaited node.
/// - An answer from the sink is followed by the sink's next input, where
///   the sink is handed each of its inputs and has some left; otherwise it
///   ends the message as delivered.
/// - An answer from another node is appended to what that node emitted. If
///   the node has inputs left, the next one is handed to it. Otherwise, if
///   it emitted nothing, the message is dropped there; else the next node
///   becomes the awaited one, its inputs are what this node emitted, and it
///   is handed the first of them.
pub open spec fn step_of(s: DispatchView, event: EventView) -> (DispatchView, ActionView) {
    match s.outcome {
        Some(outcome) => (s, ActionView::Done(outcome)),
        None => match event {
            EventView::Failed => {
                let outcome = Outcome::Failed { stage: s.at };
                (ended(s, outcome), ActionView::Done(outcome))
            },
            EventView::Emitted(msgs) => {
                if s.at == s.last {
                    if s.feed is Each && s.fed + 1 < s.inputs.len() {
                        (
                            DispatchView { fed: s.fed + 1, ..s },
                            ActionView::Sink { node: s.at, msg: s.inputs[s.fed + 1] },
                        )
                    } else {
                        (ended(s, Outcome::Delivered), ActionView::Done(Outcome::Delivered))
                    }
                } else {
                    let outputs = s.outputs + msgs;
                    if s.fed + 1 < s.inputs.len() {
                        (
                            DispatchView { fed: s.fed + 1, outputs, ..s },
                            ActionView::Process { node: s.at, msg: s.inputs[s.fed + 1] },
                        )
                    } else if outputs.len() == 0 {
                        let outcome = Outcome::Dropped { stage: s.at };
                        (
                            DispatchView { outputs, outcome: Some(outcome), ..s },
                            ActionView::Done(outcome),
                        )
                    } else {
                        let node = (s.at + 1) as usize;
                        (
                            DispatchView {
                                at: node,
                                inputs: outputs,
                                fed: 0,
                                outputs: Seq::empty(),
                                ..s
                            },
                            call_to(s.last, node, outputs[0]),
                        )
                    }
                }
            },
        },
    }
}

/// The dispatch of one message.
#[derive(Debug)]
pub struct Dispatch {
    tag_id: u32,
    msg_id: u32,
    last: usize,
    feed: SinkFeed,
    at: usize,
    inputs: Vec<FlowMsg>,
    fed: usize,
    outputs: Vec<FlowMsg>,
    outcome: Option<Outcome>,
}

impl View for Dispatch {
    type V = DispatchView;

    closed spec fn view(&self) -> DispatchView {
        DispatchView {
            tag_id: self.tag_id,
            msg_id: self.msg_id,
            last: self.last,
            feed: self.feed,
            at: self.at,
            inputs: views(self.inputs@),
            fed: self.fed as int,
            outputs: views(self.outputs@),
            outcome: self.outcome,
        }
    }
}

impl Dispatch {
    #[verifier::type_invariant]
    spec fn well_formed(&self) -> bool {
        coherent(self@)
    }

    /// Starts the dispatch of a message through a pipeline whose sink is node
    /// `last`. The first thing to do is to hand the raw record to the source.
    pub fn begin(tag_id: u32, msg_id: u32, last: usize, feed: SinkFeed) -> (start: (
        Dispatch,
        Action,
    ))
        requires
            last >= 1,
        ensures
            start.0@ == started(tag_id, msg_id, last, feed),
            start.1@ == (ActionView::ProcessRaw { tag_id, msg_id }),
            coherent(start.0@),
    {
        let dispatch = Dispatch {
            tag_id,
            msg_id,
            last,
            feed,
            at: 0,
            inputs: Vec::new(),
            fed: 0,
            outputs: Vec::new(),
            outcome: None,
        };
        assert(dispatch@.inputs =~= Seq::empty());
        assert(dispatch@.outputs =~= Seq::empty());
        (dispatch, Action::ProcessRaw { tag_id, msg_id })
    }

    /// How the message ended, once it has.
    pub fn outcome(&self) -> (outcome: Option<Outcome>)
        ensures
            outcome == self@.outcome,
    {
        self.outcome
    }

    /// The identifiers of the message: the tag's number, then the message's.
    pub fn ids(&self) -> (ids: (u32, u32))
        ensures
            ids == (self@.tag_id, self@.msg_id),
    {
        (self.tag_id, self.msg_id)
    }

    /// Takes what the last call gave and says what to do next; see
    /// [`step_of`].
    pub fn step(self, event: Event) -> (next: (Dispatch, Action))
        ensures
            (next.0@, next.1@) == step_of(self@, event@),
            coherent(self@),
            coherent(next.0@),
    {
        proof {
            use_type_invariant(&self);
        }
        let ghost before = self@;
        let Dispatch { tag_id, msg_id, last, feed, at, inputs, fed, outputs, outcome } = self;
        assert(before.inputs.len() == inputs@.len());
        assert(fed < inputs@.len() || (fed == 0 && inputs@.len() == 0));
        if let Some(o) = outcome {
            let same = Dispatch { tag_id, msg_id, last, feed, at, inputs, fed, outputs, outcome };
            return (same, Action::Done(o));
        }
        let mut msgs = match event {
            Event::Failed => {
                let o = Outcome::Failed { stage: at };
                let end = Dispatch { tag_id, msg_id, last, feed, at, inputs, fed, outputs, outcome: Some(o) };
                return (end, Action::Done(o));
            },
            Event::Emitted(msgs) => msgs,
        };
        if at == last {
            let waiting = inputs.len();
            if feed == SinkFeed::Each && fed + 1 < waiting {
                let msg = inputs[fed + 1].clone();
                let more = Dispatch {
                    tag_id,
                    msg_id,
                    last,
                    feed,
                    at,
                    inputs,
                    fed: fed + 1,
                    outputs,
                    outcome: None,
                };
                return (more, Action::Sink { node: at, msg });
            }
            let o = Outcome::Delivered;
            let end = Dispatch { tag_id, msg_id, last, feed, at, inputs, fed, outputs, outcome: Some(o) };
            return (end, Action::Done(o));
        }
        let mut outputs = outputs;
        let ghost emitted = views(msgs@);
        let ghost earlier = views(outputs@);
        outputs.append(&mut msgs);
        assert(views(outputs@) =~= earlier + emitted);
        let waiting = inputs.len();
        if fed + 1 < waiting {
            let msg = inputs[fed + 1].clone();
            let more = Dispatch { tag_id, msg_id, last, feed, at, inputs, fed: fed + 1, outputs, outcome: None };
            return (more, Action::Process { node: at, msg });
        }
        if outputs.len() == 0 {
            let o = Outcome::Dropped { stage: at };
            let end = Dispatch { tag_id, msg_id, last, feed, at, inputs, fed, outputs, outcome: Some(o) };
            return (end, Action::Done(o));
        }
        let node = at + 1;
        let msg = outputs[0].clone();
        let on = Dispatch {
            tag_id,
            msg_id,
            last,
            feed,
            at: node,
            inputs: outputs,
            fed: 0,
            outputs: Vec::new(),
            outcome: None,
        };
        assert(on@.outputs =~= Seq::empty());
        if node == last {
            (on, Action::Sink { node, msg })
        } else {
            (on, Action::Process { node, msg })
        }
    }
}

/// Takes a record in: finds or assigns the tag's number, assigns the message
/// its identifier, and starts the dispatch through `pipeline`. The metadata
/// `template` is kept only when the tag is new.
///
/// The pipeline needs a source and a sink, and a new tag needs a number that
/// is still free.
pub fn ingest(
    pipeline: &Pipeline,
    registry: &mut TagRegistry,
    allocator: &mut MsgIdAllocator,
    tag_name: &str,
    template: TagMeta,
    feed: SinkFeed,
) -> (start: (Dispatch, Action))
    requires
        pipeline@.len() >= 2,
        old(registry)@.ids.contains_key(tag_name@) || old(registry)@.next_id < u32::MAX,
    ensures
        final(registry)@ == created(old(registry)@, tag_name@, template@).0,
        valid(final(registry)@),
        final(allocator).counter() == advanced(old(allocator).counter()),
        start.0@ == started(
            created(old(registry)@, tag_name@, template@).1,
            issued(old(allocator).counter()),
            (pipeline@.len() - 1) as usize,
            feed,
        ),
        start.1@ == (ActionView::ProcessRaw {
            tag_id: start.0@.tag_id,
            msg_id: start.0@.msg_id,
        }),
        start.0@.msg_id != 0,
        start.0@.tag_id >= 1,
{
    let tag_id = registry.get_or_create(tag_name, template);
    let msg_id = next_msg_id(allocator);
    Dispatch::begin(tag_id, msg_id, pipeline.len() - 1, feed)
}

/// What the dispatcher answers to a run of events, one action for each.
pub open spec fn actions(s: DispatchView, events: Seq<EventView>) -> Seq<ActionView>
    decreases events.len(),
{
    if events.len() == 0 {
        Seq::empty()
    } else {
        seq![step_of(s, events[0]).1] + actions(step_of(s, events[0]).0, events.drop_first())
    }
}

/// A step keeps a dispatch coherent and keeps its sink.
pub proof fn lemma_step_coherent(s: DispatchView, event: EventView)
    requires
        coherent(s),
    ensures
        coherent(step_of(s, event).0),
        step_of(s, event).0.last == s.last,
        step_of(s, event).0.feed == s.feed,
        !(step_of(s, event).1 is ProcessRaw),
{
}

/// There is one action for each event, and the actions after the first are
/// those of the dispatch after the first step.
proof fn lemma_actions_unfold(s: DispatchView, events: Seq<EventView>, i: int)
    requires
        0 <= i < events.len(),
    ensures
        actions(s, events).len() == events.len(),
        i == 0 ==> actions(s, events)[i] == step_of(s, events[0]).1,
        i > 0 ==> actions(s, events)[i] == actions(
            step_of(s, events[0]).0,
            events.drop_first(),
        )[i - 1],
    decreases events.len(),
{
    lemma_actions_len(s, events);
    lemma_actions_len(step_of(s, events[0]).0, events.drop_first());
}

proof fn lemma_actions_len(s: DispatchView, events: Seq<EventView>)
    ensures
        actions(s, events).len() == events.len(),
    decreases events.len(),
{
    if events.len() > 0 {
        lemma_actions_len(step_of(s, events[0]).0, events.drop_first());
    }
}

/// A dispatch that has ended answers every event with its outcome.
proof fn lemma_ended_stays(s: DispatchView, events: Seq<EventView>, i: int)
    requires
        s.outcome is Some,
        0 <= i < events.len(),
    ensures
        actions(s, events)[i] == ActionView::Done(s.outcome->0),
    decreases events.len(),
{
    lemma_actions_unfold(s, events, i);
    if i > 0 {
        lemma_ended_stays(s, events.drop_first(), i - 1);
    }
}

/// A dispatch that awaits a sink that is handed one message answers every
/// event with the same end: delivered, or failed at the sink.
proof fn lemma_at_sink(s: DispatchView, events: Seq<EventView>, i: int)
    requires
        coherent(s),
        s.feed is First,
        s.outcome is None,
        s.at == s.last,
        0 <= i < events.len(),
    ensures
        actions(s, events)[i] == ActionView::Done(Outcome::Delivered) || actions(s, events)[i]
            == ActionView::Done(Outcome::Failed { stage: s.last }),
        actions(s, events)[i] == actions(s, events)[0],
    decreases events.len(),
{
    lemma_actions_unfold(s, events, i);
    lemma_actions_unfold(s, events, 0);
    if i > 0 {
        lemma_ended_stays(step_of(s, events[0]).0, events.drop_first(), i - 1);
    }
}

/// A message has one outcome: once the dispatcher has answered with an
/// outcome, it answers every later event with that same outcome.
pub proof fn lemma_outcome_is_final(s: DispatchView, events: Seq<EventView>, i: int, j: int)
    requires
        coherent(s),
        0 <= i <= j < events.len(),
        actions(s, events)[i] is Done,
    ensures
        actions(s, events)[j] == actions(s, events)[i],
    decreases events.len(),
{
    lemma_actions_unfold(s, events, i);
    lemma_actions_unfold(s, events, j);
    let t = step_of(s, events[0]).0;
    let rest = events.drop_first();
    lemma_step_coherent(s, events[0]);
    if i == 0 {
        if j > 0 {
            lemma_ended_stays(t, rest, j - 1);
        }
    } else {
        lemma_outcome_is_final(t, rest, i - 1, j - 1);
    }
}

/// Where the sink is handed the first message only, a message reaches the
/// sink at most once, and never when it was dropped:
/// if the dispatcher answers event `i` with a sink call, then every earlier
/// answer was a call to an intermediate node, and every later answer is the
/// same end, delivered or failed at the sink. So no other answer is a sink
/// call, and none is a drop.
pub proof fn lemma_sink_once(s: DispatchView, events: Seq<EventView>, i: int, k: int)
    requires
        coherent(s),
        s.feed is First,
        0 <= i < events.len(),
        0 <= k < events.len(),
        actions(s, events)[i] is Sink,
    ensures
        k < i ==> actions(s, events)[k] is Process,
        k > i ==> actions(s, events)[k] == ActionView::Done(Outcome::Delivered) || actions(
            s,
            events,
        )[k] == ActionView::Done(Outcome::Failed { stage: s.last }),
        k != i ==> !(actions(s, events)[k] is Sink),
    decreases events.len(),
{
    lemma_actions_unfold(s, events, i);
    lemma_actions_unfold(s, events, k);
    lemma_actions_unfold(s, events, 0);
    let t = step_of(s, events[0]).0;
    let first = step_of(s, events[0]).1;
    let rest = events.drop_first();
    lemma_step_coherent(s, events[0]);
    if i == 0 {
        if k > 0 {
            lemma_at_sink(t, rest, k - 1);
        }
    } else {
        if first is Done {
            lemma_ended_stays(t, rest, i - 1);
        } else if first is Sink {
            lemma_at_sink(t, rest, i - 1);
        }
        assert(first is Process);
        if k > 0 {
            lemma_sink_once(t, rest, i - 1, k - 1);
        }
    }
}

/// The dispatch after a run of events.
pub open spec fn state_after(s: DispatchView, events: Seq<EventView>) -> DispatchView
    decreases events.len(),
{
    if events.len() == 0 {
        s
    } else {
        state_after(step_of(s, events[0]).0, events.drop_first())
    }
}

/// The answers of one node, one after another in the order in which they came.
pub open spec fn concatenated(answers: Seq<Seq<FlowMsgView>>) -> Seq<FlowMsgView>
    decreases answers.len(),
{
    if answers.len() == 0 {
        Seq::empty()
    } else {
        answers[0] + concatenated(answers.drop_first())
    }
}

/// The events in which a node gives the answers `answers`, one after another.
pub open spec fn emissions(answers: Seq<Seq<FlowMsgView>>) -> Seq<EventView> {
    answers.map_values(|msgs: Seq<FlowMsgView>| EventView::Emitted(msgs))
}

/// How many answers the awaited node still owes: one for the source, and for
/// any other node one for the input it was handed and one for each input
/// after that.
pub open spec fn owed(s: DispatchView) -> int {
    if s.at == 0 {
        1
    } else {
        s.inputs.len() - s.fed
    }
}

/// A node is fed each of its inputs once, in order, and what it emits is
/// passed on whole and in order.
///
/// Let the awaited node be before the sink and give all the answers it owes,
/// without failing. Then while answers are owed, the dispatcher hands the
/// node its next input: answer `i` is followed by the input after the one
/// that answer `i` was for. After the last answer, the message is dropped at
/// this node if all answers were empty; otherwise the next node becomes the
/// awaited one, its inputs are this node's answers joined in order, after
/// what the node had emitted before, and it is handed the first of them.
pub proof fn lemma_node_is_fed_in_order(s: DispatchView, answers: Seq<Seq<FlowMsgView>>, i: int)
    requires
        coherent(s),
        s.outcome is None,
        s.at < s.last,
        answers.len() == owed(s),
        0 <= i < answers.len(),
    ensures
        i + 1 < answers.len() ==> actions(s, emissions(answers))[i] == (ActionView::Process {
            node: s.at,
            msg: s.inputs[s.fed + 1 + i],
        }),
        i + 1 == answers.len() && (s.outputs + concatenated(answers)).len() == 0 ==> {
            &&& actions(s, emissions(answers))[i] == ActionView::Done(
                Outcome::Dropped { stage: s.at },
            )
            &&& state_after(s, emissions(answers)).outcome == Some(Outcome::Dropped { stage: s.at })
        },
        i + 1 == answers.len() && (s.outputs + concatenated(answers)).len() > 0 ==> {
            &&& actions(s, emissions(answers))[i] == call_to(
                s.last,
                (s.at + 1) as usize,
                (s.outputs + concatenated(answers))[0],
            )
            &&& state_after(s, emissions(answers)) == (DispatchView {
                at: (s.at + 1) as usize,
                inputs: s.outputs + concatenated(answers),
                fed: 0,
                outputs: Seq::empty(),
                ..s
            })
        },
    decreases answers.len(),
{
    let events = emissions(answers);
    let t = step_of(s, events[0]).0;
    let rest = answers.drop_first();
    lemma_actions_unfold(s, events, i);
    lemma_step_coherent(s, events[0]);
    assert(events.drop_first() =~= emissions(rest));
    assert(events[0] == EventView::Emitted(answers[0]));
    if answers.len() == 1 {
        assert(concatenated(rest) =~= Seq::empty());
        assert(s.outputs + concatenated(answers) =~= s.outputs + answers[0]);
        assert(state_after(t, emissions(rest)) == t);
    } else {
        assert(s.at > 0);
        assert(t == DispatchView { fed: s.fed + 1, outputs: s.outputs + answers[0], ..s });
        assert(t.outputs + concatenated(rest) =~= s.outputs + concatenated(answers));
        if i > 0 {
            lemma_node_is_fed_in_order(t, rest, i - 1);
        }
    }
}

/// Where the sink is handed each message, it is handed every one of its
/// inputs once, in order, and the message ends as delivered after the last:
/// while the sink owes answers, answer `i` is followed by the input after
/// the one that answer `i` was for. What the sink answers is ignored.
pub proof fn lemma_sink_is_fed_in_order(s: DispatchView, answers: Seq<Seq<FlowMsgView>>, i: int)
    requires
        coherent(s),
        s.outcome is None,
        s.at == s.last,
        s.feed is Each,
        answers.len() == owed(s),
        0 <= i < answers.len(),
    ensures
        i + 1 < answers.len() ==> actions(s, emissions(answers))[i] == (ActionView::Sink {
            node: s.last,
            msg: s.inputs[s.fed + 1 + i],
        }),
        i + 1 == answers.len() ==> actions(s, emissions(answers))[i] == ActionView::Done(
            Outcome::Delivered,
        ),
        state_after(s, emissions(answers)).outcome == Some(Outcome::Delivered),
    decreases answers.len(),
{
    let events = emissions(answers);
    let t = step_of(s, events[0]).0;
    let rest = answers.drop_first();
    lemma_actions_unfold(s, events, i);
    lemma_step_coherent(s, events[0]);
    assert(events.drop_first() =~= emissions(rest));
    assert(events[0] == EventView::Emitted(answers[0]));
    if answers.len() == 1 {
        assert(state_after(t, emissions(rest)) == t);
    } else {
        assert(t == DispatchView { fed: s.fed + 1, ..s });
        if i > 0 {
            lemma_sink_is_fed_in_order(t, rest, i - 1);
        } else {
            lemma_sink_is_fed_in_order(t, rest, 0);
        }
    }
}

} // verus!

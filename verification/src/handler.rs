//! The protocol runtime: the handshake that names the node, and the rules
//! by which every later input is answered or passed over.

use vstd::prelude::*;
use crate::types::{
    answers, reply_to, Body, BodyView, Message, MessageView, RequestBody, RequestView,
    ResponseBody, ResponseView,
};
use crate::utils::{DecodeError, Failure};

verus! {

/// What the handshake tells a node about itself.
#[derive(Clone, Debug, PartialEq, Eq)]
pub enum State {
    Id { id: String },
}

/// What became of one input after the handshake: a response to write, or a
/// failure to report, after which the run goes on.
#[derive(Clone, Debug, PartialEq, Eq)]
pub enum Step {
    Write(Message),
    Report(Failure),
}

/// A step as a mathematical value.
pub enum StepView {
    Write(MessageView),
    Report(Failure),
}

impl View for Step {
    type V = StepView;

    open spec fn view(&self) -> StepView {
        match self {
            Step::Write(response) => StepView::Write(response@),
            Step::Report(failure) => StepView::Report(*failure),
        }
    }
}

/// One input after the other, each as a mathematical value: a message, or
/// the reason for which a line was none.
pub open spec fn items_view(inputs: Seq<Result<Message, DecodeError>>) -> Seq<
    Result<MessageView, DecodeError>,
> {
    inputs.map_values(
        |input: Result<Message, DecodeError>|
            match input {
                Ok(message) => Ok(message@),
                Err(error) => Err(error),
            },
    )
}

/// The steps as mathematical values, one for one.
pub open spec fn steps_view(steps: Seq<Step>) -> Seq<StepView> {
    steps.map_values(|step: Step| step@)
}

/// What one input after the handshake does to a node. A line that was no
/// message is reported and leaves the node as it is. A message goes to the
/// node's `step`: its response is written, its failure reported.
pub open spec fn follows<M: Machine>(
    before: M,
    item: Result<MessageView, DecodeError>,
    after: M,
    step: StepView,
) -> bool {
    match item {
        Err(error) => step == StepView::Report(Failure::Decode(error)) && after == before,
        Ok(input) => match step {
            StepView::Write(response) => before.steps(input, &after, Ok(response)) && answers(
                response,
                input,
            ),
            StepView::Report(failure) => before.steps(input, &after, Err(failure)),
        },
    }
}

/// A run on `items`: the node goes through `states`, one input after the
/// other, and `steps` holds what became of each input.
pub open spec fn trace<M: Machine>(
    states: Seq<M>,
    items: Seq<Result<MessageView, DecodeError>>,
    steps: Seq<StepView>,
) -> bool {
    &&& states.len() == items.len() + 1
    &&& steps.len() == items.len()
    &&& forall|k: int|
        0 <= k < items.len() ==> follows(states[k], items[k], states[k + 1], #[trigger] steps[k])
}

/// Some run on `items` leads the node from `before` to `after` with `steps`.
pub open spec fn runs<M: Machine>(
    before: M,
    items: Seq<Result<MessageView, DecodeError>>,
    after: M,
    steps: Seq<StepView>,
) -> bool {
    exists|states: Seq<M>|
        #[trigger] trace(states, items, steps) && states.first() == before && states.last()
            == after
}

/// The result of a step, with the response as a mathematical value.
pub open spec fn outcome_view(result: Result<Message, Failure>) -> Result<MessageView, Failure> {
    match result {
        Ok(response) => Ok(response@),
        Err(failure) => Err(failure),
    }
}

/// What the handshake makes of its input: `init_ok` for an `init` request,
/// a failure for anything else.
pub open spec fn handshake_outcome(input: MessageView) -> Result<MessageView, Failure> {
    match input.body {
        BodyView::Request { body: RequestView::Init { .. }, .. } => Ok(
            reply_to(input, ResponseView::InitOk),
        ),
        BodyView::Request { .. } => Err(Failure::NotInit),
        BodyView::Response { .. } => Err(Failure::NotARequest),
    }
}

/// The answer of the handshake to a request: `init_ok` to an `init`, a
/// failure to any other kind.
pub fn acknowledge(_msg_id: usize, body: RequestBody) -> (answer: Result<ResponseBody, Failure>)
    ensures
        body is Init ==> (answer matches Ok(made) && made is InitOk),
        !(body is Init) ==> answer matches Err(Failure::NotInit),
{
    match body {
        RequestBody::Init { .. } => Ok(ResponseBody::InitOk {  }),
        _ => Err(Failure::NotInit),
    }
}

/// A node behavior: how a node of one kind answers requests, and how it
/// remembers the name that the handshake gives it.
pub trait Machine: Sized {
    /// The name that the node has been given, if it has one.
    spec fn name(&self) -> Option<Seq<char>>;

    /// `after` is this node once it has been given `name`.
    spec fn renamed(&self, name: Seq<char>, after: &Self) -> bool;

    /// A step of this node on `input` may end in `outcome` and leave the
    /// node as `after`.
    spec fn steps(
        &self,
        input: MessageView,
        after: &Self,
        outcome: Result<MessageView, Failure>,
    ) -> bool;

    /// Remembers the name that the handshake gave.
    fn set_state(&mut self, state: State)
        ensures
            old(self).renamed(state->id@, final(self)),
            final(self).name() == Some(state->id@),
    ;

    /// Answers one request. A response always answers the request it was
    /// made for, and the node's name stays as it is.
    fn step(&mut self, input: Message) -> (result: Result<Message, Failure>)
        ensures
            old(self).steps(input@, final(self), outcome_view(result)),
            final(self).name() == old(self).name(),
            result matches Ok(response) ==> answers(response@, input@),
    ;

    /// The handshake. An `init` request names the node and is answered by
    /// `init_ok`. Any other message fails and leaves the node as it is.
    fn handshake(&mut self, input: Message) -> (result: Result<Message, Failure>)
        ensures
            outcome_view(result) == handshake_outcome(input@),
            match result {
                Ok(_) => old(self).renamed(input@.body->Request_body->node_id, final(self))
                    && final(self).name() == Some(input@.body->Request_body->node_id),
                Err(_) => *final(self) == *old(self),
            },
    {
        let name = match &input.body {
            Body::Request { body: RequestBody::Init { node_id, .. }, .. } => Some(node_id.clone()),
            _ => None,
        };
        let result = input.respond(acknowledge);
        match (name, &result) {
            (Some(id), Ok(_)) => {
                self.set_state(State::Id { id });
            },
            _ => {},
        }
        result
    }
}

/// Takes one input after the handshake. A line that was no message is
/// reported, and so is a request that the node fails on; the response
/// to any other request is to be written.
pub fn dispatch<M: Machine>(machine: &mut M, input: Result<Message, DecodeError>) -> (step: Step)
    ensures
        follows(*old(machine), items_view(seq![input])[0], *final(machine), step@),
{
    match input {
        Ok(message) => match machine.step(message) {
            Ok(response) => Step::Write(response),
            Err(failure) => Step::Report(failure),
        },
        Err(error) => Step::Report(Failure::Decode(error)),
    }
}

/// Takes the inputs that follow the handshake, in their order, and
/// says for each what became of it. No failure stops the run.
pub fn run<M: Machine>(machine: &mut M, inputs: Vec<Result<Message, DecodeError>>) -> (steps: Vec<Step>)
    ensures
        runs(*old(machine), items_view(inputs@), *final(machine), steps_view(steps@)),
{
    let ghost items = items_view(inputs@);
    let ghost mut states: Seq<M> = seq![*machine];
    let mut steps: Vec<Step> = Vec::new();
    for input in it: inputs
        invariant
            it.seq() == inputs@,
            items == items_view(inputs@),
            states.len() == it.index() + 1,
            states.first() == *old(machine),
            states.last() == *machine,
            steps@.len() == it.index(),
            forall|k: int|
                0 <= k < it.index() ==> follows(
                    states[k],
                    items[k],
                    states[k + 1],
                    #[trigger] steps_view(steps@)[k],
                ),
    {
        let ghost k = it.index() as int;
        let ghost done = steps_view(steps@);
        assert(items_view(seq![input])[0] == items[k]);
        let step = dispatch(machine, input);
        steps.push(step);
        proof {
            states = states.push(*machine);
            assert forall|j: int| 0 <= j < k + 1 implies follows(
                states[j],
                items[j],
                states[j + 1],
                #[trigger] steps_view(steps@)[j],
            ) by {
                if j < k {
                    assert(steps_view(steps@)[j] == done[j]);
                }
            }
        }
    }
    assert(trace(states, items, steps_view(steps@)));
    steps
}

/// What a whole run makes of its input. Without a first item, with a first
/// line that was no message, or with a first message that is no `init`
/// request, the run fails and nothing is written. Else the first step
/// writes `init_ok`, the node gets its name, and the items that follow are
/// taken one by one.
pub open spec fn handled<M: Machine>(
    before: M,
    items: Seq<Result<MessageView, DecodeError>>,
    result: Result<Seq<StepView>, Failure>,
) -> bool {
    if items.len() == 0 {
        result == Err::<Seq<StepView>, Failure>(Failure::NoHandshake)
    } else {
        match items[0] {
            Err(error) => result == Err::<Seq<StepView>, Failure>(Failure::Decode(error)),
            Ok(first) => match handshake_outcome(first) {
                Err(failure) => result == Err::<Seq<StepView>, Failure>(failure),
                Ok(greeting) => {
                    &&& result is Ok
                    &&& result->Ok_0.len() == items.len()
                    &&& result->Ok_0[0] == StepView::Write(greeting)
                    &&& exists|named: M, last: M|
                        {
                            &&& before.renamed(first.body->Request_body->node_id, &named)
                            &&& named.name() == Some(first.body->Request_body->node_id)
                            &&& #[trigger] runs(named, items.skip(1), last, result->Ok_0.skip(1))
                        }
                },
            },
        }
    }
}

/// The result of a whole run, with the steps as mathematical values.
pub open spec fn handled_view(result: Result<Vec<Step>, Failure>) -> Result<
    Seq<StepView>,
    Failure,
> {
    match result {
        Ok(steps) => Ok(steps_view(steps@)),
        Err(failure) => Err(failure),
    }
}

/// Runs a node on a whole input: the handshake on the first item, then
/// every other item in its order.
pub fn handle<M: Machine>(machine: M, inputs: Vec<Result<Message, DecodeError>>) -> (result:
    Result<Vec<Step>, Failure>)
    ensures
        handled(machine, items_view(inputs@), handled_view(result)),
{
    let mut machine = machine;
    let mut rest = inputs;
    if rest.len() == 0 {
        return Err(Failure::NoHandshake);
    }
    let ghost before = machine;
    let ghost items = items_view(inputs@);
    let first = rest.remove(0);
    assert(items_view(rest@) =~= items.skip(1));
    let first = match first {
        Ok(first) => first,
        Err(error) => {
            return Err(Failure::Decode(error));
        },
    };
    let greeting = match machine.handshake(first) {
        Ok(greeting) => greeting,
        Err(failure) => {
            return Err(failure);
        },
    };
    let ghost named = machine;
    let mut steps = run(&mut machine, rest);
    let ghost later = steps_view(steps@);
    steps.insert(0, Step::Write(greeting));
    assert(steps_view(steps@).skip(1) =~= later);
    assert(runs(named, items.skip(1), machine, steps_view(steps@).skip(1)));
    Ok(steps)
}

/// The responses that a run writes, in the order in which it writes them.
pub open spec fn written(steps: Seq<StepView>) -> Seq<MessageView>
    decreases steps.len(),
{
    if steps.len() == 0 {
        Seq::empty()
    } else {
        match steps.last() {
            StepView::Write(response) => written(steps.drop_last()).push(response),
            StepView::Report(_) => written(steps.drop_last()),
        }
    }
}

/// A run whose first message is no `init` request fails: it yields no
/// steps, so nothing is written.
pub proof fn lemma_handshake_required<M: Machine>(
    before: M,
    items: Seq<Result<MessageView, DecodeError>>,
    result: Result<Seq<StepView>, Failure>,
)
    requires
        handled(before, items, result),
        items.len() > 0,
        !(items[0] matches Ok(first) && first.body matches BodyView::Request {
            body,
            ..
        } && body is Init),
    ensures
        result is Err,
{
}

/// Every response that a run writes answers the input of its own step:
/// it goes back to the sender and names the request's `msg_id`. It stands
/// in the output behind the responses of all earlier steps.
pub proof fn lemma_written_in_order<M: Machine>(
    states: Seq<M>,
    items: Seq<Result<MessageView, DecodeError>>,
    steps: Seq<StepView>,
    k: int,
)
    requires
        trace(states, items, steps),
        0 <= k < steps.len(),
        steps[k] is Write,
    ensures
        items[k] is Ok,
        answers(steps[k]->Write_0, items[k]->Ok_0),
        written(steps.take(k)).len() < written(steps).len(),
        written(steps)[written(steps.take(k)).len() as int] == steps[k]->Write_0,
{
    lemma_written_prefix(steps, k + 1);
    let longer = steps.take(k + 1);
    assert(longer.drop_last() =~= steps.take(k));
    assert(longer.last() == steps[k]);
    let at = written(steps.take(k)).len() as int;
    assert(written(longer)[at] == steps[k]->Write_0);
    assert(written(steps).take(written(longer).len() as int)[at] == written(steps)[at]);
    assert(follows(states[k], items[k], states[k + 1], steps[k]));
}

/// What a run has written after its first `upto` steps stays at the front
/// of what it writes in all.
pub proof fn lemma_written_prefix(steps: Seq<StepView>, upto: int)
    requires
        0 <= upto <= steps.len(),
    ensures
        written(steps.take(upto)).len() <= written(steps).len(),
        written(steps.take(upto)) == written(steps).take(written(steps.take(upto)).len() as int),
    decreases steps.len() - upto,
{
    if upto == steps.len() {
        assert(steps.take(upto) =~= steps);
        assert(written(steps).take(written(steps).len() as int) =~= written(steps));
    } else {
        lemma_written_prefix(steps, upto + 1);
        let longer = steps.take(upto + 1);
        assert(longer.drop_last() =~= steps.take(upto));
        let short = written(steps.take(upto));
        assert(short =~= written(steps).take(short.len() as int));
    }
}

/// Where every input is a message and no step fails, a run of N inputs
/// writes N responses, and the response at each place answers the request
/// at the same place: its `in_reply_to` is that request's `msg_id`.
pub proof fn lemma_correlation<M: Machine>(
    states: Seq<M>,
    items: Seq<Result<MessageView, DecodeError>>,
    steps: Seq<StepView>,
)
    requires
        trace(states, items, steps),
        forall|k: int| 0 <= k < steps.len() ==> (#[trigger] steps[k]) is Write,
    ensures
        written(steps).len() == items.len(),
        forall|k: int|
            0 <= k < items.len() ==> {
                &&& (#[trigger] items[k]) is Ok
                &&& answers(written(steps)[k], items[k]->Ok_0)
                &&& written(steps)[k].body->in_reply_to == items[k]->Ok_0.body->msg_id
            },
{
    lemma_all_written(steps, steps.len() as int);
    assert(steps.take(steps.len() as int) =~= steps);
    assert forall|k: int| 0 <= k < items.len() implies {
        &&& (#[trigger] items[k]) is Ok
        &&& answers(written(steps)[k], items[k]->Ok_0)
        &&& written(steps)[k].body->in_reply_to == items[k]->Ok_0.body->msg_id
    } by {
        lemma_all_written(steps, k);
        lemma_written_in_order(states, items, steps, k);
    }
}

/// Where every step writes, the first `upto` steps have written `upto`
/// responses.
pub proof fn lemma_all_written(steps: Seq<StepView>, upto: int)
    requires
        0 <= upto <= steps.len(),
        forall|k: int| 0 <= k < steps.len() ==> (#[trigger] steps[k]) is Write,
    ensures
        written(steps.take(upto)).len() == upto,
    decreases upto,
{
    if upto > 0 {
        lemma_all_written(steps, upto - 1);
        assert(steps.take(upto).drop_last() =~= steps.take(upto - 1));
        assert(steps.take(upto).last() == steps[upto - 1]);
    }
}

/// A line that was no message is reported and nothing else: the run is the
/// run on the input without that line, with the same states before and
/// after it and the same responses written.
pub proof fn lemma_malformed_line_skipped<M: Machine>(
    states: Seq<M>,
    items: Seq<Result<MessageView, DecodeError>>,
    steps: Seq<StepView>,
    k: int,
)
    requires
        trace(states, items, steps),
        0 <= k < items.len(),
        items[k] is Err,
    ensures
        steps[k] == StepView::Report(Failure::Decode(items[k]->Err_0)),
        trace(states.remove(k + 1), items.remove(k), steps.remove(k)),
        written(steps.remove(k)) == written(steps),
{
    assert(follows(states[k], items[k], states[k + 1], steps[k]));
    let fewer_states = states.remove(k + 1);
    let fewer_items = items.remove(k);
    let fewer_steps = steps.remove(k);
    assert forall|j: int| 0 <= j < fewer_items.len() implies follows(
        fewer_states[j],
        fewer_items[j],
        fewer_states[j + 1],
        #[trigger] fewer_steps[j],
    ) by {
        if j < k {
            assert(follows(states[j], items[j], states[j + 1], steps[j]));
        } else {
            assert(follows(states[j + 1], items[j + 1], states[j + 2], steps[j + 1]));
        }
    }
    lemma_written_without_report(steps, k);
}

/// Taking a report out of the steps leaves what was written as it is.
pub proof fn lemma_written_without_report(steps: Seq<StepView>, k: int)
    requires
        0 <= k < steps.len(),
        steps[k] is Report,
    ensures
        written(steps.remove(k)) == written(steps),
    decreases steps.len(),
{
    if k == steps.len() - 1 {
        assert(steps.remove(k) =~= steps.drop_last());
    } else {
        lemma_written_without_report(steps.drop_last(), k);
        assert(steps.remove(k).drop_last() =~= steps.drop_last().remove(k));
        assert(steps.remove(k).last() == steps.last());
    }
}

} // verus!

//! Questions to the operator: the prompt that is sent and the wait for its
//! answer.
//!
//! Sending, receiving and the clock are the caller's; this module says what to
//! send, how long to wait and what a response means.

use vstd::prelude::*;

use crate::text;

verus! {

/// What kind of answer a prompt asks for.
#[derive(Debug, Clone, Copy, PartialEq, Eq, Structural)]
pub enum PromptKind {
    Boolean,
    Text,
    Credential,
}

/// A question to the operator.
#[derive(Debug)]
pub struct Question {
    pub title: String,
    pub details: String,
    pub input_label: String,
    pub kind: PromptKind,
    /// How long the operator has, in seconds.
    pub timeout: u32,
}

/// A question, as its texts.
pub ghost struct QuestionView {
    pub title: Seq<char>,
    pub details: Seq<char>,
    pub input_label: Seq<char>,
    pub kind: PromptKind,
    pub timeout: u32,
}

impl View for Question {
    type V = QuestionView;

    open spec fn view(&self) -> QuestionView {
        QuestionView {
            title: self.title@,
            details: self.details@,
            input_label: self.input_label@,
            kind: self.kind,
            timeout: self.timeout,
        }
    }
}

/// A question as it is sent to the engine.
#[derive(Debug)]
pub struct Prompt {
    pub prompt_id_uuid7: String,
    pub prompt: String,
    pub details: String,
    pub yes_dialog: String,
    pub no_dialog: String,
    pub timeout: u32,
    pub origin: String,
    pub origin_uuid7: String,
    pub instructions: String,
    pub link: String,
    pub input_label: String,
    pub prompt_type: PromptKind,
}

/// A prompt, as its texts.
pub ghost struct PromptView {
    pub prompt_id_uuid7: Seq<char>,
    pub prompt: Seq<char>,
    pub details: Seq<char>,
    pub yes_dialog: Seq<char>,
    pub no_dialog: Seq<char>,
    pub timeout: u32,
    pub origin: Seq<char>,
    pub origin_uuid7: Seq<char>,
    pub instructions: Seq<char>,
    pub link: Seq<char>,
    pub input_label: Seq<char>,
    pub prompt_type: PromptKind,
}

impl View for Prompt {
    type V = PromptView;

    open spec fn view(&self) -> PromptView {
        PromptView {
            prompt_id_uuid7: self.prompt_id_uuid7@,
            prompt: self.prompt@,
            details: self.details@,
            yes_dialog: self.yes_dialog@,
            no_dialog: self.no_dialog@,
            timeout: self.timeout,
            origin: self.origin@,
            origin_uuid7: self.origin_uuid7@,
            instructions: self.instructions@,
            link: self.link@,
            input_label: self.input_label@,
            prompt_type: self.prompt_type,
        }
    }
}

/// The operator's response to a prompt.
#[derive(Debug)]
pub struct PromptResponse {
    pub prompt_id_uuid7: String,
    pub accepted: bool,
    pub reason: String,
}

/// A response, as its texts.
pub ghost struct PromptResponseView {
    pub prompt_id_uuid7: Seq<char>,
    pub accepted: bool,
    pub reason: Seq<char>,
}

impl View for PromptResponse {
    type V = PromptResponseView;

    open spec fn view(&self) -> PromptResponseView {
        PromptResponseView {
            prompt_id_uuid7: self.prompt_id_uuid7@,
            accepted: self.accepted,
            reason: self.reason@,
        }
    }
}

/// A lower-case hexadecimal digit.
pub open spec fn is_hex(c: char) -> bool {
    '0' <= c <= '9' || 'a' <= c <= 'f'
}

/// The hyphenated form of a version 7 UUID: groups of 8, 4, 4, 4 and 12
/// hexadecimal digits, with the version and the variant in their places.
pub open spec fn is_uuid7(s: Seq<char>) -> bool {
    &&& s.len() == 36
    &&& forall|i: int|
        0 <= i < 36 ==> if i == 8 || i == 13 || i == 18 || i == 23 {
            #[trigger] s[i] == '-'
        } else {
            is_hex(s[i])
        }
    &&& s[14] == '7'
    &&& s[19] == '8' || s[19] == '9' || s[19] == 'a' || s[19] == 'b'
}

/// Calls `uuid::Uuid::now_v7` and `to_string`. The identifier is drawn from the
/// clock and from random numbers; of every one, its form is known. That no two
/// are equal is not claimed. The call fails where the clock stands before 1970 or
/// the machine has no random numbers.
#[verifier::external_body]
fn new_prompt_id() -> (r: String)
    ensures
        is_uuid7(r@),
{
    uuid::Uuid::now_v7().to_string()
}

/// The prompt with the given identifier that puts a question in the name of a
/// module.
pub open spec fn prompt_of(
    id: Seq<char>,
    module_name: Seq<char>,
    question: QuestionView,
) -> PromptView {
    PromptView {
        prompt_id_uuid7: id,
        prompt: question.title,
        details: question.details,
        yes_dialog: "Submit"@,
        no_dialog: "Cancel"@,
        timeout: question.timeout,
        origin: module_name,
        origin_uuid7: Seq::empty(),
        instructions: Seq::empty(),
        link: Seq::empty(),
        input_label: question.input_label,
        prompt_type: question.kind,
    }
}

/// The prompt with the given identifier that puts a question in the name of a
/// module.
pub fn prompt_with_id(id: String, module_name: &str, question: &Question) -> (r: Prompt)
    ensures
        r@ == prompt_of(id@, module_name@, question@),
{
    Prompt {
        prompt_id_uuid7: id,
        prompt: question.title.clone(),
        details: question.details.clone(),
        yes_dialog: "Submit".to_string(),
        no_dialog: "Cancel".to_string(),
        timeout: question.timeout,
        origin: module_name.to_string(),
        origin_uuid7: String::new(),
        instructions: String::new(),
        link: String::new(),
        input_label: question.input_label.clone(),
        prompt_type: question.kind,
    }
}

/// The prompt, under a new identifier, that puts a question in the name of a
/// module.
pub fn new_prompt(module_name: &str, question: &Question) -> (r: Prompt)
    ensures
        is_uuid7(r@.prompt_id_uuid7),
        r@ == prompt_of(r@.prompt_id_uuid7, module_name@, question@),
{
    prompt_with_id(new_prompt_id(), module_name, question)
}

/// What came while waiting for the answer to a prompt.
#[derive(Debug)]
pub enum PromptEvent {
    /// The operator responded to some prompt.
    Response(PromptResponse),
    /// No response will come any more.
    Closed,
    /// Nothing came within `POLL_SECONDS`.
    Elapsed,
}

/// What to do after such an event.
#[derive(Debug)]
pub enum PromptStep {
    Wait,
    /// The answer, or none: the operator declined, or cannot answer.
    Done(Option<String>),
}

/// A step, as its texts.
pub ghost enum PromptStepView {
    Wait,
    Done(Option<Seq<char>>),
}

impl View for PromptStep {
    type V = PromptStepView;

    open spec fn view(&self) -> PromptStepView {
        match *self {
            PromptStep::Wait => PromptStepView::Wait,
            PromptStep::Done(Some(answer)) => PromptStepView::Done(Some(answer@)),
            PromptStep::Done(None) => PromptStepView::Done(None),
        }
    }
}

/// How long one wait for a response lasts, in seconds.
pub const POLL_SECONDS: u64 = 10;

/// How much longer than the operator's time the wait lasts, in seconds.
pub const GRACE_SECONDS: u64 = 10;

/// The nanoseconds of a second.
pub const NANOS: u128 = 1_000_000_000;

/// The wait for an answer is not over after so many nanoseconds.
pub open spec fn within_deadline(timeout: u32, waited: int) -> bool {
    waited < (timeout + GRACE_SECONDS) * NANOS
}

/// Whether to go on waiting for the answer to a prompt, `waited` nanoseconds
/// after it was sent.
pub fn keep_waiting(timeout: u32, waited: u128) -> (r: bool)
    ensures
        r == within_deadline(timeout, waited as int),
{
    let seconds: u128 = timeout as u128 + GRACE_SECONDS as u128;
    waited < seconds * NANOS
}

/// What an event means for the prompt with the identifier `id`: a response to it
/// is its answer, or none where the operator declined; a response to another
/// prompt and a wait without one mean nothing.
pub open spec fn step_of(id: Seq<char>, event: PromptEvent) -> PromptStepView {
    match event {
        PromptEvent::Response(response) => if response.prompt_id_uuid7@ != id {
            PromptStepView::Wait
        } else if response.accepted {
            PromptStepView::Done(Some(response.reason@))
        } else {
            PromptStepView::Done(None)
        },
        PromptEvent::Closed => PromptStepView::Done(None),
        PromptEvent::Elapsed => PromptStepView::Wait,
    }
}

/// What an event means for the prompt with the identifier `id`.
pub fn on_prompt_event(id: &str, event: PromptEvent) -> (r: PromptStep)
    ensures
        r@ == step_of(id@, event),
{
    match event {
        PromptEvent::Response(response) => {
            if !text::is_text(response.prompt_id_uuid7.as_str(), id) {
                PromptStep::Wait
            } else if response.accepted {
                PromptStep::Done(Some(response.reason))
            } else {
                PromptStep::Done(None)
            }
        },
        PromptEvent::Closed => PromptStep::Done(None),
        PromptEvent::Elapsed => PromptStep::Wait,
    }
}

/// What a wait comes to, if it ends: event after event, each with the
/// nanoseconds that had passed before it was waited for, until one ends the wait
/// or the deadline does.
pub open spec fn wait_result(
    id: Seq<char>,
    timeout: u32,
    events: Seq<(int, PromptEvent)>,
) -> PromptStepView
    decreases events.len(),
{
    if events.len() == 0 {
        PromptStepView::Wait
    } else if !within_deadline(timeout, events[0].0) {
        PromptStepView::Done(None)
    } else {
        match step_of(id, events[0].1) {
            PromptStepView::Wait => wait_result(id, timeout, events.skip(1)),
            done => done,
        }
    }
}

/// Responses to other prompts and waits without a response, however many, do not
/// end the wait before its deadline.
pub proof fn law_wait_lasts(id: Seq<char>, timeout: u32, events: Seq<(int, PromptEvent)>)
    requires
        forall|i: int|
            0 <= i < events.len() ==> {
                &&& within_deadline(timeout, (#[trigger] events[i]).0)
                &&& match events[i].1 {
                    PromptEvent::Response(response) => response.prompt_id_uuid7@ != id,
                    PromptEvent::Closed => false,
                    PromptEvent::Elapsed => true,
                }
            },
    ensures
        wait_result(id, timeout, events) is Wait,
    decreases events.len(),
{
    if events.len() != 0 {
        assert(within_deadline(timeout, events[0].0));
        let rest = events.skip(1);
        assert forall|i: int| 0 <= i < rest.len() implies {
            &&& within_deadline(timeout, (#[trigger] rest[i]).0)
            &&& match rest[i].1 {
                PromptEvent::Response(response) => response.prompt_id_uuid7@ != id,
                PromptEvent::Closed => false,
                PromptEvent::Elapsed => true,
            }
        } by {
            assert(rest[i] == events[i + 1]);
        }
        law_wait_lasts(id, timeout, rest);
    }
}

/// The first response to the very prompt, waited for within the deadline and
/// before all hope is gone, is what the wait comes to: the reason that it gives
/// where the operator accepted, and no answer where not.
pub proof fn law_own_response_decides(
    id: Seq<char>,
    timeout: u32,
    events: Seq<(int, PromptEvent)>,
    at: int,
    response: PromptResponse,
)
    requires
        0 <= at < events.len(),
        events[at].1 == PromptEvent::Response(response),
        response.prompt_id_uuid7@ == id,
        forall|i: int| 0 <= i <= at ==> within_deadline(timeout, (#[trigger] events[i]).0),
        forall|i: int|
            0 <= i < at ==> match (#[trigger] events[i]).1 {
                PromptEvent::Response(other) => other.prompt_id_uuid7@ != id,
                PromptEvent::Closed => false,
                PromptEvent::Elapsed => true,
            },
    ensures
        wait_result(id, timeout, events) == PromptStepView::Done(
            if response.accepted {
                Some(response.reason@)
            } else {
                None
            },
        ),
    decreases at,
{
    assert(within_deadline(timeout, events[0].0));
    if at > 0 {
        let rest = events.skip(1);
        assert forall|i: int| 0 <= i <= at - 1 implies within_deadline(
            timeout,
            (#[trigger] rest[i]).0,
        ) by {
            assert(rest[i] == events[i + 1]);
        }
        assert forall|i: int| 0 <= i < at - 1 implies match (#[trigger] rest[i]).1 {
            PromptEvent::Response(other) => other.prompt_id_uuid7@ != id,
            PromptEvent::Closed => false,
            PromptEvent::Elapsed => true,
        } by {
            assert(rest[i] == events[i + 1]);
        }
        law_own_response_decides(id, timeout, rest, at - 1, response);
    }
}

/// The answer that a wait comes to is the reason of an accepted response to the
/// very prompt.
pub proof fn law_answer_is_own(id: Seq<char>, timeout: u32, events: Seq<(int, PromptEvent)>)
    ensures
        wait_result(id, timeout, events) matches PromptStepView::Done(Some(answer)) ==> exists|
            i: int,
        |
            {
                &&& 0 <= i < events.len()
                &&& within_deadline(timeout, (#[trigger] events[i]).0)
                &&& events[i].1 matches PromptEvent::Response(response)
                &&& response.prompt_id_uuid7@ == id
                &&& response.accepted
                &&& response.reason@ == answer
            },
    decreases events.len(),
{
    if events.len() != 0 {
        let rest = events.skip(1);
        law_answer_is_own(id, timeout, rest);
        if let PromptStepView::Done(Some(answer)) = wait_result(id, timeout, events) {
            if step_of(id, events[0].1) is Wait {
                let i = choose|i: int|
                    {
                        &&& 0 <= i < rest.len()
                        &&& within_deadline(timeout, (#[trigger] rest[i]).0)
                        &&& rest[i].1 matches PromptEvent::Response(response)
                        &&& response.prompt_id_uuid7@ == id
                        &&& response.accepted
                        &&& response.reason@ == answer
                    };
                assert(rest[i] == events[i + 1]);
            } else {
                assert(within_deadline(timeout, events[0].0));
            }
        }
    }
}

/// A prompt puts the whole question, in the name of the module and under the
/// given identifier, with one button to submit and one to cancel.
pub proof fn law_prompt_puts_question(
    id: Seq<char>,
    module_name: Seq<char>,
    question: QuestionView,
)
    ensures
        ({
            let prompt = prompt_of(id, module_name, question);
            &&& prompt.prompt_id_uuid7 == id
            &&& prompt.origin == module_name
            &&& prompt.prompt == question.title
            &&& prompt.details == question.details
            &&& prompt.input_label == question.input_label
            &&& prompt.prompt_type == question.kind
            &&& prompt.timeout == question.timeout
            &&& prompt.yes_dialog == "Submit"@
            &&& prompt.no_dialog == "Cancel"@
            &&& prompt.origin_uuid7.len() == 0
            &&& prompt.instructions.len() == 0
            &&& prompt.link.len() == 0
        }),
{
}

/// The wait lasts ten seconds longer than the operator's time, to the nanosecond.
pub proof fn law_deadline_in_seconds(timeout: u32, waited: int)
    requires
        0 <= waited,
    ensures
        within_deadline(timeout, waited) <==> waited / 1_000_000_000 < timeout + 10,
{
    vstd::arithmetic::div_mod::lemma_fundamental_div_mod(waited, 1_000_000_000);
}

/// A wait that nothing ended before ends without an answer when no response will
/// come any more, and when the deadline has passed.
pub proof fn law_wait_ends(id: Seq<char>, timeout: u32, events: Seq<(int, PromptEvent)>, at: int)
    requires
        0 <= at < events.len(),
        !within_deadline(timeout, events[at].0) || events[at].1 is Closed,
        forall|i: int|
            0 <= i < at ==> {
                &&& within_deadline(timeout, (#[trigger] events[i]).0)
                &&& match events[i].1 {
                    PromptEvent::Response(response) => response.prompt_id_uuid7@ != id,
                    PromptEvent::Closed => false,
                    PromptEvent::Elapsed => true,
                }
            },
    ensures
        wait_result(id, timeout, events) == PromptStepView::Done(None),
    decreases at,
{
    if at > 0 {
        assert(within_deadline(timeout, events[0].0));
        let rest = events.skip(1);
        assert forall|i: int| 0 <= i < at - 1 implies {
            &&& within_deadline(timeout, (#[trigger] rest[i]).0)
            &&& match rest[i].1 {
                PromptEvent::Response(response) => response.prompt_id_uuid7@ != id,
                PromptEvent::Closed => false,
                PromptEvent::Elapsed => true,
            }
        } by {
            assert(rest[i] == events[i + 1]);
        }
        assert(rest[at - 1] == events[at]);
        law_wait_ends(id, timeout, rest, at - 1);
    }
}

} // verus!

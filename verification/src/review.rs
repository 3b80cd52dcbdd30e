//! The optional review of messages by a language model in a worker process.
//!
//! The worker reads one JSON object per line and answers each with one. Starting
//! it, writing and reading are done by the caller; this module says what to do
//! next and what an answer means. A review that fails or comes too late yields
//! no score, and the message passes unreviewed. An answer that comes too late
//! still comes: it is counted as owed and read over by a later review, so that a
//! score is always that of the message under review.

use vstd::prelude::*;

use crate::json;
use crate::score::Score;
use crate::text;

verus! {

/// What an answer of the worker means.
#[derive(Debug, PartialEq, Eq)]
pub enum Reply {
    /// The worker reports this error: it is broken.
    Broken(String),
    /// The risk of the message, from 0 to 1.
    Risk(Score),
    /// The answer says nothing.
    Nothing,
}

/// What an answer means, as its texts.
pub ghost enum ReplyView {
    Broken(Seq<char>),
    Risk(Score),
    Nothing,
}

impl View for Reply {
    type V = ReplyView;

    open spec fn view(&self) -> ReplyView {
        match *self {
            Reply::Broken(error) => ReplyView::Broken(error@),
            Reply::Risk(score) => ReplyView::Risk(score),
            Reply::Nothing => ReplyView::Nothing,
        }
    }
}

/// What to do next for a review.
#[derive(Debug)]
pub enum ReviewStep {
    /// Start the worker with this command line.
    Spawn(Vec<String>),
    /// Write this line to the worker.
    Write(String),
    /// Wait for a line of the worker.
    Read,
    /// The review is over, with the score or without.
    Done(Option<Score>),
}

/// What came of a step.
#[derive(Debug)]
pub enum ReviewEvent {
    Spawned,
    SpawnFailed,
    /// The request was written.
    Written,
    /// A part of the request was written in time; the rest will follow before
    /// anything else does.
    HalfWritten,
    /// Nothing of the request was written in time, and nothing will be.
    NotWritten,
    WriteFailed,
    /// The worker answered with this line.
    Line(String),
    /// The worker did not answer in time, or is gone.
    NoLine,
}

/// How long the worker may take over the request and the answer together: the
/// limit of all that is written and read for one review.
pub const ANSWER_SECONDS: u64 = 2;

/// A step, as its texts.
pub ghost enum StepView {
    Spawn(Seq<Seq<char>>),
    Write(Seq<char>),
    Read,
    Done(Option<Score>),
}

impl View for ReviewStep {
    type V = StepView;

    open spec fn view(&self) -> StepView {
        match *self {
            ReviewStep::Spawn(command) => StepView::Spawn(text::texts(command@)),
            ReviewStep::Write(line) => StepView::Write(line@),
            ReviewStep::Read => StepView::Read,
            ReviewStep::Done(score) => StepView::Done(score),
        }
    }
}

/// The review of messages: whether it is wanted, with which engine, from which
/// score on a message is a hit, and how the worker fares.
#[derive(Debug)]
pub struct ReviewWorker {
    pub enabled: bool,
    pub engine: String,
    pub threshold: Score,
    /// The worker was started.
    pub running: bool,
    /// The worker failed: no message is reviewed any more.
    pub dead: bool,
    /// How many answers are still to come to requests of reviews that are over.
    pub owed: u64,
}

/// The command line that starts the worker.
pub open spec fn command_for(engine: Seq<char>) -> Seq<Seq<char>> {
    seq!["python3"@, "worker/review_worker.py"@, "--engine"@, engine]
}

/// The line that asks the worker about a message.
pub open spec fn request_for(message: Seq<char>) -> Seq<char> {
    json::object_of("text"@, message).push('\n')
}

/// What an answer means, by the text of its member "error" and the number of
/// its member "risk".
pub open spec fn reply_by(error: Option<Seq<char>>, risk: Option<u64>) -> ReplyView {
    match (error, risk) {
        (Some(error), _) => ReplyView::Broken(error),
        (None, Some(bits)) => ReplyView::Risk(Score { bits }),
        (None, None) => ReplyView::Nothing,
    }
}

/// The text of the string member `key` of a JSON text.
pub open spec fn member_string(line: Seq<char>, key: Seq<char>) -> Option<Seq<char>> {
    match json::json_member(line, key) {
        Some(value) => json::json_string(value),
        None => None,
    }
}

/// The bits of the number member `key` of a JSON text.
pub open spec fn member_double(line: Seq<char>, key: Seq<char>) -> Option<u64> {
    match json::json_member(line, key) {
        Some(value) => json::json_double(value),
        None => None,
    }
}

/// What a line of the worker means.
pub open spec fn reply_of(line: Seq<char>) -> ReplyView {
    reply_by(member_string(line, "error"@), member_double(line, "risk"@))
}

/// The command line that starts the worker with the given engine.
pub fn review_command(engine: &str) -> (r: Vec<String>)
    ensures
        text::texts(r@) == command_for(engine@),
{
    let mut r: Vec<String> = Vec::new();
    r.push("python3".to_string());
    r.push("worker/review_worker.py".to_string());
    r.push("--engine".to_string());
    r.push(engine.to_string());
    assert(text::texts(r@) =~= command_for(engine@));
    r
}

/// The line that asks the worker about a message.
pub fn review_request(message: &str) -> (r: String)
    ensures
        r@ == request_for(message@),
{
    let mut r = json::object_text("text", message);
    r.push('\n');
    r
}

/// What an answer means, by the text of its member "error" and the number of
/// its member "risk".
pub fn judge_reply(error: Option<String>, risk: Option<u64>) -> (r: Reply)
    ensures
        r@ == reply_by(
            match error {
                Some(e) => Some(e@),
                None => None,
            },
            risk,
        ),
{
    match error {
        Some(error) => Reply::Broken(error),
        None => match risk {
            Some(bits) => Reply::Risk(Score { bits }),
            None => Reply::Nothing,
        },
    }
}

/// What a line of the worker means.
pub fn read_reply(line: &str) -> (r: Reply)
    ensures
        r@ == reply_of(line@),
{
    let error = match json::member(line, "error") {
        Some(value) => json::string_value(value.as_str()),
        None => None,
    };
    let risk: Option<u64> = match json::member(line, "risk") {
        Some(value) => json::double_bits(value.as_str()),
        None => None,
    };
    judge_reply(error, risk)
}

impl ReviewWorker {
    /// The worker that has not been started.
    pub fn new(enabled: bool, engine: String, threshold: Score) -> (r: Self)
        ensures
            r.enabled == enabled,
            r.engine == engine,
            r.threshold == threshold,
            !r.running,
            !r.dead,
            r.owed == 0,
    {
        ReviewWorker { enabled, engine, threshold, running: false, dead: false, owed: 0 }
    }

    /// How a review of `message` begins.
    pub open spec fn first_step(self, message: Seq<char>) -> StepView {
        if !self.enabled || self.dead {
            StepView::Done(None)
        } else if !self.running {
            StepView::Spawn(command_for(self.engine@))
        } else {
            StepView::Write(request_for(message))
        }
    }

    /// How a review of `message` goes on after an event.
    pub open spec fn next_step(self, message: Seq<char>, event: ReviewEvent) -> StepView {
        match event {
            ReviewEvent::Spawned => StepView::Write(request_for(message)),
            ReviewEvent::SpawnFailed => StepView::Done(None),
            ReviewEvent::Written => StepView::Read,
            ReviewEvent::HalfWritten => StepView::Done(None),
            ReviewEvent::NotWritten => StepView::Done(None),
            ReviewEvent::WriteFailed => StepView::Done(None),
            ReviewEvent::Line(line) => match reply_of(line@) {
                ReplyView::Broken(_) => StepView::Done(None),
                _ if self.owed > 0 => StepView::Read,
                ReplyView::Risk(score) => StepView::Done(Some(score)),
                ReplyView::Nothing => StepView::Done(None),
            },
            ReviewEvent::NoLine => StepView::Done(None),
        }
    }

    /// The events after which the worker is given up.
    pub open spec fn is_fatal(event: ReviewEvent) -> bool {
        match event {
            ReviewEvent::SpawnFailed => true,
            ReviewEvent::WriteFailed => true,
            ReviewEvent::Line(line) => reply_of(line@) is Broken,
            _ => false,
        }
    }

    /// How many answers are owed after an event: one more where a review ends
    /// before the answer to its request, one less where an owed one is read. A
    /// full counter stays.
    pub open spec fn owed_after(self, event: ReviewEvent) -> u64 {
        match event {
            ReviewEvent::NoLine | ReviewEvent::HalfWritten => if self.owed < u64::MAX {
                (self.owed + 1) as u64
            } else {
                self.owed
            },
            ReviewEvent::Line(_) => if self.owed > 0 {
                (self.owed - 1) as u64
            } else {
                self.owed
            },
            _ => self.owed,
        }
    }

    /// The worker after an event.
    pub open spec fn after(self, event: ReviewEvent) -> ReviewWorker {
        ReviewWorker {
            running: self.running || event is Spawned,
            dead: self.dead || Self::is_fatal(event),
            owed: self.owed_after(event),
            ..self
        }
    }

    /// One more answer is owed. A full counter stays.
    fn owe(&mut self)
        ensures
            *final(self) == (ReviewWorker {
                owed: if old(self).owed < u64::MAX {
                    (old(self).owed + 1) as u64
                } else {
                    old(self).owed
                },
                ..*old(self)
            }),
    {
        if self.owed < u64::MAX {
            self.owed = self.owed + 1;
        }
    }

    /// How the review of a message begins. No message is reviewed where review
    /// is off or the worker has failed; the worker is started for the first
    /// message that is.
    pub fn review(&self, message: &str) -> (r: ReviewStep)
        ensures
            r@ == self.first_step(message@),
    {
        if !self.enabled || self.dead {
            ReviewStep::Done(None)
        } else if !self.running {
            ReviewStep::Spawn(review_command(self.engine.as_str()))
        } else {
            ReviewStep::Write(review_request(message))
        }
    }

    /// How the review of a message goes on. A worker that cannot be started or
    /// written to, or that reports an error, is given up for good; one that is
    /// late, or answers with something else, is not. Answers that are owed to
    /// earlier reviews are read over. This rests on one answer per request: a
    /// worker that leaves a request unanswered for good is one answer behind ever
    /// after, and no later message gets a score from it.
    pub fn advance(&mut self, message: &str, event: ReviewEvent) -> (r: ReviewStep)
        ensures
            r@ == old(self).next_step(message@, event),
            *final(self) == old(self).after(event),
    {
        match event {
            ReviewEvent::Spawned => {
                self.running = true;
                ReviewStep::Write(review_request(message))
            },
            ReviewEvent::SpawnFailed => {
                self.dead = true;
                ReviewStep::Done(None)
            },
            ReviewEvent::Written => ReviewStep::Read,
            ReviewEvent::WriteFailed => {
                self.dead = true;
                ReviewStep::Done(None)
            },
            ReviewEvent::HalfWritten => {
                self.owe();
                ReviewStep::Done(None)
            },
            ReviewEvent::NotWritten => ReviewStep::Done(None),
            ReviewEvent::Line(line) => {
                let late = self.owed > 0;
                if late {
                    self.owed = self.owed - 1;
                }
                match read_reply(line.as_str()) {
                    Reply::Broken(_) => {
                        self.dead = true;
                        ReviewStep::Done(None)
                    },
                    Reply::Risk(score) => {
                        if late {
                            ReviewStep::Read
                        } else {
                            ReviewStep::Done(Some(score))
                        }
                    },
                    Reply::Nothing => {
                        if late {
                            ReviewStep::Read
                        } else {
                            ReviewStep::Done(None)
                        }
                    },
                }
            },
            ReviewEvent::NoLine => {
                self.owe();
                ReviewStep::Done(None)
            },
        }
    }

    /// Whether this risk should be treated as a hit given the configurable
    /// risk-certainty threshold.
    pub fn is_hit(&self, risk: Score) -> (r: bool)
        ensures
            r == risk.is_at_least(self.threshold),
            r <==> !risk.is_nan() && !self.threshold.is_nan() && risk.value()
                >= self.threshold.value(),
    {
        risk.at_least(self.threshold)
    }
}

/// The worker after a series of events.
pub open spec fn after_all(worker: ReviewWorker, events: Seq<ReviewEvent>) -> ReviewWorker
    decreases events.len(),
{
    if events.len() == 0 {
        worker
    } else {
        after_all(worker, events.drop_last()).after(events.last())
    }
}

/// A worker is given up by the first fatal event and never comes back; it is
/// given up for no other reason, and its settings never change.
pub proof fn law_given_up_for_good(worker: ReviewWorker, events: Seq<ReviewEvent>)
    ensures
        after_all(worker, events).dead <==> worker.dead || exists|i: int|
            0 <= i < events.len() && ReviewWorker::is_fatal(#[trigger] events[i]),
        after_all(worker, events).enabled == worker.enabled,
        after_all(worker, events).engine == worker.engine,
        after_all(worker, events).threshold == worker.threshold,
    decreases events.len(),
{
    if events.len() != 0 {
        let init = events.drop_last();
        law_given_up_for_good(worker, init);
        if exists|i: int| 0 <= i < init.len() && ReviewWorker::is_fatal(#[trigger] init[i]) {
            let i = choose|i: int|
                0 <= i < init.len() && ReviewWorker::is_fatal(#[trigger] init[i]);
            assert(ReviewWorker::is_fatal(events[i]));
        }
        if exists|i: int| 0 <= i < events.len() && ReviewWorker::is_fatal(#[trigger] events[i]) {
            let i = choose|i: int|
                0 <= i < events.len() && ReviewWorker::is_fatal(#[trigger] events[i]);
            if i < init.len() {
                assert(init[i] == events[i]);
            }
        }
    }
}

/// Where review is off, or the worker was given up, no message is reviewed,
/// whatever has happened and whatever it says.
pub proof fn law_no_review(worker: ReviewWorker, events: Seq<ReviewEvent>, message: Seq<char>)
    requires
        !worker.enabled || worker.dead,
    ensures
        after_all(worker, events).first_step(message) == StepView::Done(None),
{
    law_given_up_for_good(worker, events);
}

/// How many requests the events put to the worker.
pub open spec fn requests(events: Seq<ReviewEvent>) -> nat
    decreases events.len(),
{
    if events.len() == 0 {
        0
    } else {
        requests(events.drop_last()) + if events.last() is Written || events.last() is HalfWritten {
            1nat
        } else {
            0nat
        }
    }
}

/// How many lines of the worker the events read.
pub open spec fn lines(events: Seq<ReviewEvent>) -> nat
    decreases events.len(),
{
    if events.len() == 0 {
        0
    } else {
        lines(events.drop_last()) + if events.last() is Line {
            1nat
        } else {
            0nat
        }
    }
}

/// After the events, a review is under way whose request was written and that
/// is not over.
pub open spec fn awaiting(worker: ReviewWorker, events: Seq<ReviewEvent>) -> bool {
    if events.len() == 0 {
        false
    } else {
        match events.last() {
            ReviewEvent::Written => true,
            ReviewEvent::Line(_) => after_all(worker, events.drop_last()).next_step(
                seq![],
                events.last(),
            ) is Read,
            _ => false,
        }
    }
}

/// The events are those of reviews one after the other: a line is waited for
/// exactly while a review awaits one, and no review begins before that.
pub open spec fn in_turn(worker: ReviewWorker, events: Seq<ReviewEvent>) -> bool
    decreases events.len(),
{
    events.len() > 0 ==> {
        let earlier = events.drop_last();
        &&& in_turn(worker, earlier)
        &&& events.last() is Line || events.last() is NoLine <==> awaiting(worker, earlier)
    }
}

/// Until the worker is given up, the answers that are owed, with the one that is
/// awaited, are those to the requests that no line has answered yet.
pub proof fn law_owed_answers_are_counted(worker: ReviewWorker, events: Seq<ReviewEvent>)
    requires
        worker.owed == 0,
        in_turn(worker, events),
        events.len() <= u64::MAX,
        !after_all(worker, events).dead,
    ensures
        after_all(worker, events).owed + if awaiting(worker, events) {
            1int
        } else {
            0int
        } == requests(events) - lines(events),
        after_all(worker, events).owed <= events.len(),
    decreases events.len(),
{
    if events.len() != 0 {
        law_owed_answers_are_counted(worker, events.drop_last());
    }
}

/// A score is that of the message under review. The worker answers its requests
/// in their order, so after n requests the n-th line is the answer to the last
/// one. A review that awaits its answer takes that line and no other for it,
/// whatever answers came too late before: it reads over every earlier line, and
/// ends with a score only on that one.
pub proof fn law_score_is_own(
    worker: ReviewWorker,
    events: Seq<ReviewEvent>,
    message: Seq<char>,
    line: String,
)
    requires
        worker.owed == 0,
        in_turn(worker, events),
        events.len() <= u64::MAX,
        !after_all(worker, events).dead,
        awaiting(worker, events),
        !(reply_of(line@) is Broken),
    ensures
        ({
            let step = after_all(worker, events).next_step(message, ReviewEvent::Line(line));
            &&& lines(events) + 1 <= requests(events)
            &&& lines(events) + 1 < requests(events) ==> step is Read
            &&& lines(events) + 1 == requests(events) ==> step == StepView::Done(
                match reply_of(line@) {
                    ReplyView::Risk(score) => Some(score),
                    _ => None,
                },
            )
        }),
{
    law_owed_answers_are_counted(worker, events);
}

/// A review never waits on: an event that is not progress ends it at once
/// without a score, and of the lines that it reads over there are no more than
/// are owed.
pub proof fn law_review_ends(worker: ReviewWorker, message: Seq<char>, event: ReviewEvent)
    ensures
        match event {
            ReviewEvent::Spawned => worker.next_step(message, event) is Write,
            ReviewEvent::Written => worker.next_step(message, event) is Read,
            ReviewEvent::Line(_) => worker.next_step(message, event) is Done || {
                &&& worker.next_step(message, event) is Read
                &&& worker.after(event).owed < worker.owed
            },
            _ => worker.next_step(message, event) == StepView::Done(None),
        },
{
}

/// A request is one line: a line ends at its end and nowhere before, whatever
/// the message holds. The rest of it is the object with the whole message as its
/// text.
pub proof fn law_request_is_one_line(message: Seq<char>)
    ensures
        request_for(message).last() == '\n',
        !request_for(message).drop_last().contains('\n'),
        request_for(message).drop_last() == json::object_of("text"@, message),
{
    json::law_object_is_one_line("text"@, message);
    assert(request_for(message).drop_last() == json::object_of("text"@, message));
}

/// The worker is started as a script that is told the engine.
pub proof fn law_command_names_engine(engine: Seq<char>)
    ensures
        command_for(engine).len() == 4,
        command_for(engine)[0] == "python3"@,
        command_for(engine)[1] == "worker/review_worker.py"@,
        command_for(engine)[2] == "--engine"@,
        command_for(engine)[3] == engine,
{
}

/// A review begins exactly where it is wanted and the worker was not given up:
/// with the start of the worker, or, where that runs, with the request.
pub proof fn law_review_begins(worker: ReviewWorker, message: Seq<char>)
    ensures
        worker.enabled && !worker.dead && worker.running ==> worker.first_step(message)
            == StepView::Write(request_for(message)),
        worker.enabled && !worker.dead && !worker.running ==> worker.first_step(message)
            == StepView::Spawn(command_for(worker.engine@)),
        !worker.enabled || worker.dead ==> worker.first_step(message) == StepView::Done(None),
{
}

/// A line means an error where it is an object whose member "error" is a string,
/// whatever else it holds; else it means a risk where its member "risk" is a
/// number, and that number is the score; else it means nothing.
pub proof fn law_reply_by_members(line: Seq<char>)
    ensures
        ({
            let error = json::json_member(line, "error"@);
            let risk = json::json_member(line, "risk"@);
            let text = if error is Some {
                json::json_string(error.unwrap())
            } else {
                None
            };
            let number = if risk is Some {
                json::json_double(risk.unwrap())
            } else {
                None
            };
            &&& reply_of(line) is Broken <==> text is Some
            &&& reply_of(line) matches ReplyView::Broken(why) ==> text == Some(why)
            &&& reply_of(line) is Risk <==> text is None && number is Some
            &&& reply_of(line) matches ReplyView::Risk(score) ==> number == Some(score.bits)
        }),
{
}

/// The worker is given up after an event exactly where it could not be started or
/// written to or a line reports an error; being late is no such event. It runs
/// from its start on, whatever happens later. Its settings stay.
pub proof fn law_event_changes_worker(worker: ReviewWorker, event: ReviewEvent)
    ensures
        ({
            let next = worker.after(event);
            &&& next.dead <==> worker.dead || match event {
                ReviewEvent::SpawnFailed | ReviewEvent::WriteFailed => true,
                ReviewEvent::Line(line) => reply_of(line@) is Broken,
                ReviewEvent::NoLine | ReviewEvent::HalfWritten | ReviewEvent::NotWritten => false,
                ReviewEvent::Spawned | ReviewEvent::Written => false,
            }
            &&& next.running <==> worker.running || event is Spawned
            &&& next.enabled == worker.enabled
            &&& next.engine == worker.engine
            &&& next.threshold == worker.threshold
        }),
{
}

/// How a review goes on: the start of the worker is followed by the request, the
/// request by the wait for a line. A line that no earlier review is owed ends it,
/// with the score that the line gives or with none; one that reports an error
/// always ends it without, and nothing else than a line ever gives a score.
pub proof fn law_review_goes_on(worker: ReviewWorker, message: Seq<char>, event: ReviewEvent)
    ensures
        event is Spawned ==> worker.next_step(message, event) == StepView::Write(
            request_for(message),
        ),
        event is Written ==> worker.next_step(message, event) is Read,
        event matches ReviewEvent::Line(line) ==> {
            let step = worker.next_step(message, event);
            &&& reply_of(line@) is Broken ==> step == StepView::Done(None)
            &&& !(reply_of(line@) is Broken) && worker.owed > 0 ==> step is Read
            &&& worker.owed == 0 ==> (reply_of(line@) matches ReplyView::Risk(score) ==> step
                == StepView::Done(Some(score)))
            &&& worker.owed == 0 && reply_of(line@) is Nothing ==> step == StepView::Done(None)
        },
        worker.next_step(message, event) matches StepView::Done(Some(score)) ==> (event
            matches ReviewEvent::Line(line) && reply_of(line@) == ReplyView::Risk(score)
            && worker.owed == 0),
{
}

} // verus!

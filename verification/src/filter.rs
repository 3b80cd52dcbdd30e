//! What the module does with what the engine sends.

use vstd::prelude::*;
use vstd::string::*;

use crate::censor;
use crate::config;
use crate::config::Config;
use crate::detect;
use crate::message;
use crate::message::{AuthVerify, ChatMessage, Container, Identity, MessagePreProcess, Payload};
use crate::prompt::PromptResponse;
use crate::review::ReviewWorker;
use crate::score::Score;
use crate::text;

verus! {

/// What became of a message.
#[derive(Debug)]
pub struct Outcome {
    /// The identifier that it came with.
    pub uuid: String,
    /// The text that it came with.
    pub original: String,
    /// Why it was flagged, if it was.
    pub reason: Option<String>,
    /// The text that it may be shown with.
    pub shown: String,
    /// What is sent about it, in this order.
    pub send: Vec<Container>,
}

/// What to do about a payload.
#[derive(Debug)]
pub enum Step {
    /// Nothing.
    Ignore,
    /// Send this.
    Send(Container),
    /// Send what the outcome for a message says.
    Answer(Outcome),
    /// Hand the response to whoever waits for one.
    Forward(PromptResponse),
    /// Have the text of this message reviewed, and go on with `after_review`.
    Review(String, ChatMessage),
}

/// What became of a message, as its texts and bytes.
pub ghost struct OutcomeView {
    pub uuid: Seq<char>,
    pub original: Seq<char>,
    pub reason: Option<Seq<char>>,
    pub shown: Seq<char>,
    pub send: Seq<message::ContainerView>,
}

/// What to do about a payload, as its texts and bytes.
pub ghost enum StepView {
    Ignore,
    Send(message::ContainerView),
    Answer(OutcomeView),
    Forward(crate::prompt::PromptResponseView),
    Review(Seq<char>, message::ChatMessageView),
}

/// The containers of a list, as their texts and bytes.
pub open spec fn views(list: Seq<Container>) -> Seq<message::ContainerView> {
    list.map_values(|c: Container| c@)
}

impl View for Outcome {
    type V = OutcomeView;

    open spec fn view(&self) -> OutcomeView {
        OutcomeView {
            uuid: self.uuid@,
            original: self.original@,
            reason: config::optional(self.reason),
            shown: self.shown@,
            send: views(self.send@),
        }
    }
}

impl View for Step {
    type V = StepView;

    open spec fn view(&self) -> StepView {
        match *self {
            Step::Ignore => StepView::Ignore,
            Step::Send(container) => StepView::Send(container@),
            Step::Answer(outcome) => StepView::Answer(outcome@),
            Step::Forward(response) => StepView::Forward(response@),
            Step::Review(uuid, chat) => StepView::Review(uuid@, chat@),
        }
    }
}

/// Why a message that spells a banned word is flagged.
pub open spec fn word_reason(word: Seq<char>, variant: Seq<char>) -> Seq<char> {
    "banned word '"@ + word + "' via "@ + variant + " variant"@
}

/// Why a message that the review takes for a risk is flagged.
pub open spec fn risk_reason(risk: Seq<char>, threshold: Seq<char>) -> Seq<char> {
    "LLM risk "@ + risk + " >= threshold "@ + threshold
}

/// The answer to a message: the same message with the text that it may be shown
/// with.
pub open spec fn reply(
    me: Identity,
    uuid: Seq<char>,
    chat: message::ChatMessageView,
    shown: Seq<char>,
) -> message::ContainerView {
    me.envelope(
        message::PayloadView::MessagePreProcess(
            message::MessagePreProcessView {
                audio: Seq::empty(),
                audio_type: Seq::empty(),
                message_uuid7: uuid,
                raw_message: Some(message::ChatMessageView { raw_message: shown, ..chat }),
            },
        ),
    )
}

/// The text that a message may be shown with: its own, or the censored one where
/// it was flagged.
pub open spec fn shown_for(
    config: config::ConfigView,
    chat: message::ChatMessageView,
    reason: Option<Seq<char>>,
) -> Seq<char> {
    match reason {
        Some(_) => config::after_censor(config, chat.raw_message),
        None => chat.raw_message,
    }
}

/// What is sent about a message that was flagged for a reason, or was not. The
/// answer comes last; in front of it stands the record of a flagged message,
/// where such records are wanted.
pub open spec fn verdict(
    me: Identity,
    config: config::ConfigView,
    uuid: Seq<char>,
    chat: message::ChatMessageView,
    reason: Option<Seq<char>>,
) -> Seq<message::ContainerView> {
    match reason {
        Some(reason) => {
            let shown = config::after_censor(config, chat.raw_message);
            if config.flag_for_review {
                seq![
                    me.envelope(
                        message::PayloadView::ChatMessageRejected(
                            message::rejected(uuid, chat, shown, reason),
                        ),
                    ),
                    reply(me, uuid, chat, shown),
                ]
            } else {
                seq![reply(me, uuid, chat, shown)]
            }
        },
        None => seq![reply(me, uuid, chat, chat.raw_message)],
    }
}

/// What becomes of a message that was flagged for a reason, or was not.
pub open spec fn outcome(
    me: Identity,
    config: config::ConfigView,
    uuid: Seq<char>,
    chat: message::ChatMessageView,
    reason: Option<Seq<char>>,
) -> OutcomeView {
    OutcomeView {
        uuid,
        original: chat.raw_message,
        reason,
        shown: shown_for(config, chat, reason),
        send: verdict(me, config, uuid, chat, reason),
    }
}

/// What to do about a message.
pub open spec fn on_message(
    me: Identity,
    config: config::ConfigView,
    uuid: Seq<char>,
    chat: message::ChatMessageView,
) -> StepView {
    match detect::detection(chat.raw_message, config.banned_words) {
        Some((word, variant)) => StepView::Answer(
            outcome(me, config, uuid, chat, Some(word_reason(word, variant.name()))),
        ),
        None => if config.llm_review {
            StepView::Review(uuid, chat)
        } else {
            StepView::Answer(outcome(me, config, uuid, chat, None))
        },
    }
}

/// What to do about a payload: a check that the module is alive is answered with
/// the token that it has, a response of the operator is handed on, a message is
/// filtered, and anything else is ignored.
pub open spec fn step_for(
    me: Identity,
    config: config::ConfigView,
    payload: Option<message::PayloadView>,
) -> StepView {
    match payload {
        Some(message::PayloadView::AuthVerify(_)) => StepView::Send(
            me.envelope(message::PayloadView::AuthVerify(me.auth_token@)),
        ),
        Some(message::PayloadView::PromptResponse(response)) => StepView::Forward(response),
        Some(message::PayloadView::MessagePreProcess(pre)) => match pre.raw_message {
            Some(chat) => on_message(me, config, pre.message_uuid7, chat),
            None => StepView::Ignore,
        },
        _ => StepView::Ignore,
    }
}

/// Why a message is flagged after its review, if it is.
pub open spec fn review_reason(
    worker: ReviewWorker,
    score: Option<Score>,
    score_text: Seq<char>,
    threshold_text: Seq<char>,
) -> Option<Seq<char>> {
    match score {
        Some(risk) => if risk.is_at_least(worker.threshold) {
            Some(risk_reason(score_text, threshold_text))
        } else {
            None
        },
        None => None,
    }
}

/// Why a message that spells a banned word is flagged.
pub fn banned_word_reason(word: &str, variant: &str) -> (r: String)
    ensures
        r@ == word_reason(word@, variant@),
{
    let mut r = "banned word '".to_string();
    r.append(word);
    r.append("' via ");
    r.append(variant);
    r.append(" variant");
    r
}

/// Why a message that the review takes for a risk is flagged.
pub fn high_risk_reason(risk: &str, threshold: &str) -> (r: String)
    ensures
        r@ == risk_reason(risk@, threshold@),
{
    let mut r = "LLM risk ".to_string();
    r.append(risk);
    r.append(" >= threshold ");
    r.append(threshold);
    r
}

/// What becomes of a message that was flagged for a reason, or was not.
pub fn conclude(
    me: &Identity,
    config: &Config,
    uuid: &str,
    chat: &ChatMessage,
    reason: Option<String>,
) -> (r: Outcome)
    ensures
        r@ == outcome(*me, config@, uuid@, chat@, config::optional(reason)),
{
    let mut send: Vec<Container> = Vec::new();
    let shown = match &reason {
        Some(_) => config::apply_censor(config, chat.raw_message.as_str()),
        None => chat.raw_message.clone(),
    };
    if let Some(why) = &reason {
        if config.flag_for_review {
            let record = message::compose_rejected(uuid, chat, shown.as_str(), why.as_str());
            send.push(me.wrap(Payload::ChatMessageRejected(record)));
        }
    }
    let answer = MessagePreProcess {
        audio: Vec::new(),
        audio_type: String::new(),
        message_uuid7: uuid.to_string(),
        raw_message: Some(chat.with_text(shown.clone())),
    };
    send.push(me.wrap(Payload::MessagePreProcess(answer)));
    assert(views(send@) =~= verdict(*me, config@, uuid@, chat@, config::optional(reason)));
    Outcome { uuid: uuid.to_string(), original: chat.raw_message.clone(), reason, shown, send }
}

/// What to do about a payload of the engine.
pub fn on_payload(me: &Identity, config: &Config, payload: Option<Payload>) -> (r: Step)
    ensures
        r@ == step_for(
            *me,
            config@,
            match payload {
                Some(payload) => Some(payload@),
                None => None,
            },
        ),
{
    match payload {
        Some(Payload::AuthVerify(_)) => {
            Step::Send(
                me.wrap(Payload::AuthVerify(AuthVerify { cur_auth: me.auth_token.clone() })),
            )
        },
        Some(Payload::PromptResponse(response)) => Step::Forward(response),
        Some(Payload::MessagePreProcess(pre)) => match pre.raw_message {
            Some(chat) => {
                match detect::detect_banned(
                    chat.raw_message.as_str(),
                    config.banned_words.as_slice(),
                ) {
                    Some((word, variant)) => {
                        let reason = banned_word_reason(word.as_str(), variant);
                        Step::Answer(
                            conclude(me, config, pre.message_uuid7.as_str(), &chat, Some(reason)),
                        )
                    },
                    None => {
                        if config.llm_review {
                            Step::Review(pre.message_uuid7, chat)
                        } else {
                            Step::Answer(
                                conclude(me, config, pre.message_uuid7.as_str(), &chat, None),
                            )
                        }
                    },
                }
            },
            None => Step::Ignore,
        },
        _ => Step::Ignore,
    }
}

/// What becomes of a message after its review, which came to `score` or to
/// nothing: a risk at or above the threshold is treated exactly like a banned
/// word. `score_text` and `threshold_text` are the numbers as they are shown.
pub fn after_review(
    me: &Identity,
    config: &Config,
    worker: &ReviewWorker,
    uuid: &str,
    chat: &ChatMessage,
    score: Option<Score>,
    score_text: &str,
    threshold_text: &str,
) -> (r: Outcome)
    ensures
        r@ == outcome(
            *me,
            config@,
            uuid@,
            chat@,
            review_reason(*worker, score, score_text@, threshold_text@),
        ),
        score matches Some(risk) ==> (r.reason is Some <==> {
            &&& !risk.is_nan()
            &&& !worker.threshold.is_nan()
            &&& risk.value() >= worker.threshold.value()
        }),
        score is None ==> r.reason is None,
        r.reason is None ==> r.shown@ == chat.raw_message@,
{
    match score {
        Some(risk) => {
            if worker.is_hit(risk) {
                let reason = high_risk_reason(score_text, threshold_text);
                conclude(me, config, uuid, chat, Some(reason))
            } else {
                conclude(me, config, uuid, chat, None)
            }
        },
        None => conclude(me, config, uuid, chat, None),
    }
}

/// Every message gets exactly one answer, as the last thing sent about it, under
/// the identifier that it came with; the answer differs from the message in
/// nothing but the text, and in the text only where the message was flagged.
pub proof fn law_one_answer(
    me: Identity,
    config: config::ConfigView,
    uuid: Seq<char>,
    chat: message::ChatMessageView,
    reason: Option<Seq<char>>,
)
    ensures
        ({
            let sent = verdict(me, config, uuid, chat, reason);
            &&& sent.len() > 0
            &&& sent.last() == reply(me, uuid, chat, shown_for(config, chat, reason))
            &&& forall|i: int|
                0 <= i < sent.len() - 1 ==> !((#[trigger] sent[i]).payload
                    matches Some(message::PayloadView::MessagePreProcess(_)))
            &&& reason is None ==> shown_for(config, chat, reason) == chat.raw_message
        }),
{
}

/// A record of a message is sent exactly where it was flagged and records are
/// wanted; it holds the message as it came, the text of the answer and the
/// reason.
pub proof fn law_record_iff_wanted(
    me: Identity,
    config: config::ConfigView,
    uuid: Seq<char>,
    chat: message::ChatMessageView,
    reason: Option<Seq<char>>,
)
    ensures
        ({
            let sent = verdict(me, config, uuid, chat, reason);
            if reason is Some && config.flag_for_review {
                &&& sent.len() == 2
                &&& sent[0] == me.envelope(
                    message::PayloadView::ChatMessageRejected(
                        message::rejected(
                            uuid,
                            chat,
                            shown_for(config, chat, reason),
                            reason.unwrap(),
                        ),
                    ),
                )
            } else {
                sent.len() == 1
            }
        }),
{
}

/// Where review is off, no message is reviewed: the module is purely the
/// word-list filter.
pub proof fn law_review_only_if_wanted(
    me: Identity,
    config: config::ConfigView,
    payload: Option<message::PayloadView>,
)
    ensures
        step_for(me, config, payload) is Review ==> config.llm_review,
{
}

/// A message in which a banned word is detected is answered at once, whatever a
/// review would say, and one in which none is and that is not reviewed is
/// answered unchanged.
pub proof fn law_word_list_decides_first(
    me: Identity,
    config: config::ConfigView,
    uuid: Seq<char>,
    chat: message::ChatMessageView,
)
    ensures
        detect::detection(chat.raw_message, config.banned_words) is Some ==> (on_message(
            me,
            config,
            uuid,
            chat,
        ) matches StepView::Answer(done) && done.send.last() == reply(
            me,
            uuid,
            chat,
            config::after_censor(config, chat.raw_message),
        )),
        detect::detection(chat.raw_message, config.banned_words) is None && !config.llm_review
            ==> (on_message(me, config, uuid, chat) matches StepView::Answer(done) && done.send
            == seq![reply(me, uuid, chat, chat.raw_message)]),
{
}

/// A message whose review yields no score, because it failed, was late or was
/// not made, is answered unchanged.
pub proof fn law_unreviewed_passes(
    me: Identity,
    config: config::ConfigView,
    worker: ReviewWorker,
    uuid: Seq<char>,
    chat: message::ChatMessageView,
    score_text: Seq<char>,
    threshold_text: Seq<char>,
)
    ensures
        verdict(
            me,
            config,
            uuid,
            chat,
            review_reason(worker, None, score_text, threshold_text),
        ) == seq![reply(me, uuid, chat, chat.raw_message)],
{
}

/// The answer to a message goes out last, in the name of the module, under the
/// identifier that the message came with. It is the message as it came but for
/// the text, which is the one that the outcome shows.
pub proof fn law_answer_carries_message(
    me: Identity,
    config: config::ConfigView,
    uuid: Seq<char>,
    chat: message::ChatMessageView,
    reason: Option<Seq<char>>,
)
    ensures
        ({
            let done = outcome(me, config, uuid, chat, reason);
            let sent = done.send.last();
            &&& done.send.len() > 0
            &&& done.uuid == uuid
            &&& done.original == chat.raw_message
            &&& done.reason == reason
            &&& sent.version == 1
            &&& sent.auth_token == me.auth_token@
            &&& sent.module_name == me.module_name@
            &&& sent.module_instance_uuid7 == me.instance_uuid@
            &&& sent.payload matches Some(message::PayloadView::MessagePreProcess(pre))
            &&& pre.message_uuid7 == uuid
            &&& pre.audio.len() == 0
            &&& pre.audio_type.len() == 0
            &&& pre.raw_message matches Some(answer)
            &&& answer.raw_message == done.shown
            &&& answer.platform == chat.platform
            &&& answer.raw_data == chat.raw_data
            &&& answer.user_uuid7 == chat.user_uuid7
            &&& answer.command == chat.command
            &&& answer.user_data == chat.user_data
            &&& answer.channel_id == chat.channel_id
        }),
{
}

/// A message that was not flagged is shown as it came, and nothing but the answer
/// is sent about it. One that was flagged is shown as the sentence mode says.
pub proof fn law_flagged_is_censored(
    me: Identity,
    config: config::ConfigView,
    uuid: Seq<char>,
    chat: message::ChatMessageView,
    reason: Option<Seq<char>>,
)
    ensures
        ({
            let done = outcome(me, config, uuid, chat, reason);
            let tokens = censor::censored(
                chat.raw_message,
                config.banned_words,
                config.censor_mode,
                config.replace_word,
            );
            &&& reason is None ==> done.shown == chat.raw_message && done.send.len() == 1
            &&& reason is Some && config.sentence_mode == "censor"@ ==> {
                &&& done.shown.len() == chat.raw_message.len()
                &&& forall|i: int| 0 <= i < done.shown.len() ==> #[trigger] done.shown[i] == '*'
            }
            &&& reason is Some && config.sentence_mode == "replace"@ ==> done.shown == if
                config.replace_sentence.len() > 0 {
                config.replace_sentence
            } else {
                tokens
            }
            &&& reason is Some && config.sentence_mode != "censor"@ && config.sentence_mode
                != "replace"@ ==> done.shown == tokens
        }),
{
    config::law_sentence_modes(config, chat.raw_message);
}

/// Where records are wanted, that of a flagged message goes out in front of the
/// answer, in the name of the module: it holds the identifier, the message as it
/// came, the text that is shown, the reason and where it comes from. Else there
/// is none.
pub proof fn law_record_carries_reason(
    me: Identity,
    config: config::ConfigView,
    uuid: Seq<char>,
    chat: message::ChatMessageView,
    reason: Option<Seq<char>>,
)
    ensures
        ({
            let done = outcome(me, config, uuid, chat, reason);
            if reason is Some && config.flag_for_review {
                let sent = done.send[0];
                &&& done.send.len() == 2
                &&& sent.version == 1
                &&& sent.auth_token == me.auth_token@
                &&& sent.module_name == me.module_name@
                &&& sent.module_instance_uuid7 == me.instance_uuid@
                &&& sent.payload matches Some(message::PayloadView::ChatMessageRejected(record))
                &&& record.message_uuid7 == uuid
                &&& record.message == Some(chat)
                &&& record.processed_message == done.shown
                &&& Some(record.reason) == reason
                &&& record.origin == "banned-words"@
            } else {
                done.send.len() == 1
            }
        }),
{
}

/// A message is treated the same for whatever reason it is flagged: the same text
/// is shown, and the same answer goes out.
pub proof fn law_reasons_alike(
    me: Identity,
    config: config::ConfigView,
    uuid: Seq<char>,
    chat: message::ChatMessageView,
    one: Seq<char>,
    two: Seq<char>,
)
    ensures
        ({
            let first = outcome(me, config, uuid, chat, Some(one));
            let second = outcome(me, config, uuid, chat, Some(two));
            &&& first.shown == second.shown
            &&& first.send.len() == second.send.len()
            &&& first.send.last() == second.send.last()
        }),
{
}

/// A message that spells a banned word is flagged at once, for the first word of
/// the list that it spells; one that spells none is reviewed where that is
/// wanted, and answered as it came where not.
pub proof fn law_message_is_judged(
    me: Identity,
    config: config::ConfigView,
    pre: message::MessagePreProcessView,
    chat: message::ChatMessageView,
)
    requires
        pre.raw_message == Some(chat),
    ensures
        ({
            let step = step_for(me, config, Some(message::PayloadView::MessagePreProcess(pre)));
            let low = text::lowercase(chat.raw_message);
            let words = config.banned_words;
            let spells = exists|i: int|
                0 <= i < words.len() && detect::spelled(low, text::lowercase(#[trigger] words[i]));
            &&& spells ==> exists|i: int, variant: detect::Variant|
                {
                    &&& 0 <= i < words.len()
                    &&& detect::spelled(low, text::lowercase(words[i]))
                    &&& forall|j: int|
                        0 <= j < i ==> !detect::spelled(low, text::lowercase(#[trigger] words[j]))
                    &&& detect::word_variant(low, text::lowercase(words[i])) == Some(variant)
                    &&& step == StepView::Answer(
                        outcome(
                            me,
                            config,
                            pre.message_uuid7,
                            chat,
                            Some(
                                #[trigger] word_reason(
                                    text::lowercase(words[i]),
                                    variant.name(),
                                ),
                            ),
                        ),
                    )
                }
            &&& !spells && config.llm_review ==> step == StepView::Review(pre.message_uuid7, chat)
            &&& !spells && !config.llm_review ==> step == StepView::Answer(
                outcome(me, config, pre.message_uuid7, chat, None),
            )
        }),
{
    let low = text::lowercase(chat.raw_message);
    let words = config.banned_words;
    detect::law_first_banned_word(chat.raw_message, words);
    detect::law_flagged_iff_spelled(chat.raw_message, words);
    if let Some((word, variant)) = detect::detection(chat.raw_message, words) {
        let i = choose|i: int|
            {
                &&& 0 <= i < words.len()
                &&& word == text::lowercase(#[trigger] words[i])
                &&& detect::word_variant(low, word) == Some(variant)
                &&& forall|j: int|
                    0 <= j < i ==> !detect::spelled(low, text::lowercase(#[trigger] words[j]))
            };
        detect::law_variant_iff_spelled(low, word);
        let why = word_reason(text::lowercase(words[i]), variant.name());
        assert(why == word_reason(word, variant.name()));
    }
}

/// A check that the module is alive is answered with the module's own token,
/// whatever came with it; the operator's response is handed on as it is; what has
/// no message to filter is ignored.
pub proof fn law_rest_of_payloads(
    me: Identity,
    config: config::ConfigView,
    token: Seq<char>,
    response: crate::prompt::PromptResponseView,
    payload: Option<message::PayloadView>,
)
    ensures
        step_for(me, config, Some(message::PayloadView::AuthVerify(token))) matches StepView::Send(
            sent,
        ) && {
            &&& sent.version == 1
            &&& sent.auth_token == me.auth_token@
            &&& sent.module_name == me.module_name@
            &&& sent.module_instance_uuid7 == me.instance_uuid@
            &&& sent.payload == Some(message::PayloadView::AuthVerify(me.auth_token@))
        },
        step_for(me, config, Some(message::PayloadView::PromptResponse(response)))
            == StepView::Forward(response),
        step_for(me, config, payload) is Ignore <==> match payload {
            None => true,
            Some(message::PayloadView::MessagePreProcess(pre)) => pre.raw_message is None,
            Some(message::PayloadView::AuthVerify(_)) => false,
            Some(message::PayloadView::PromptResponse(_)) => false,
            Some(message::PayloadView::Prompt(_)) => true,
            Some(message::PayloadView::ChatMessageRejected(_)) => true,
            Some(message::PayloadView::Other) => true,
        },
{
}

/// A review that yields a score flags the message exactly where the score and the
/// worker's threshold are numbers and the score is not the smaller; one that
/// yields none never does.
pub proof fn law_risk_decides(
    me: Identity,
    config: config::ConfigView,
    worker: ReviewWorker,
    uuid: Seq<char>,
    chat: message::ChatMessageView,
    risk: Score,
    risk_text: Seq<char>,
    threshold_text: Seq<char>,
)
    ensures
        ({
            let why = review_reason(worker, Some(risk), risk_text, threshold_text);
            let done = outcome(me, config, uuid, chat, why);
            &&& done.reason is Some <==> {
                &&& !risk.is_nan()
                &&& !worker.threshold.is_nan()
                &&& risk.value() >= worker.threshold.value()
            }
            &&& done.reason is Some ==> done.reason == Some(risk_reason(risk_text, threshold_text))
        }),
        outcome(
            me,
            config,
            uuid,
            chat,
            review_reason(worker, None, risk_text, threshold_text),
        ).reason is None,
{
}

/// A message that is flagged at one score is flagged at every higher one, and
/// shown the same; one that passes at a score passes at every lower one.
pub proof fn law_higher_risk_flags_too(
    me: Identity,
    config: config::ConfigView,
    worker: ReviewWorker,
    uuid: Seq<char>,
    chat: message::ChatMessageView,
    low: Score,
    high: Score,
    low_text: Seq<char>,
    high_text: Seq<char>,
    threshold_text: Seq<char>,
)
    requires
        !low.is_nan(),
        !high.is_nan(),
        low.value() <= high.value(),
    ensures
        ({
            let at_low = outcome(
                me,
                config,
                uuid,
                chat,
                review_reason(worker, Some(low), low_text, threshold_text),
            );
            let at_high = outcome(
                me,
                config,
                uuid,
                chat,
                review_reason(worker, Some(high), high_text, threshold_text),
            );
            &&& at_low.reason is Some ==> at_high.reason is Some && at_high.shown == at_low.shown
            &&& at_high.reason is None ==> at_low.reason is None && at_low.shown
                == chat.raw_message
        }),
{
}

/// The reasons tell what was found: the word and the variant, or the risk and the
/// threshold, each in its place and in full.
pub proof fn law_reasons_in_full(one: Seq<char>, two: Seq<char>)
    ensures
        ({
            let why = word_reason(one, two);
            let n = one.len() as int;
            let m = two.len() as int;
            &&& why.len() == 27 + n + m
            &&& why.take(13) == "banned word '"@
            &&& why.subrange(13, 13 + n) == one
            &&& why.subrange(13 + n, 19 + n) == "' via "@
            &&& why.subrange(19 + n, 19 + n + m) == two
            &&& why.skip(19 + n + m) == " variant"@
        }),
        ({
            let why = risk_reason(one, two);
            let n = one.len() as int;
            &&& why.len() == 23 + n + two.len()
            &&& why.take(9) == "LLM risk "@
            &&& why.subrange(9, 9 + n) == one
            &&& why.subrange(9 + n, 23 + n) == " >= threshold "@
            &&& why.skip(23 + n) == two
        }),
{
    reveal_strlit("banned word '");
    reveal_strlit("' via ");
    reveal_strlit(" variant");
    reveal_strlit("LLM risk ");
    reveal_strlit(" >= threshold ");
    let n = one.len() as int;
    let m = two.len() as int;
    let word = word_reason(one, two);
    assert(word.take(13) =~= "banned word '"@);
    assert(word.subrange(13, 13 + n) =~= one);
    assert(word.subrange(13 + n, 19 + n) =~= "' via "@);
    assert(word.subrange(19 + n, 19 + n + m) =~= two);
    assert(word.skip(19 + n + m) =~= " variant"@);
    let risk = risk_reason(one, two);
    assert(risk.take(9) =~= "LLM risk "@);
    assert(risk.subrange(9, 9 + n) =~= one);
    assert(risk.subrange(9 + n, 23 + n) =~= " >= threshold "@);
    assert(risk.skip(23 + n) =~= two);
}

} // verus!

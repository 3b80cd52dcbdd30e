use banned_words::config::{
    apply_censor, begin_load, config_from_answers, continue_load, default_config, default_mode,
    default_review_engine, default_review_threshold, default_sentence_mode, merge_settings,
    mode_question, pick_settings, settings_text, words_question, Config, LoadState, LoadStep,
};
use banned_words::filter::{
    after_review, banned_word_reason, conclude, high_risk_reason, on_payload, Outcome, Step,
};
use banned_words::json::JsonKind;
use banned_words::message::{
    compose_rejected, AuthVerify, ChatMessage, Container, Identity, MessagePreProcess, Payload,
};
use banned_words::prompt::{
    keep_waiting, new_prompt, on_prompt_event, prompt_with_id, PromptEvent, PromptKind,
    PromptResponse, PromptStep,
};
use banned_words::review::{
    judge_reply, read_reply, review_command, review_request, Reply, ReviewEvent, ReviewStep,
    ReviewWorker,
};
use banned_words::score::Score;

fn score(x: f64) -> Score {
    Score::from_bits(x.to_bits())
}

fn cfg_with_review() -> Config {
    Config {
        llm_review: true,
        llm_review_threshold: score(0.5),
        llm_review_engine: "deberta".to_string(),
        ..default_config()
    }
}

#[test]
fn llm_review_off_by_default() {
    assert!(!default_config().llm_review);
    assert_eq!(f64::from_bits(default_config().llm_review_threshold.to_bits()), 0.5);
    assert_eq!(default_config().llm_review_engine, "deberta");
}

#[test]
fn threshold_hit_and_miss() {
    let w = ReviewWorker::new(true, "deberta".to_string(), score(0.5));
    assert!(w.is_hit(score(0.9)));
    assert!(w.is_hit(score(0.5))); // >= threshold is a hit
    assert!(!w.is_hit(score(0.3)));
    assert!(!w.is_hit(score(0.0)));

    let strict = ReviewWorker::new(true, "deberta".to_string(), score(0.9));
    assert!(!strict.is_hit(score(0.5)));
    assert!(strict.is_hit(score(0.95)));
}

#[test]
fn disabled_worker_never_reviews() {
    // A disabled worker is a no-op: review() yields no score without spawning.
    let w = ReviewWorker::new(false, "deberta".to_string(), score(0.5));
    let r = match w.review("anything") {
        ReviewStep::Done(r) => r,
        _ => panic!("a disabled worker has nothing to do"),
    };
    assert!(r.is_none());
}

#[test]
fn compose_rejected_carries_reason_raw_processed() {
    let chat = ChatMessage {
        platform: "twitch".into(),
        raw_data: vec![],
        raw_message: "b4dx".into(),
        user_uuid7: "u1".into(),
        command: None,
        user_data: None,
        channel_id: "chan".into(),
    };
    let rej = compose_rejected("uuid-9", &chat, "b*d*", "banned word 'x' via leet");
    assert_eq!(rej.message_uuid7, "uuid-9");
    assert_eq!(rej.origin, "banned-words");
    assert_eq!(rej.reason, "banned word 'x' via leet");
    assert_eq!(rej.processed_message, "b*d*");
    let raw = rej.message.unwrap();
    assert_eq!(raw.raw_message, "b4dx");
    assert_eq!(raw.platform, "twitch");
}

#[test]
fn apply_censor_sentence_and_token_modes() {
    let mut cfg = cfg_with_review();
    cfg.sentence_mode = "censor".to_string();
    assert_eq!(apply_censor(&cfg, "some badword here"), "*".repeat(17));

    cfg.sentence_mode = "replace".to_string();
    cfg.replace_sentence = "[removed]".to_string();
    assert_eq!(apply_censor(&cfg, "some badword here"), "[removed]");

    cfg.sentence_mode = "none".to_string();
    cfg.replace_sentence = String::new();
    cfg.censor_mode = "hard".to_string();
    assert_eq!(apply_censor(&cfg, "badword is a word"), "******* is a word");
}

#[test]
fn sentence_replace_without_a_sentence_censors_tokens() {
    let mut cfg = default_config();
    cfg.sentence_mode = "replace".to_string();
    assert_eq!(apply_censor(&cfg, "some badword here"), "some b*****d here");
}

#[test]
fn defaults_are_as_documented() {
    assert_eq!(default_mode(), "soft");
    assert_eq!(default_sentence_mode(), "none");
    assert_eq!(default_review_threshold().to_bits(), 0.5f64.to_bits());
    assert_eq!(default_review_engine(), "deberta");
    let cfg = default_config();
    assert_eq!(cfg.banned_words, vec!["cheese".to_string(), "badword".to_string()]);
    assert_eq!(cfg.censor_mode, "soft");
    assert_eq!(cfg.replace_word, "");
    assert!(!cfg.flag_for_review);
    assert_eq!(cfg.sentence_mode, "none");
    assert_eq!(cfg.replace_sentence, "");
}

#[test]
fn scores_compare_as_doubles() {
    let xs = [
        0.0,
        -0.0,
        0.5,
        -0.5,
        1.0,
        0.9,
        0.3,
        f64::MIN_POSITIVE,
        f64::MIN_POSITIVE / 2.0,
        -f64::MIN_POSITIVE,
        f64::MAX,
        f64::MIN,
        f64::INFINITY,
        f64::NEG_INFINITY,
        f64::NAN,
        -f64::NAN,
    ];
    for a in xs {
        for b in xs {
            assert_eq!(score(a).at_least(score(b)), a >= b, "{} {}", a, b);
        }
    }
}

#[test]
fn thresholds_are_monotone() {
    let w = ReviewWorker::new(true, String::new(), score(0.5));
    assert!(w.is_hit(score(0.6)) && w.is_hit(score(0.7)));
    let lower = ReviewWorker::new(true, String::new(), score(0.4));
    assert!(lower.is_hit(score(0.6)));
}

#[test]
fn requests_are_one_json_line() {
    assert_eq!(review_request("hi"), "{\"text\":\"hi\"}\n");
    assert_eq!(
        review_request("a\"b\\c\nd\te\r\u{8}\u{c}\u{1}\u{1f}\u{7f}é"),
        "{\"text\":\"a\\\"b\\\\c\\nd\\te\\r\\b\\f\\u0001\\u001f\u{7f}é\"}\n"
    );
    let all: String = ('\0'..'\u{100}').collect();
    let line = review_request(&all);
    assert_eq!(line.matches('\n').count(), 1);
    assert!(line.ends_with('\n'));
}

#[test]
fn replies_are_judged() {
    assert_eq!(read_reply("{\"risk\": 0.75}\n"), Reply::Risk(score(0.75)));
    assert_eq!(read_reply("{\"risk\": 1}"), Reply::Risk(score(1.0)));
    assert_eq!(read_reply("{\"risk\": 0.1, \"error\": null}"), Reply::Risk(score(0.1)));
    assert_eq!(
        read_reply("{\"risk\": 0.1, \"error\": \"no model\"}"),
        Reply::Broken("no model".to_string())
    );
    assert_eq!(read_reply("{\"error\": \"\"}"), Reply::Broken(String::new()));
    assert_eq!(read_reply("{\"risk\": \"high\"}"), Reply::Nothing);
    assert_eq!(read_reply("{}"), Reply::Nothing);
    assert_eq!(read_reply("[1]"), Reply::Nothing);
    assert_eq!(read_reply("not json"), Reply::Nothing);
    assert_eq!(judge_reply(Some("e".to_string()), Some(0)), Reply::Broken("e".to_string()));
    assert_eq!(judge_reply(None, Some(0)), Reply::Risk(score(0.0)));
    assert_eq!(judge_reply(None, None), Reply::Nothing);
}

fn spawn_line(step: ReviewStep) -> Vec<String> {
    match step {
        ReviewStep::Spawn(command) => command,
        other => panic!("{:?}", other),
    }
}

#[test]
fn a_review_runs_its_course() {
    let mut w = ReviewWorker::new(true, "auto".to_string(), score(0.5));
    let command = spawn_line(w.review("hi"));
    assert_eq!(command, vec!["python3", "worker/review_worker.py", "--engine", "auto"]);
    assert_eq!(command, review_command("auto"));
    assert!(matches!(w.advance("hi", ReviewEvent::Spawned), ReviewStep::Write(l) if l == "{\"text\":\"hi\"}\n"));
    assert!(matches!(w.advance("hi", ReviewEvent::Written), ReviewStep::Read));
    let done = w.advance("hi", ReviewEvent::Line("{\"risk\":0.25}".to_string()));
    assert!(matches!(done, ReviewStep::Done(Some(s)) if s == score(0.25)));
    // The worker is started once.
    assert!(matches!(w.review("again"), ReviewStep::Write(l) if l == "{\"text\":\"again\"}\n"));
    // A late answer costs the review, not the worker.
    assert!(matches!(w.advance("again", ReviewEvent::NoLine), ReviewStep::Done(None)));
    assert!(!w.dead);
    assert_eq!(w.owed, 1);
}

fn line(risk: &str) -> ReviewEvent {
    ReviewEvent::Line(format!("{{\"risk\":{}}}\n", risk))
}

#[test]
fn a_late_answer_is_not_taken_for_the_next_message() {
    let mut w = ReviewWorker::new(true, "deberta".to_string(), score(0.5));
    w.advance("a", ReviewEvent::Spawned);
    assert!(matches!(w.advance("a", ReviewEvent::Written), ReviewStep::Read));
    assert!(matches!(w.advance("a", ReviewEvent::NoLine), ReviewStep::Done(None)));
    assert!(matches!(w.review("b"), ReviewStep::Write(_)));
    assert!(matches!(w.advance("b", ReviewEvent::Written), ReviewStep::Read));
    assert!(matches!(w.advance("b", line("0.9")), ReviewStep::Read));
    assert!(matches!(w.advance("b", line("0.1")), ReviewStep::Done(Some(s)) if s == score(0.1)));
    assert_eq!(w.owed, 0);
    // The next review has nothing to read over.
    assert!(matches!(w.advance("c", ReviewEvent::Written), ReviewStep::Read));
    assert!(matches!(w.advance("c", line("0.3")), ReviewStep::Done(Some(s)) if s == score(0.3)));
}

#[test]
fn all_owed_answers_are_read_over() {
    let mut w = ReviewWorker::new(true, "deberta".to_string(), score(0.5));
    w.advance("a", ReviewEvent::Spawned);
    w.advance("a", ReviewEvent::Written);
    w.advance("a", ReviewEvent::NoLine);
    assert!(matches!(w.advance("b", ReviewEvent::HalfWritten), ReviewStep::Done(None)));
    assert_eq!(w.owed, 2);
    // A request that was not made is not answered.
    assert!(matches!(w.advance("c", ReviewEvent::NotWritten), ReviewStep::Done(None)));
    assert_eq!(w.owed, 2);
    w.advance("d", ReviewEvent::Written);
    assert!(matches!(w.advance("d", line("0.9")), ReviewStep::Read));
    // The review of "d" is cut off as well, between the answers to "a" and "b".
    assert!(matches!(w.advance("d", ReviewEvent::NoLine), ReviewStep::Done(None)));
    assert_eq!(w.owed, 2);
    w.advance("e", ReviewEvent::Written);
    assert!(matches!(w.advance("e", ReviewEvent::Line("?".to_string())), ReviewStep::Read));
    assert!(matches!(w.advance("e", line("0.8")), ReviewStep::Read));
    assert!(matches!(w.advance("e", line("0.2")), ReviewStep::Done(Some(s)) if s == score(0.2)));
    assert!(!w.dead);
}

#[test]
fn a_request_left_unanswered_is_waited_for_ever_after() {
    let mut w = ReviewWorker::new(true, "deberta".to_string(), score(0.5));
    w.advance("a", ReviewEvent::Spawned);
    w.advance("a", ReviewEvent::Written);
    w.advance("a", ReviewEvent::NoLine);
    for _ in 0..3 {
        assert!(matches!(w.advance("b", ReviewEvent::Written), ReviewStep::Read));
        assert!(matches!(w.advance("b", line("0.9")), ReviewStep::Read));
        assert!(matches!(w.advance("b", ReviewEvent::NoLine), ReviewStep::Done(None)));
        assert_eq!(w.owed, 1);
    }
    assert!(!w.dead);
}

#[test]
fn an_answer_without_a_risk_gives_no_score() {
    let mut w = ReviewWorker::new(true, "deberta".to_string(), score(0.5));
    w.advance("a", ReviewEvent::Spawned);
    w.advance("a", ReviewEvent::Written);
    let odd = w.advance("a", ReviewEvent::Line("?".to_string()));
    assert!(matches!(odd, ReviewStep::Done(None)));
    assert!(!w.dead);
    assert_eq!(w.owed, 0);
}

#[test]
fn a_full_count_of_owed_answers_stays() {
    let mut w = ReviewWorker::new(true, "deberta".to_string(), score(0.5));
    w.owed = u64::MAX;
    w.advance("a", ReviewEvent::NoLine);
    assert_eq!(w.owed, u64::MAX);
}

#[test]
fn a_failed_worker_is_given_up_for_good() {
    let events = [
        ReviewEvent::SpawnFailed,
        ReviewEvent::WriteFailed,
        ReviewEvent::Line("{\"error\":\"gated\"}".to_string()),
    ];
    for event in events {
        let mut w = ReviewWorker::new(true, "deberta".to_string(), score(0.5));
        assert!(matches!(w.advance("x", event), ReviewStep::Done(None)));
        assert!(w.dead);
        w.advance("x", ReviewEvent::Spawned);
        w.advance("x", ReviewEvent::Line("{\"risk\":1}".to_string()));
        assert!(w.dead);
        assert!(matches!(w.review("x"), ReviewStep::Done(None)));
        assert_eq!(w.engine, "deberta");
    }
}

#[test]
fn answers_make_settings() {
    let cfg = config_from_answers(Some(" foo, ,bar ".to_string()), Some("hard".to_string()));
    assert_eq!(cfg.banned_words, vec!["foo".to_string(), "bar".to_string()]);
    assert_eq!(cfg.censor_mode, "hard");
    assert!(!cfg.llm_review);
    for mode in ["soft", "mid", "hard", "replace"] {
        assert_eq!(config_from_answers(None, Some(mode.to_string())).censor_mode, mode);
    }
    let cfg = config_from_answers(Some(" , ".to_string()), Some("HARD".to_string()));
    assert_eq!(cfg.banned_words, default_config().banned_words);
    assert_eq!(cfg.censor_mode, "soft");
    let cfg = config_from_answers(None, None);
    assert_eq!(cfg.banned_words, default_config().banned_words);
    assert_eq!(cfg.censor_mode, "soft");
    assert_eq!(cfg.sentence_mode, "none");
}

#[test]
fn settings_are_loaded_or_asked_for() {
    let mut saved = default_config();
    saved.censor_mode = "mid".to_string();
    assert!(matches!(begin_load(Some(saved)), LoadStep::Use(c) if c.censor_mode == "mid"));

    let (question, state) = match begin_load(None) {
        LoadStep::Ask(q, s) => (q, s),
        LoadStep::Use(_) => panic!("nothing was saved"),
    };
    assert_eq!(question.input_label, "Banned words (comma-separated)");
    assert_eq!(question.timeout, 60);
    assert!(matches!(state, LoadState::Words));
    let (question, state) = match continue_load(state, Some("x,y".to_string())) {
        LoadStep::Ask(q, s) => (q, s),
        LoadStep::Use(_) => panic!("the mode was not asked for"),
    };
    assert_eq!(question.input_label, "censor mode: soft|mid|hard|replace");
    match continue_load(state, None) {
        LoadStep::Use(c) => {
            assert_eq!(c.banned_words, vec!["x".to_string(), "y".to_string()]);
            assert_eq!(c.censor_mode, "soft");
        }
        LoadStep::Ask(_, _) => panic!("everything was asked for"),
    }
    assert_eq!(words_question().title, mode_question().title);
    assert_eq!(mode_question().kind, PromptKind::Text);
}

#[test]
fn module_specific_settings_are_preferred() {
    assert_eq!(
        settings_text("{\"ip\": \"x\", \"module_specific\": {\"censor_mode\" : \"mid\"}}"),
        Some("{\"censor_mode\":\"mid\"}".to_string())
    );
    let legacy = "{\"censor_mode\": \"hard\"}";
    assert_eq!(settings_text(legacy), Some(legacy.to_string()));
    let odd = "{\"module_specific\": 3}";
    assert_eq!(settings_text(odd), Some(odd.to_string()));
    assert_eq!(settings_text("[]"), Some("[]".to_string()));
    assert_eq!(settings_text("{"), None);
    assert_eq!(pick_settings("f", Some("m".to_string()), Some(JsonKind::Object)), "m");
    assert_eq!(pick_settings("f", Some("m".to_string()), Some(JsonKind::Array)), "f");
    assert_eq!(pick_settings("f", None, None), "f");
}

#[test]
fn saved_settings_are_read_again() {
    let settings = "{\"llm_review_threshold\": 0.30000000000000004, \"censor_mode\": \"mid\"}";
    let compact = "{\"censor_mode\":\"mid\",\"llm_review_threshold\":0.30000000000000004}";
    let file = "{\"port\": 9, \"module_specific\": {\"old\": true}, \"ip\": \"::1\"}";
    let out = merge_settings(Some(file), settings).unwrap();
    assert_eq!(settings_text(&out), Some(compact.to_string()));
    assert_eq!(
        out,
        "{\n  \"ip\": \"::1\",\n  \"module_specific\": {\n    \"censor_mode\": \"mid\",\n    \
         \"llm_review_threshold\": 0.30000000000000004\n  },\n  \"port\": 9\n}"
    );
    // A legacy file keeps its fields beside the new object.
    let out = merge_settings(Some("{\"censor_mode\": \"hard\"}"), settings).unwrap();
    assert_eq!(settings_text(&out), Some(compact.to_string()));
    assert!(out.contains("\"censor_mode\": \"hard\""));
    for fresh in [None, Some("not json"), Some("null"), Some("{}")] {
        let out = merge_settings(fresh, settings).unwrap();
        assert_eq!(settings_text(&out), Some(compact.to_string()));
    }
    for fresh in [None, Some("not json"), Some("null")] {
        assert_eq!(
            merge_settings(fresh, "{\"a\":1}"),
            Some("{\n  \"module_specific\": {\n    \"a\": 1\n  }\n}".to_string())
        );
    }
    assert_eq!(
        merge_settings(None, "not json"),
        Some("{\n  \"module_specific\": null\n}".to_string())
    );
}

#[test]
fn files_without_members_take_no_settings() {
    for file in ["[1]", "3", "true", "\"x\""] {
        assert_eq!(merge_settings(Some(file), "{}"), None);
    }
}

#[test]
fn prompts_carry_the_question() {
    let p = prompt_with_id("id-1".to_string(), "banned-words", &mode_question());
    assert_eq!(p.prompt_id_uuid7, "id-1");
    assert_eq!(p.prompt, "Configure banned-words module");
    assert_eq!(p.details, "Enter the censor mode used when a banned word is detected.");
    assert_eq!(p.yes_dialog, "Submit");
    assert_eq!(p.no_dialog, "Cancel");
    assert_eq!(p.timeout, 60);
    assert_eq!(p.origin, "banned-words");
    assert_eq!(p.origin_uuid7, "");
    assert_eq!(p.instructions, "");
    assert_eq!(p.link, "");
    assert_eq!(p.input_label, "censor mode: soft|mid|hard|replace");
    assert_eq!(p.prompt_type, PromptKind::Text);
}

#[test]
fn new_prompts_have_version_seven_identifiers() {
    let p = new_prompt("m", &words_question());
    let id: Vec<char> = p.prompt_id_uuid7.chars().collect();
    assert_eq!(id.len(), 36);
    for (i, c) in id.iter().enumerate() {
        if [8, 13, 18, 23].contains(&i) {
            assert_eq!(*c, '-');
        } else {
            assert!(c.is_ascii_digit() || ('a'..='f').contains(c));
        }
    }
    assert_eq!(id[14], '7');
    assert!("89ab".contains(id[19]));
    assert_ne!(new_prompt("m", &words_question()).prompt_id_uuid7, p.prompt_id_uuid7);
    assert_eq!(p.origin, "m");
}

fn response(id: &str, accepted: bool) -> PromptEvent {
    PromptEvent::Response(PromptResponse {
        prompt_id_uuid7: id.to_string(),
        accepted,
        reason: "because".to_string(),
    })
}

#[test]
fn only_the_own_answer_ends_a_wait() {
    assert!(matches!(on_prompt_event("a", response("a", true)), PromptStep::Done(Some(r)) if r == "because"));
    assert!(matches!(on_prompt_event("a", response("a", false)), PromptStep::Done(None)));
    assert!(matches!(on_prompt_event("a", response("b", true)), PromptStep::Wait));
    assert!(matches!(on_prompt_event("a", PromptEvent::Elapsed), PromptStep::Wait));
    assert!(matches!(on_prompt_event("a", PromptEvent::Closed), PromptStep::Done(None)));
}

#[test]
fn the_first_own_response_within_the_deadline_decides() {
    let wait = |events: Vec<(u128, PromptEvent)>| {
        for (waited, event) in events {
            if !keep_waiting(60, waited) {
                return PromptStep::Done(None);
            }
            if let PromptStep::Done(answer) = on_prompt_event("a", event) {
                return PromptStep::Done(answer);
            }
        }
        PromptStep::Wait
    };
    let s: u128 = 1_000_000_000;
    let answer = wait(vec![
        (0, PromptEvent::Elapsed),
        (10 * s, response("b", true)),
        (69 * s, response("a", true)),
        (69 * s, response("a", false)),
    ]);
    assert!(matches!(answer, PromptStep::Done(Some(r)) if r == "because"));
    let declined = wait(vec![(0, response("a", false)), (0, response("a", true))]);
    assert!(matches!(declined, PromptStep::Done(None)));
    assert!(matches!(wait(vec![(70 * s, response("a", true))]), PromptStep::Done(None)));
}

#[test]
fn a_wait_lasts_ten_seconds_beyond_the_timeout() {
    assert!(keep_waiting(60, 0));
    assert!(keep_waiting(60, 11_000_000_000));
    assert!(keep_waiting(60, 69_999_999_999));
    assert!(!keep_waiting(60, 70_000_000_000));
    assert!(!keep_waiting(0, 10_000_000_000));
    assert!(keep_waiting(u32::MAX, 4_294_967_305_000_000_000 - 1));
    assert!(!keep_waiting(u32::MAX, 4_294_967_305_000_000_000));
}

fn me() -> Identity {
    Identity {
        auth_token: "token".to_string(),
        module_name: "banned-words".to_string(),
        instance_uuid: "instance".to_string(),
    }
}

fn chat(text: &str) -> ChatMessage {
    ChatMessage {
        platform: "twitch".to_string(),
        raw_data: vec![1, 2],
        raw_message: text.to_string(),
        user_uuid7: "u1".to_string(),
        command: Some(vec![3]),
        user_data: None,
        channel_id: "chan".to_string(),
    }
}

fn pre(text: &str) -> Option<Payload> {
    Some(Payload::MessagePreProcess(MessagePreProcess {
        audio: vec![9],
        audio_type: "ogg".to_string(),
        message_uuid7: "m1".to_string(),
        raw_message: Some(chat(text)),
    }))
}

fn check_envelope(c: &Container) {
    assert_eq!(c.version, 1);
    assert_eq!(c.auth_token, "token");
    assert_eq!(c.module_name, "banned-words");
    assert_eq!(c.module_instance_uuid7, "instance");
}

fn answer_text(c: &Container) -> String {
    check_envelope(c);
    match &c.payload {
        Some(Payload::MessagePreProcess(p)) => {
            assert!(p.audio.is_empty());
            assert_eq!(p.audio_type, "");
            assert_eq!(p.message_uuid7, "m1");
            let chat = p.raw_message.as_ref().unwrap();
            assert_eq!(chat.platform, "twitch");
            assert_eq!(chat.raw_data, vec![1, 2]);
            assert_eq!(chat.user_uuid7, "u1");
            assert_eq!(chat.command, Some(vec![3]));
            assert_eq!(chat.user_data, None);
            assert_eq!(chat.channel_id, "chan");
            chat.raw_message.clone()
        }
        other => panic!("{:?}", other),
    }
}

fn answered(step: Step) -> Outcome {
    match step {
        Step::Answer(outcome) => outcome,
        other => panic!("{:?}", other),
    }
}

#[test]
fn clean_messages_come_back_unchanged() {
    let list = answered(on_payload(&me(), &default_config(), pre("hello friends"))).send;
    assert_eq!(list.len(), 1);
    assert_eq!(answer_text(&list[0]), "hello friends");
}

#[test]
fn flagged_messages_come_back_censored() {
    let list = answered(on_payload(&me(), &default_config(), pre("some CHEESE here"))).send;
    assert_eq!(list.len(), 1);
    assert_eq!(answer_text(&list[0]), "some C****E here");
}

#[test]
fn flagged_messages_are_recorded_where_wanted() {
    let mut cfg = default_config();
    cfg.flag_for_review = true;
    let list = answered(on_payload(&me(), &cfg, pre("some ch33se here"))).send;
    assert_eq!(list.len(), 2);
    check_envelope(&list[0]);
    match &list[0].payload {
        Some(Payload::ChatMessageRejected(r)) => {
            assert_eq!(r.message_uuid7, "m1");
            assert_eq!(r.message.as_ref().unwrap().raw_message, "some ch33se here");
            assert_eq!(r.processed_message, "some c****e here");
            assert_eq!(r.reason, "banned word 'cheese' via leet variant");
            assert_eq!(r.origin, "banned-words");
        }
        other => panic!("{:?}", other),
    }
    assert_eq!(answer_text(&list[1]), "some c****e here");
    let list = answered(on_payload(&me(), &cfg, pre("fine"))).send;
    assert_eq!(list.len(), 1);
}

#[test]
fn probes_are_answered_with_the_token() {
    let probe = Some(Payload::AuthVerify(AuthVerify { cur_auth: "theirs".to_string() }));
    let answer = match on_payload(&me(), &default_config(), probe) {
        Step::Send(container) => container,
        other => panic!("{:?}", other),
    };
    check_envelope(&answer);
    assert!(matches!(&answer.payload, Some(Payload::AuthVerify(a)) if a.cur_auth == "token"));
}

#[test]
fn responses_are_handed_on_and_the_rest_is_ignored() {
    let r = PromptResponse {
        prompt_id_uuid7: "p".to_string(),
        accepted: true,
        reason: "x".to_string(),
    };
    let step = on_payload(&me(), &default_config(), Some(Payload::PromptResponse(r)));
    assert!(matches!(step, Step::Forward(r) if r.reason == "x" && r.accepted));
    assert!(matches!(on_payload(&me(), &default_config(), None), Step::Ignore));
    assert!(matches!(on_payload(&me(), &default_config(), Some(Payload::Other)), Step::Ignore));
    let empty = Payload::MessagePreProcess(MessagePreProcess {
        audio: vec![],
        audio_type: String::new(),
        message_uuid7: "m1".to_string(),
        raw_message: None,
    });
    assert!(matches!(on_payload(&me(), &default_config(), Some(empty)), Step::Ignore));
}

#[test]
fn only_what_the_words_miss_is_reviewed() {
    let cfg = cfg_with_review();
    let (uuid, message) = match on_payload(&me(), &cfg, pre("sly insult")) {
        Step::Review(uuid, message) => (uuid, message),
        other => panic!("{:?}", other),
    };
    assert_eq!(uuid, "m1");
    assert_eq!(message.raw_message, "sly insult");
    assert_eq!(answered(on_payload(&me(), &cfg, pre("cheese"))).send.len(), 1);
}

#[test]
fn a_risk_is_treated_like_a_word() {
    let mut cfg = cfg_with_review();
    cfg.flag_for_review = true;
    cfg.sentence_mode = "censor".to_string();
    let w = ReviewWorker::new(true, "deberta".to_string(), score(0.5));
    let hit = after_review(&me(), &cfg, &w, "m1", &chat("ugh"), Some(score(0.5)), "0.5", "0.5").send;
    assert_eq!(hit.len(), 2);
    match &hit[0].payload {
        Some(Payload::ChatMessageRejected(r)) => {
            assert_eq!(r.reason, "LLM risk 0.5 >= threshold 0.5");
            assert_eq!(r.processed_message, "***");
        }
        other => panic!("{:?}", other),
    }
    assert_eq!(answer_text(&hit[1]), "***");
    let miss = after_review(&me(), &cfg, &w, "m1", &chat("ugh"), Some(score(0.4)), "0.4", "0.5").send;
    assert_eq!(miss.len(), 1);
    assert_eq!(answer_text(&miss[0]), "ugh");
    let none = after_review(&me(), &cfg, &w, "m1", &chat("ugh"), None, "", "").send;
    assert_eq!(none.len(), 1);
    assert_eq!(answer_text(&none[0]), "ugh");
}

#[test]
fn reasons_are_worded() {
    assert_eq!(
        banned_word_reason("cheese", "exact"),
        "banned word 'cheese' via exact variant"
    );
    assert_eq!(high_risk_reason("0.9", "0.5"), "LLM risk 0.9 >= threshold 0.5");
    let outcome = conclude(&me(), &default_config(), "m1", &chat("cheese"), None);
    assert_eq!(answer_text(&outcome.send[0]), "cheese");
}

#[test]
fn outcomes_tell_what_became_of_a_message() {
    let outcome = answered(on_payload(&me(), &default_config(), pre("my cheese")));
    assert_eq!(outcome.uuid, "m1");
    assert_eq!(outcome.original, "my cheese");
    assert_eq!(outcome.shown, "my c****e");
    assert_eq!(
        outcome.reason,
        Some("banned word 'cheese' via exact variant".to_string())
    );
    let outcome = answered(on_payload(&me(), &default_config(), pre("fine")));
    assert_eq!(outcome.shown, "fine");
    assert_eq!(outcome.reason, None);
}

fn nested(depth: usize) -> String {
    format!("{{\"a\":{}{}}}", "[".repeat(depth - 1), "]".repeat(depth - 1))
}

#[test]
fn settings_are_read_again_up_to_the_nesting_limit() {
    let deepest = nested(126);
    let out = merge_settings(Some("{\"pin\": [[1]]}"), &deepest).unwrap();
    assert_eq!(settings_text(&out), Some(deepest));
    let brackets = format!("{{\"a\":\"{}\"}}", "[{".repeat(200));
    let out = merge_settings(None, &brackets).unwrap();
    assert_eq!(settings_text(&out), Some(brackets));
    // One level more is written, but not read again.
    let out = merge_settings(None, &nested(127)).unwrap();
    assert_eq!(settings_text(&out), None);
}

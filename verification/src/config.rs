//! The settings of the filter: their defaults, the file that they are kept in,
//! and the questions that are asked where there is none.

use vstd::prelude::*;
use vstd::string::*;

use crate::censor;
use crate::json;
use crate::list;
use crate::prompt::{PromptKind, Question};
use crate::score::{Score, ONE_HALF};
use crate::text;

verus! {

/// The settings of the filter.
#[derive(Debug, Clone)]
pub struct Config {
    pub banned_words: Vec<String>,
    /// "soft" (default) | "mid" | "hard" | "replace": how a token is censored.
    pub censor_mode: String,
    pub replace_word: String,
    pub flag_for_review: bool,
    /// "none" | "censor" | "replace": apply to the WHOLE message/sentence
    /// instead of just the offending token.
    pub sentence_mode: String,
    pub replace_sentence: String,
    /// Master switch for the optional LLM review. When off (default) the module
    /// is purely the word-list detector/censor.
    pub llm_review: bool,
    /// The "risk certainty" (0 to 1): a review score >= this is treated as a hit.
    pub llm_review_threshold: Score,
    /// "deberta" (default) | "llama-guard" | "auto".
    pub llm_review_engine: String,
}

/// The settings, as their texts.
pub ghost struct ConfigView {
    pub banned_words: Seq<Seq<char>>,
    pub censor_mode: Seq<char>,
    pub replace_word: Seq<char>,
    pub flag_for_review: bool,
    pub sentence_mode: Seq<char>,
    pub replace_sentence: Seq<char>,
    pub llm_review: bool,
    pub llm_review_threshold: Score,
    pub llm_review_engine: Seq<char>,
}

impl View for Config {
    type V = ConfigView;

    open spec fn view(&self) -> ConfigView {
        ConfigView {
            banned_words: text::texts(self.banned_words@),
            censor_mode: self.censor_mode@,
            replace_word: self.replace_word@,
            flag_for_review: self.flag_for_review,
            sentence_mode: self.sentence_mode@,
            replace_sentence: self.replace_sentence@,
            llm_review: self.llm_review,
            llm_review_threshold: self.llm_review_threshold,
            llm_review_engine: self.llm_review_engine@,
        }
    }
}

/// The default way to censor a token.
pub fn default_mode() -> (r: String)
    ensures
        r@ == "soft"@,
{
    "soft".to_string()
}

/// The default way to treat a whole message: not at all.
pub fn default_sentence_mode() -> (r: String)
    ensures
        r@ == "none"@,
{
    "none".to_string()
}

/// The default risk certainty, 0.5.
pub fn default_review_threshold() -> (r: Score)
    ensures
        r.bits == ONE_HALF,
{
    Score { bits: ONE_HALF }
}

/// The default review engine.
pub fn default_review_engine() -> (r: String)
    ensures
        r@ == "deberta"@,
{
    "deberta".to_string()
}

/// The default settings.
pub open spec fn defaults() -> ConfigView {
    ConfigView {
        banned_words: seq!["cheese"@, "badword"@],
        censor_mode: "soft"@,
        replace_word: Seq::empty(),
        flag_for_review: false,
        sentence_mode: "none"@,
        replace_sentence: Seq::empty(),
        llm_review: false,
        llm_review_threshold: Score { bits: ONE_HALF },
        llm_review_engine: "deberta"@,
    }
}

/// The default settings.
pub fn default_config() -> (r: Config)
    ensures
        r@ == defaults(),
{
    let mut banned_words: Vec<String> = Vec::new();
    banned_words.push("cheese".to_string());
    banned_words.push("badword".to_string());
    assert(text::texts(banned_words@) =~= defaults().banned_words);
    Config {
        banned_words,
        censor_mode: default_mode(),
        replace_word: String::new(),
        flag_for_review: false,
        sentence_mode: default_sentence_mode(),
        replace_sentence: String::new(),
        llm_review: false,
        llm_review_threshold: default_review_threshold(),
        llm_review_engine: default_review_engine(),
    }
}

/// A flagged message after the configured censor.
pub open spec fn after_censor(config: ConfigView, original: Seq<char>) -> Seq<char> {
    if config.sentence_mode == "censor"@ {
        censor::stars(original.len())
    } else if config.sentence_mode == "replace"@ && config.replace_sentence.len() > 0 {
        config.replace_sentence
    } else {
        censor::censored(original, config.banned_words, config.censor_mode, config.replace_word)
    }
}

/// Apply the configured censor (sentence or token mode) to a flagged message.
pub fn apply_censor(config: &Config, original: &str) -> (r: String)
    ensures
        r@ == after_censor(config@, original@),
        config.sentence_mode@ == "censor"@ ==> r@.len() == original@.len() && forall|i: int|
            0 <= i < r@.len() ==> #[trigger] r@[i] == '*',
        config.sentence_mode@ == "replace"@ && config.replace_sentence@.len() > 0 ==> r@
            == config.replace_sentence@,
        config.sentence_mode@ != "censor"@ && (config.sentence_mode@ != "replace"@
            || config.replace_sentence@.len() == 0) ==> r@ == censor::censored(
            original@,
            text::texts(config.banned_words@),
            config.censor_mode@,
            config.replace_word@,
        ),
{
    proof {
        law_sentence_modes(config@, original@);
    }
    if text::is_text(config.sentence_mode.as_str(), "censor") {
        return censor::star_text(original.unicode_len());
    }
    if text::is_text(config.sentence_mode.as_str(), "replace")
        && !config.replace_sentence.as_str().is_empty() {
        return config.replace_sentence.clone();
    }
    censor::censor_message(
        original,
        config.banned_words.as_slice(),
        config.censor_mode.as_str(),
        config.replace_word.as_str(),
    )
}

/// The names of the ways to censor a token.
pub open spec fn is_censor_mode(mode: Seq<char>) -> bool {
    mode == "soft"@ || mode == "mid"@ || mode == "hard"@ || mode == "replace"@
}

/// The settings that the operator's answers make: the words listed, where any
/// are, the mode named, where it is one, and defaults for the rest.
pub open spec fn answered(words: Option<Seq<char>>, mode: Option<Seq<char>>) -> ConfigView {
    ConfigView {
        banned_words: match words {
            Some(answer) => if list::entries(answer).len() > 0 {
                list::entries(answer)
            } else {
                defaults().banned_words
            },
            None => defaults().banned_words,
        },
        censor_mode: match mode {
            Some(name) => if is_censor_mode(name) {
                name
            } else {
                defaults().censor_mode
            },
            None => defaults().censor_mode,
        },
        ..defaults()
    }
}

/// The text of an optional string.
pub open spec fn optional(s: Option<String>) -> Option<Seq<char>> {
    match s {
        Some(s) => Some(s@),
        None => None,
    }
}

/// The text of an optional string slice.
pub open spec fn optional_str(s: Option<&str>) -> Option<Seq<char>> {
    match s {
        Some(s) => Some(s@),
        None => None,
    }
}

/// The settings that the operator's answers make.
pub fn config_from_answers(words: Option<String>, mode: Option<String>) -> (r: Config)
    ensures
        r@ == answered(optional(words), optional(mode)),
{
    let mut config = default_config();
    if let Some(answer) = words {
        let listed = list::split_entries(answer.as_str());
        if listed.len() != 0 {
            config.banned_words = listed;
        }
    }
    if let Some(name) = mode {
        if text::is_text(name.as_str(), "soft") || text::is_text(name.as_str(), "mid")
            || text::is_text(name.as_str(), "hard") || text::is_text(name.as_str(), "replace") {
            config.censor_mode = name;
        }
    }
    config
}

/// How far the questions about the settings have come.
#[derive(Debug)]
pub enum LoadState {
    /// The banned words were asked for.
    Words,
    /// The censor mode was asked for, after this answer about the words.
    Mode(Option<String>),
}

/// What to do next to get at the settings.
#[derive(Debug)]
pub enum LoadStep {
    /// Put a question to the operator.
    Ask(Question, LoadState),
    /// Save these settings and use them.
    Use(Config),
}

/// How far the questions have come, as its texts.
pub ghost enum LoadStateView {
    Words,
    Mode(Option<Seq<char>>),
}

impl View for LoadState {
    type V = LoadStateView;

    open spec fn view(&self) -> LoadStateView {
        match *self {
            LoadState::Words => LoadStateView::Words,
            LoadState::Mode(words) => LoadStateView::Mode(optional(words)),
        }
    }
}

/// A step, as its texts.
pub ghost enum LoadStepView {
    Ask(crate::prompt::QuestionView, LoadStateView),
    Use(ConfigView),
}

impl View for LoadStep {
    type V = LoadStepView;

    open spec fn view(&self) -> LoadStepView {
        match *self {
            LoadStep::Ask(question, state) => LoadStepView::Ask(question@, state@),
            LoadStep::Use(config) => LoadStepView::Use(config@),
        }
    }
}

/// The question for the banned words.
pub open spec fn words_question_text() -> crate::prompt::QuestionView {
    crate::prompt::QuestionView {
        title: "Configure banned-words module"@,
        details: "No saved config was found. Enter the list of words to filter, separated by commas."@,
        input_label: "Banned words (comma-separated)"@,
        kind: PromptKind::Text,
        timeout: 60,
    }
}

/// The question for the censor mode.
pub open spec fn mode_question_text() -> crate::prompt::QuestionView {
    crate::prompt::QuestionView {
        title: "Configure banned-words module"@,
        details: "Enter the censor mode used when a banned word is detected."@,
        input_label: "censor mode: soft|mid|hard|replace"@,
        kind: PromptKind::Text,
        timeout: 60,
    }
}

/// The question for the banned words.
pub fn words_question() -> (r: Question)
    ensures
        r@ == words_question_text(),
{
    Question {
        title: "Configure banned-words module".to_string(),
        details:
            "No saved config was found. Enter the list of words to filter, separated by commas.".to_string(),
        input_label: "Banned words (comma-separated)".to_string(),
        kind: PromptKind::Text,
        timeout: 60,
    }
}

/// The question for the censor mode.
pub fn mode_question() -> (r: Question)
    ensures
        r@ == mode_question_text(),
{
    Question {
        title: "Configure banned-words module".to_string(),
        details: "Enter the censor mode used when a banned word is detected.".to_string(),
        input_label: "censor mode: soft|mid|hard|replace".to_string(),
        kind: PromptKind::Text,
        timeout: 60,
    }
}

/// Where to get the settings from: those that were saved, if there are any, or
/// else the operator, who is asked for the banned words first.
pub fn begin_load(saved: Option<Config>) -> (r: LoadStep)
    ensures
        r@ == match saved {
            Some(config) => LoadStepView::Use(config@),
            None => LoadStepView::Ask(words_question_text(), LoadStateView::Words),
        },
{
    match saved {
        Some(config) => LoadStep::Use(config),
        None => LoadStep::Ask(words_question(), LoadState::Words),
    }
}

/// How to go on after the operator's answer: to the question for the censor
/// mode, and from there to the settings.
pub fn continue_load(state: LoadState, answer: Option<String>) -> (r: LoadStep)
    ensures
        r@ == match state@ {
            LoadStateView::Words => LoadStepView::Ask(
                mode_question_text(),
                LoadStateView::Mode(optional(answer)),
            ),
            LoadStateView::Mode(words) => LoadStepView::Use(answered(words, optional(answer))),
        },
{
    match state {
        LoadState::Words => LoadStep::Ask(mode_question(), LoadState::Mode(answer)),
        LoadState::Mode(words) => LoadStep::Use(config_from_answers(words, answer)),
    }
}

/// The part of a settings file that holds the settings of this module: the member
/// "module_specific" where that is an object, or else the whole file. A file that
/// is not JSON holds none.
pub open spec fn settings_in(file: Seq<char>) -> Option<Seq<char>> {
    if json::json_kind(file) is None {
        None
    } else {
        match json::json_member(file, "module_specific"@) {
            Some(value) => if json::json_kind(value) == Some(json::JsonKind::Object) {
                Some(value)
            } else {
                Some(file)
            },
            None => Some(file),
        }
    }
}

/// The part of a settings file that holds the settings of this module, given its
/// member "module_specific" and what kind of value that is.
pub fn pick_settings(
    file: &str,
    member: Option<String>,
    kind: Option<json::JsonKind>,
) -> (r: String)
    ensures
        r@ == match member {
            Some(value) => if kind == Some(json::JsonKind::Object) {
                value@
            } else {
                file@
            },
            None => file@,
        },
{
    match member {
        Some(value) => {
            if kind == Some(json::JsonKind::Object) {
                value
            } else {
                file.to_string()
            }
        },
        None => file.to_string(),
    }
}

/// The JSON text from which the settings are read, given the text of the settings
/// file. Prefers the `module_specific` object; falls back to the legacy top-level
/// layout so pre-existing files keep working.
pub fn settings_text(file: &str) -> (r: Option<String>)
    ensures
        optional(r) == settings_in(file@),
{
    if json::kind_of(file).is_none() {
        return None;
    }
    let member = json::member(file, "module_specific");
    let kind = match &member {
        Some(value) => json::kind_of(value.as_str()),
        None => None,
    };
    Some(pick_settings(file, member, kind))
}

/// The file that settings are merged into: the one that exists, where it is
/// JSON, or else an empty object.
pub open spec fn merge_root(existing: Option<Seq<char>>) -> Seq<char> {
    match existing {
        Some(file) => if json::json_kind(file) is Some {
            file
        } else {
            "{}"@
        },
        None => "{}"@,
    }
}

/// There is no file, or one that is not JSON or `null`.
pub open spec fn holds_nothing(existing: Option<Seq<char>>) -> bool {
    match existing {
        Some(file) => match json::json_kind(file) {
            Some(kind) => kind is Null,
            None => true,
        },
        None => true,
    }
}

/// The settings as they are put into the file; `null` where they are not JSON.
pub open spec fn merge_value(settings: Seq<char>) -> Seq<char> {
    match json::json_compact(settings) {
        Some(value) => value,
        None => "null"@,
    }
}

/// The kinds of JSON value that can be given a member.
pub open spec fn has_room(kind: json::JsonKind) -> bool {
    kind is Object || kind is Null
}

/// A file into which settings can be merged: one that is an object, is `null`, is
/// not JSON at all, or does not exist.
pub open spec fn takes_settings(existing: Option<Seq<char>>) -> bool {
    match existing {
        Some(file) => match json::json_kind(file) {
            Some(kind) => has_room(kind),
            None => true,
        },
        None => true,
    }
}

/// The text of the settings file with the JSON text `settings` in its
/// `module_specific` object, merged with (and preserving) any existing top-level
/// fields; `None` where the file holds JSON that is no object.
///
/// Unless the settings are nested too deep to be read from within an object, what
/// is saved is what is read again, and every other field of the file is as it
/// was; a file made anew has no other field.
pub fn merge_settings(existing: Option<&str>, settings: &str) -> (r: Option<String>)
    ensures
        optional(r) == if takes_settings(optional_str(existing)) {
            Some(
                json::json_with_member(
                    merge_root(optional_str(existing)),
                    "module_specific"@,
                    merge_value(settings@),
                ),
            )
        } else {
            None
        },
        r matches Some(file) ==> json::fits_in_member(merge_value(settings@)) ==> {
            &&& json::json_kind(file@) == Some(json::JsonKind::Object)
            &&& json::json_kind(settings@) == Some(json::JsonKind::Object) ==> settings_in(file@)
                == json::json_compact(settings@)
            &&& forall|key: Seq<char>|
                key != "module_specific"@ ==> #[trigger] json::json_member(file@, key)
                    == json::json_member(merge_root(optional_str(existing)), key)
            &&& holds_nothing(optional_str(existing)) ==> forall|key: Seq<char>|
                key != "module_specific"@ ==> #[trigger] json::json_member(file@, key) is None
        },
        r is None <==> (existing matches Some(file) && (json::json_kind(file@) matches Some(kind)
            && kind !is Object && kind !is Null)),
{
    let mut root = "{}".to_string();
    if let Some(file) = existing {
        if json::kind_of(file).is_some() {
            root = file.to_string();
        }
    }
    let value = match json::compact(settings) {
        Some(value) => value,
        None => "null".to_string(),
    };
    let kind = json::kind_of(root.as_str());
    if kind == Some(json::JsonKind::Object) || kind == Some(json::JsonKind::Null) {
        Some(json::set_member(root.as_str(), "module_specific", value.as_str()))
    } else {
        None
    }
}

/// The settings that answers make always have a censor mode that exists and at
/// least one banned word, and review stays off.
pub proof fn law_answers_make_usable_settings(words: Option<Seq<char>>, mode: Option<Seq<char>>)
    ensures
        is_censor_mode(answered(words, mode).censor_mode),
        answered(words, mode).banned_words.len() > 0,
        !answered(words, mode).llm_review,
        !answered(words, mode).flag_for_review,
{
}

/// An operator who answers nothing gets the default settings.
pub proof fn law_no_answers_make_defaults()
    ensures
        answered(None, None) == defaults(),
{
}

/// What each sentence mode makes of a flagged message. Mode "censor" leaves its
/// length; mode "replace" puts the sentence in its place, if there is one; in any
/// other mode, or without a sentence, only the tokens that offend are censored.
pub proof fn law_sentence_modes(config: ConfigView, original: Seq<char>)
    ensures
        config.sentence_mode == "censor"@ ==> {
            &&& after_censor(config, original).len() == original.len()
            &&& forall|i: int|
                0 <= i < original.len() ==> #[trigger] after_censor(config, original)[i] == '*'
        },
        config.sentence_mode == "replace"@ && config.replace_sentence.len() > 0 ==> after_censor(
            config,
            original,
        ) == config.replace_sentence,
        config.sentence_mode == "replace"@ && config.replace_sentence.len() == 0 ==> after_censor(
            config,
            original,
        ) == censor::censored(
            original,
            config.banned_words,
            config.censor_mode,
            config.replace_word,
        ),
        config.sentence_mode != "censor"@ && config.sentence_mode != "replace"@ ==> after_censor(
            config,
            original,
        ) == censor::censored(
            original,
            config.banned_words,
            config.censor_mode,
            config.replace_word,
        ),
{
    reveal_strlit("censor");
    reveal_strlit("replace");
    assert("censor"@.len() == 6 && "replace"@.len() == 7);
}

/// The sentence counts for nothing in any mode but "replace", and where it counts
/// nothing else does: neither the words nor the message.
pub proof fn law_sentence_counts_only_in_replace(
    one: ConfigView,
    two: ConfigView,
    m1: Seq<char>,
    m2: Seq<char>,
)
    ensures
        one.sentence_mode != "replace"@ && two == (ConfigView {
            replace_sentence: two.replace_sentence,
            ..one
        }) ==> after_censor(one, m1) == after_censor(two, m1),
        one.sentence_mode == "replace"@ && two.sentence_mode == "replace"@ && one.replace_sentence
            == two.replace_sentence && one.replace_sentence.len() > 0 ==> after_censor(one, m1)
            == after_censor(two, m2),
{
    law_sentence_modes(one, m1);
    law_sentence_modes(two, m1);
    law_sentence_modes(two, m2);
}

/// An answer with any character that is neither a comma nor white space sets the
/// banned words: they are its entries, be it a single one. An answer without such
/// a character, or none, leaves the default words.
pub proof fn law_answer_sets_words(words: Option<Seq<char>>, mode: Option<Seq<char>>)
    ensures
        words matches Some(answer) ==> ((exists|i: int|
            0 <= i < answer.len() && #[trigger] answer[i] != ',' && !text::white_space(answer[i]))
            ==> answered(words, mode).banned_words == list::entries(answer)),
        words matches Some(answer) ==> ((forall|i: int|
            0 <= i < answer.len() ==> #[trigger] answer[i] == ',' || text::white_space(answer[i]))
            ==> answered(words, mode).banned_words == seq!["cheese"@, "badword"@]),
        words is None ==> answered(words, mode).banned_words == seq!["cheese"@, "badword"@],
{
    if let Some(answer) = words {
        list::law_has_entries(answer);
    }
}

/// A single word for an answer, with or without white space round it, is the one
/// banned word; a further word behind a comma is added to those in front of it.
pub proof fn law_answered_words_add_up(
    l: Seq<char>,
    word: Seq<char>,
    r: Seq<char>,
    front: Seq<char>,
    mode: Option<Seq<char>>,
)
    requires
        list::blank(l),
        list::blank(r),
        word.len() > 0,
        !word.contains(','),
        !text::white_space(word[0]),
        !text::white_space(word.last()),
    ensures
        answered(Some(l + word + r), mode).banned_words == seq![word],
        answered(Some(front.push(',') + (l + word + r)), mode).banned_words == list::entries(front)
            + seq![word],
{
    list::law_entry_between_spaces(l, word, r);
    list::law_entries_by_commas(front, l + word + r);
}

/// An answer that is the name of a mode, to the letter, sets the censor mode; any
/// other leaves the default one. No answer sets anything but the words and the
/// mode.
pub proof fn law_answer_sets_mode(words: Option<Seq<char>>, mode: Option<Seq<char>>)
    ensures
        ({
            let config = answered(words, mode);
            &&& mode matches Some(name) ==> config.censor_mode == if name == "soft"@ || name
                == "mid"@ || name == "hard"@ || name == "replace"@ {
                name
            } else {
                "soft"@
            }
            &&& mode is None ==> config.censor_mode == "soft"@
            &&& config.replace_word.len() == 0
            &&& !config.flag_for_review
            &&& config.sentence_mode == "none"@
            &&& config.replace_sentence.len() == 0
            &&& !config.llm_review
            &&& config.llm_review_threshold.bits == ONE_HALF
            &&& config.llm_review_engine == "deberta"@
        }),
{
}

/// The settings are those of the member "module_specific" where that is an
/// object, whatever else the file holds, and the whole file where it is anything
/// else or is missing; what is not JSON holds none.
pub proof fn law_module_settings_preferred(file: Seq<char>)
    ensures
        json::json_kind(file) is None <==> settings_in(file) is None,
        json::json_kind(file) is Some ==> (json::json_member(file, "module_specific"@) matches Some(
            value,
        ) ==> settings_in(file) == Some(
            if json::json_kind(value) matches Some(kind) && kind is Object {
                value
            } else {
                file
            },
        )),
        json::json_kind(file) is Some && json::json_member(file, "module_specific"@) is None
            ==> settings_in(file) == Some(file),
{
}

/// Settings are merged into what the file holds, if it is JSON, and into an empty
/// object if it is not or there is no file. Only a file that is JSON and neither
/// an object nor `null` takes none. What is put in is the compact form of the
/// settings.
pub proof fn law_what_is_merged(file: Seq<char>, settings: Seq<char>)
    ensures
        takes_settings(None),
        merge_root(None) == "{}"@,
        json::json_kind(file) is None ==> takes_settings(Some(file)) && merge_root(Some(file))
            == "{}"@,
        json::json_kind(file) matches Some(kind) ==> {
            &&& merge_root(Some(file)) == file
            &&& takes_settings(Some(file)) <==> match kind {
                json::JsonKind::Object | json::JsonKind::Null => true,
                json::JsonKind::Bool | json::JsonKind::Number => false,
                json::JsonKind::Text | json::JsonKind::Array => false,
            }
        },
        json::json_compact(settings) matches Some(value) ==> merge_value(settings) == value,
        json::json_compact(settings) is None ==> merge_value(settings) == "null"@,
{
}

/// Both questions ask for a text under the same title and give the operator a
/// minute; the first asks for the words, the second for one of the modes.
pub proof fn law_questions()
    ensures
        words_question_text().kind is Text && mode_question_text().kind is Text,
        words_question_text().timeout == 60 && mode_question_text().timeout == 60,
        words_question_text().title == "Configure banned-words module"@,
        mode_question_text().title == "Configure banned-words module"@,
        words_question_text().details
            == "No saved config was found. Enter the list of words to filter, separated by commas."@,
        mode_question_text().details
            == "Enter the censor mode used when a banned word is detected."@,
        words_question_text().input_label == "Banned words (comma-separated)"@,
        mode_question_text().input_label == "censor mode: soft|mid|hard|replace"@,
{
}

} // verus!

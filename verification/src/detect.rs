//! Detection of banned words in a message, across spelling variants.

use vstd::prelude::*;

use crate::text;

verus! {

/// How a banned word was spelled in the message.
#[derive(Debug, Clone, Copy, PartialEq, Eq, Structural)]
pub enum Variant {
    /// A word of the message is the banned word.
    Exact,
    /// A word of the message is the banned word in leet-speak.
    Leet,
    /// The banned word shows once spaces and underscores are taken out.
    NoSpaces,
}

impl Variant {
    /// The name of the variant.
    pub open spec fn name(self) -> Seq<char> {
        match self {
            Variant::Exact => "exact"@,
            Variant::Leet => "leet"@,
            Variant::NoSpaces => "no-spaces"@,
        }
    }

    /// The name of the variant.
    pub fn label(self) -> (r: &'static str)
        ensures
            r@ == self.name(),
    {
        match self {
            Variant::Exact => "exact",
            Variant::Leet => "leet",
            Variant::NoSpaces => "no-spaces",
        }
    }
}

/// The letter that `c` stands for in leet-speak, in lower case.
pub open spec fn leet_letter(c: char) -> char {
    match text::ascii_lower(c) {
        '3' => 'e',
        '4' | '@' => 'a',
        '0' => 'o',
        '1' | '!' => 'i',
        '5' | '$' => 's',
        '7' => 't',
        'z' => 's',
        other => other,
    }
}

/// A text with every character read as leet-speak.
pub open spec fn leet(s: Seq<char>) -> Seq<char> {
    s.map_values(|c: char| leet_letter(c))
}

/// White space and the underscore only space letters out.
pub open spec fn is_spacing(c: char) -> bool {
    text::white_space(c) || c == '_'
}

/// A text without white space and underscores.
pub open spec fn stripped(s: Seq<char>) -> Seq<char> {
    s.filter(|c: char| !is_spacing(c))
}

/// The letter that `c` stands for in leet-speak, in lower case.
fn translate(c: char) -> (r: char)
    ensures
        r == leet_letter(c),
{
    match text::to_ascii_lower(c) {
        '3' => 'e',
        '4' | '@' => 'a',
        '0' => 'o',
        '1' | '!' => 'i',
        '5' | '$' => 's',
        '7' => 't',
        'z' => 's',
        other => other,
    }
}

/// Every character of `chars` read as leet-speak.
fn leet_chars(chars: &[char]) -> (r: Vec<char>)
    ensures
        r@ == leet(chars@),
{
    let mut r: Vec<char> = Vec::new();
    let mut i: usize = 0;
    while i < chars.len()
        invariant
            i <= chars.len(),
            r@ == leet(chars@.take(i as int)),
        decreases chars.len() - i,
    {
        r.push(translate(chars[i]));
        i += 1;
    }
    assert(chars@.take(i as int) == chars@);
    r
}

/// `chars` without white space and underscores.
fn strip_chars(chars: &[char]) -> (r: Vec<char>)
    ensures
        r@ == stripped(chars@),
{
    let mut r: Vec<char> = Vec::new();
    let mut i: usize = 0;
    while i < chars.len()
        invariant
            i <= chars.len(),
            r@ == stripped(chars@.take(i as int)),
        decreases chars.len() - i,
    {
        let c = chars[i];
        proof {
            chars@.take(i as int).lemma_filter_push(c, |c: char| !is_spacing(c));
            assert(chars@.take(i + 1) == chars@.take(i as int).push(c));
        }
        if !text::is_whitespace(c) && c != '_' {
            r.push(c);
        }
        i += 1;
    }
    assert(chars@.take(i as int) == chars@);
    r
}

/// Leet-speak translation of a text (common substitutions).
pub fn leet_translate(s: &str) -> (r: String)
    ensures
        r@ == leet(s@),
{
    text::to_text(leet_chars(text::to_chars(s).as_slice()).as_slice())
}

/// The text without its white space and underscores.
pub fn strip_all_spaces(s: &str) -> (r: String)
    ensures
        r@ == stripped(s@),
{
    text::to_text(strip_chars(text::to_chars(s).as_slice()).as_slice())
}

/// How `token` spells `word`, if it does. Both are in lower case.
pub open spec fn token_variant(token: Seq<char>, word: Seq<char>) -> Option<Variant> {
    if token == word {
        Some(Variant::Exact)
    } else if leet(token) == word {
        Some(Variant::Leet)
    } else if text::occurs(word, stripped(token)) {
        Some(Variant::NoSpaces)
    } else {
        None
    }
}

/// How `token` spells `word`, if it does. Both are in lower case.
pub fn token_spells(token: &[char], word: &[char]) -> (r: Option<Variant>)
    ensures
        r == token_variant(token@, word@),
{
    if text::same(token, word) {
        Some(Variant::Exact)
    } else if text::same(leet_chars(token).as_slice(), word) {
        Some(Variant::Leet)
    } else if text::contains(strip_chars(token).as_slice(), word) {
        Some(Variant::NoSpaces)
    } else {
        None
    }
}

/// How the first of `tokens` that spells `word` does so.
pub open spec fn first_variant(tokens: Seq<Seq<char>>, word: Seq<char>) -> Option<Variant>
    decreases tokens.len(),
{
    if tokens.len() == 0 {
        None
    } else if token_variant(tokens[0], word) is Some {
        token_variant(tokens[0], word)
    } else {
        first_variant(tokens.skip(1), word)
    }
}

/// How the lower-case message `low` spells the lower-case banned `word`: in one
/// of its words, or else across them once spaces are taken out. The empty word
/// is never spelled.
pub open spec fn word_variant(low: Seq<char>, word: Seq<char>) -> Option<Variant> {
    if word.len() == 0 {
        None
    } else if first_variant(text::words(low), word) is Some {
        first_variant(text::words(low), word)
    } else if text::occurs(word, stripped(low)) {
        Some(Variant::NoSpaces)
    } else {
        None
    }
}

/// The first word of `banned` that the message spells, in lower case, with the
/// variant in which it does.
pub open spec fn detection(message: Seq<char>, banned: Seq<Seq<char>>) -> Option<
    (Seq<char>, Variant),
>
    decreases banned.len(),
{
    if banned.len() == 0 {
        None
    } else {
        let word = text::lowercase(banned[0]);
        match word_variant(text::lowercase(message), word) {
            Some(variant) => Some((word, variant)),
            None => detection(message, banned.skip(1)),
        }
    }
}

/// The first of `words`, which are in lower case, that the lower-case message
/// `low` spells, with the variant in which it does.
pub open spec fn detection_in(low: Seq<char>, words: Seq<Seq<char>>) -> Option<
    (Seq<char>, Variant),
>
    decreases words.len(),
{
    if words.len() == 0 {
        None
    } else {
        match word_variant(low, words[0]) {
            Some(variant) => Some((words[0], variant)),
            None => detection_in(low, words.skip(1)),
        }
    }
}

/// Detection works on lower-case forms alone.
pub proof fn lemma_detection_in(message: Seq<char>, banned: Seq<Seq<char>>)
    ensures
        detection(message, banned) == detection_in(
            text::lowercase(message),
            text::lower_texts(banned),
        ),
    decreases banned.len(),
{
    if banned.len() != 0 {
        lemma_detection_in(message, banned.skip(1));
        assert(text::lower_texts(banned).skip(1) == text::lower_texts(banned.skip(1)));
    }
}

/// How the first of `tokens` that spells `word` does so.
fn tokens_spell(tokens: &Vec<Vec<char>>, word: &[char]) -> (r: Option<Variant>)
    ensures
        r == first_variant(text::char_texts(tokens@), word@),
{
    let ghost all = text::char_texts(tokens@);
    let mut i: usize = 0;
    assert(all.skip(0) == all);
    while i < tokens.len()
        invariant
            i <= tokens.len(),
            all == text::char_texts(tokens@),
            first_variant(all.skip(i as int), word@) == first_variant(all, word@),
        decreases tokens.len() - i,
    {
        assert(all.skip(i as int)[0] == tokens[i as int]@);
        assert(all.skip(i as int).skip(1) == all.skip(i + 1));
        let found = token_spells(tokens[i].as_slice(), word);
        if found.is_some() {
            return found;
        }
        i += 1;
    }
    None
}

/// The position in `words` of the first that the message spells, with the
/// variant. The message and the words are in lower case.
pub fn detect_in(low: &[char], words: &Vec<Vec<char>>) -> (r: Option<(usize, Variant)>)
    ensures
        match detection_in(low@, text::char_texts(words@)) {
            Some((word, variant)) => r matches Some((i, v)) && i < words@.len() && words@[i as int]@
                == word && v == variant,
            None => r is None,
        },
{
    let tokens = text::split_words(low);
    let letters = strip_chars(low);
    let ghost all = text::char_texts(words@);
    let mut i: usize = 0;
    assert(all.skip(0) == all);
    while i < words.len()
        invariant
            i <= words.len(),
            all == text::char_texts(words@),
            text::char_texts(tokens@) == text::words(low@),
            letters@ == stripped(low@),
            detection_in(low@, all.skip(i as int)) == detection_in(low@, all),
        decreases words.len() - i,
    {
        assert(all.skip(i as int)[0] == words[i as int]@);
        assert(all.skip(i as int).skip(1) == all.skip(i + 1));
        let word = words[i].as_slice();
        if word.len() != 0 {
            match tokens_spell(&tokens, word) {
                Some(variant) => {
                    return Some((i, variant));
                },
                None => {},
            }
            if text::contains(letters.as_slice(), word) {
                return Some((i, Variant::NoSpaces));
            }
        }
        i += 1;
    }
    None
}

/// Check if the message contains any banned word, across variants.
/// Returns the first banned word matched, in lower case, and which variant it
/// was: "exact", "leet" or "no-spaces".
pub fn detect_banned(message: &str, banned: &[String]) -> (r: Option<(String, &'static str)>)
    ensures
        match detection(message@, text::texts(banned@)) {
            Some((word, variant)) => r matches Some((w, v)) && w@ == word && v@ == variant.name(),
            None => r is None,
        },
{
    let low = text::to_chars(text::to_lowercase(message).as_str());
    let words = text::lower_words(banned);
    proof {
        lemma_detection_in(message@, text::texts(banned@));
    }
    match detect_in(low.as_slice(), &words) {
        Some((i, variant)) => Some((text::to_text(words[i].as_slice()), variant.label())),
        None => None,
    }
}

/// The characters that stand for `d` in leet-speak: for six letters their small
/// and capital forms and the digits and signs in their place, for `s` the letter
/// z as well; for any other letter its small and capital forms, and for any other
/// character that character. None stands for a character in place of a letter.
pub open spec fn stands_for(c: char, d: char) -> bool {
    match d {
        'a' => c == 'a' || c == 'A' || c == '4' || c == '@',
        'e' => c == 'e' || c == 'E' || c == '3',
        'i' => c == 'i' || c == 'I' || c == '1' || c == '!',
        'o' => c == 'o' || c == 'O' || c == '0',
        's' => c == 's' || c == 'S' || c == '5' || c == '$' || c == 'z' || c == 'Z',
        't' => c == 't' || c == 'T' || c == '7',
        '0' | '1' | '3' | '4' | '5' | '7' | '!' | '$' | '@' | 'z' => false,
        _ => if 'a' <= d <= 'z' {
            c == d || c as u32 + 32 == d as u32
        } else {
            c == d && !('A' <= d <= 'Z')
        },
    }
}

/// The characters of the token stand for those of the word, one by one.
pub open spec fn reads_as(token: Seq<char>, word: Seq<char>) -> bool {
    &&& token.len() == word.len()
    &&& forall|i: int| 0 <= i < word.len() ==> stands_for(#[trigger] token[i], word[i])
}

/// Without white space and underscores, the text is the word with something or
/// nothing in front of it and behind it.
pub open spec fn holds(s: Seq<char>, word: Seq<char>) -> bool {
    exists|a: Seq<char>, b: Seq<char>| stripped(s) == #[trigger] (a + word + b)
}

/// The token is the word, reads as it, or holds it.
pub open spec fn hits(token: Seq<char>, word: Seq<char>) -> bool {
    token == word || reads_as(token, word) || holds(token, word)
}

/// The lower-case message `low` spells the lower-case banned `word` in some
/// variant: one of its words is the word or reads as it, or the message holds it.
pub open spec fn spelled(low: Seq<char>, word: Seq<char>) -> bool {
    &&& word.len() > 0
    &&& {
        ||| exists|k: int|
            {
                &&& 0 <= k < text::words(low).len()
                &&& #[trigger] text::words(low)[k] == word || reads_as(text::words(low)[k], word)
            }
        ||| holds(low, word)
    }
}

/// A character is read as `d` exactly where it is one of those that stand for it.
pub proof fn law_leet_letter(c: char, d: char)
    ensures
        leet_letter(c) == d <==> stands_for(c, d),
{
    text::law_ascii_lower(c);
}

/// Leet-speak is read character by character: a text reads as another exactly
/// where every character of it, the first one too, stands for the one in its
/// place.
pub proof fn law_leet_by_characters(s: Seq<char>, t: Seq<char>)
    ensures
        leet(s) == t <==> s.len() == t.len() && forall|i: int|
            0 <= i < t.len() ==> stands_for(#[trigger] s[i], t[i]),
{
    if leet(s) == t {
        assert forall|i: int| 0 <= i < t.len() implies stands_for(#[trigger] s[i], t[i]) by {
            law_leet_letter(s[i], t[i]);
        }
    }
    if s.len() == t.len() && forall|i: int|
        0 <= i < t.len() ==> stands_for(#[trigger] s[i], t[i]) {
        assert forall|i: int| 0 <= i < t.len() implies leet(s)[i] == t[i] by {
            law_leet_letter(s[i], t[i]);
        }
        assert(leet(s) =~= t);
    }
}

/// Stripping goes character by character: white space and underscores go, every
/// other character stays in its place between the rest.
pub proof fn law_strip_by_parts(a: Seq<char>, c: char, b: Seq<char>)
    ensures
        stripped(Seq::<char>::empty()) == Seq::<char>::empty(),
        stripped(a.push(c) + b) == if text::white_space(c) || c == '_' {
            stripped(a) + stripped(b)
        } else {
            stripped(a).push(c) + stripped(b)
        },
{
    let keep = |c: char| !is_spacing(c);
    reveal(Seq::filter);
    Seq::filter_distributes_over_add(a.push(c), b, keep);
    a.lemma_filter_push(c, keep);
}

/// A token spells a word exactly where it is the word, or each of its characters
/// stands for the word's in the same place, or the word stands in it once white
/// space and underscores are out. It is named after the first of these that
/// holds.
pub proof fn law_token_spells(token: Seq<char>, word: Seq<char>)
    ensures
        token_variant(token, word) is Some <==> {
            ||| token == word
            ||| token.len() == word.len() && forall|i: int|
                0 <= i < word.len() ==> stands_for(#[trigger] token[i], word[i])
            ||| exists|a: Seq<char>, b: Seq<char>| stripped(token) == #[trigger] (a + word + b)
        },
        token_variant(token, word) == Some(Variant::Exact) <==> token == word,
        token_variant(token, word) == Some(Variant::Leet) <==> token != word && token.len()
            == word.len() && forall|i: int|
            0 <= i < word.len() ==> stands_for(#[trigger] token[i], word[i]),
{
    law_leet_by_characters(token, word);
    text::law_occurs_between(word, stripped(token));
}

/// The stripped forms of the words of a text stand in the stripped text.
proof fn lemma_word_within(s: Seq<char>, k: int)
    requires
        0 <= k < text::words(s).len(),
    ensures
        exists|a: Seq<char>, b: Seq<char>|
            stripped(s) == #[trigger] (a + stripped(text::words(s)[k]) + b),
    decreases s.len(),
{
    let n = text::run(s) as int;
    let none = Seq::<char>::empty();
    text::lemma_run(s);
    if n < s.len() {
        let head = s.take(n);
        let rest = s.skip(n + 1);
        let first = text::words(head);
        assert(s =~= head.push(s[n]) + rest);
        text::law_words_by_parts(head, s[n], rest);
        law_strip_by_parts(head, s[n], rest);
        if k < first.len() {
            assert(text::words(s)[k] == head);
            assert(stripped(s) =~= none + stripped(head) + stripped(rest));
        } else {
            let i = k - first.len();
            lemma_word_within(rest, i);
            let word = stripped(text::words(rest)[i]);
            let (a, b) = choose|a: Seq<char>, b: Seq<char>|
                stripped(rest) == #[trigger] (a + word + b);
            assert(text::words(s)[k] == text::words(rest)[i]);
            assert(stripped(s) =~= (stripped(head) + a) + word + b);
        }
    } else {
        assert(s.take(n) == s);
        text::law_words_by_parts(s, ' ', none);
        assert(text::words(s)[k] == s);
        assert(stripped(s) =~= none + stripped(s) + none);
    }
}

/// What a word of a message holds, the message holds.
proof fn lemma_holds_within(low: Seq<char>, word: Seq<char>, k: int)
    requires
        0 <= k < text::words(low).len(),
        holds(text::words(low)[k], word),
    ensures
        holds(low, word),
{
    let token = text::words(low)[k];
    lemma_word_within(low, k);
    let (a, b) = choose|a: Seq<char>, b: Seq<char>| stripped(token) == #[trigger] (a + word + b);
    let (c, d) = choose|c: Seq<char>, d: Seq<char>|
        stripped(low) == #[trigger] (c + stripped(token) + d);
    assert(stripped(low) =~= (c + a) + word + (b + d));
}

/// One of the tokens spells the word exactly when a first one does.
pub proof fn lemma_first_variant(tokens: Seq<Seq<char>>, word: Seq<char>)
    ensures
        first_variant(tokens, word) is Some <==> exists|k: int|
            0 <= k < tokens.len() && token_variant(#[trigger] tokens[k], word) is Some,
    decreases tokens.len(),
{
    if tokens.len() != 0 {
        let rest = tokens.skip(1);
        lemma_first_variant(rest, word);
        if first_variant(rest, word) is Some {
            let k = choose|k: int|
                0 <= k < rest.len() && token_variant(#[trigger] rest[k], word) is Some;
            assert(token_variant(tokens[k + 1], word) is Some);
        }
        if exists|k: int|
            0 <= k < tokens.len() && token_variant(#[trigger] tokens[k], word) is Some {
            let k = choose|k: int|
                0 <= k < tokens.len() && token_variant(#[trigger] tokens[k], word) is Some;
            if k > 0 {
                assert(rest[k - 1] == tokens[k]);
            }
        }
    }
}

/// A word has a variant in a message exactly when the message spells it.
pub proof fn law_variant_iff_spelled(low: Seq<char>, word: Seq<char>)
    ensures
        word_variant(low, word) is Some <==> spelled(low, word),
{
    let tokens = text::words(low);
    lemma_first_variant(tokens, word);
    text::law_occurs_between(word, stripped(low));
    if first_variant(tokens, word) is Some {
        let k = choose|k: int|
            0 <= k < tokens.len() && token_variant(#[trigger] tokens[k], word) is Some;
        law_token_spells(tokens[k], word);
        if holds(tokens[k], word) {
            lemma_holds_within(low, word, k);
        }
    }
    assert forall|k: int|
        0 <= k < tokens.len() && (#[trigger] tokens[k] == word || reads_as(
            tokens[k],
            word,
        )) implies token_variant(tokens[k], word) is Some by {
        law_token_spells(tokens[k], word);
    }
}

/// The first token that spells the word is the one that names the variant.
proof fn lemma_first_variant_at(tokens: Seq<Seq<char>>, word: Seq<char>)
    ensures
        first_variant(tokens, word) is Some ==> exists|k: int|
            {
                &&& 0 <= k < tokens.len()
                &&& token_variant(#[trigger] tokens[k], word) == first_variant(tokens, word)
                &&& forall|j: int| 0 <= j < k ==> token_variant(#[trigger] tokens[j], word) is None
            },
    decreases tokens.len(),
{
    if tokens.len() != 0 && token_variant(tokens[0], word) is None {
        let rest = tokens.skip(1);
        lemma_first_variant_at(rest, word);
        if first_variant(rest, word) is Some {
            let k = choose|k: int|
                {
                    &&& 0 <= k < rest.len()
                    &&& token_variant(#[trigger] rest[k], word) == first_variant(rest, word)
                    &&& forall|j: int|
                        0 <= j < k ==> token_variant(#[trigger] rest[j], word) is None
                };
            assert(rest[k] == tokens[k + 1]);
            assert forall|j: int| 0 <= j < k + 1 implies token_variant(
                #[trigger] tokens[j],
                word,
            ) is None by {
                if j > 0 {
                    assert(rest[j - 1] == tokens[j]);
                }
            }
        }
    }
}

/// The first word of a message that is the banned word, reads as it or holds it
/// names the variant: exact where it is the word, leet where it only reads as it,
/// and no-spaces else. Where there is none, the variant is no-spaces if the whole
/// message holds the word.
pub proof fn law_first_token_names_variant(low: Seq<char>, word: Seq<char>)
    requires
        word.len() > 0,
    ensures
        (exists|k: int| 0 <= k < text::words(low).len() && hits(#[trigger] text::words(low)[k], word))
            ==> exists|k: int|
            {
                let token = #[trigger] text::words(low)[k];
                &&& 0 <= k < text::words(low).len()
                &&& forall|j: int| 0 <= j < k ==> !hits(#[trigger] text::words(low)[j], word)
                &&& hits(token, word)
                &&& word_variant(low, word) == Some(
                    if token == word {
                        Variant::Exact
                    } else if reads_as(token, word) {
                        Variant::Leet
                    } else {
                        Variant::NoSpaces
                    },
                )
            },
        (forall|k: int|
            0 <= k < text::words(low).len() ==> !hits(#[trigger] text::words(low)[k], word))
            ==> word_variant(low, word) == if holds(low, word) {
            Some(Variant::NoSpaces)
        } else {
            None
        },
{
    let tokens = text::words(low);
    assert forall|k: int| 0 <= k < tokens.len() implies hits(#[trigger] tokens[k], word) == (
    token_variant(tokens[k], word) is Some) by {
        law_token_spells(tokens[k], word);
    }
    lemma_first_variant(tokens, word);
    lemma_first_variant_at(tokens, word);
    text::law_occurs_between(word, stripped(low));
    if first_variant(tokens, word) is Some {
        let k = choose|k: int|
            {
                &&& 0 <= k < tokens.len()
                &&& token_variant(#[trigger] tokens[k], word) == first_variant(tokens, word)
                &&& forall|j: int| 0 <= j < k ==> token_variant(#[trigger] tokens[j], word) is None
            };
        law_token_spells(tokens[k], word);
        assert(hits(tokens[k], word));
        assert forall|j: int| 0 <= j < k implies !hits(#[trigger] tokens[j], word) by {
            assert(token_variant(tokens[j], word) is None);
        }
    }
}

/// The word detected is the first of the list that the message spells, in the
/// variant that the message spells it in; nothing is detected exactly when the
/// message spells none of them.
pub proof fn law_first_banned_word(message: Seq<char>, banned: Seq<Seq<char>>)
    ensures
        match detection(message, banned) {
            Some((word, variant)) => exists|i: int|
                {
                    &&& 0 <= i < banned.len()
                    &&& word == text::lowercase(#[trigger] banned[i])
                    &&& word_variant(text::lowercase(message), word) == Some(variant)
                    &&& forall|j: int|
                        0 <= j < i ==> !spelled(
                            text::lowercase(message),
                            text::lowercase(#[trigger] banned[j]),
                        )
                },
            None => forall|j: int|
                0 <= j < banned.len() ==> !spelled(
                    text::lowercase(message),
                    text::lowercase(#[trigger] banned[j]),
                ),
        },
    decreases banned.len(),
{
    let low = text::lowercase(message);
    if banned.len() != 0 {
        let word = text::lowercase(banned[0]);
        let rest = banned.skip(1);
        law_variant_iff_spelled(low, word);
        if word_variant(low, word) is None {
            law_first_banned_word(message, rest);
            match detection(message, rest) {
                Some((w, variant)) => {
                    let i = choose|i: int|
                        {
                            &&& 0 <= i < rest.len()
                            &&& w == text::lowercase(#[trigger] rest[i])
                            &&& word_variant(low, w) == Some(variant)
                            &&& forall|j: int|
                                0 <= j < i ==> !spelled(low, text::lowercase(#[trigger] rest[j]))
                        };
                    assert(rest[i] == banned[i + 1]);
                    assert forall|j: int| 0 <= j < i + 1 implies !spelled(
                        low,
                        text::lowercase(#[trigger] banned[j]),
                    ) by {
                        if j > 0 {
                            assert(rest[j - 1] == banned[j]);
                        }
                    }
                },
                None => {
                    assert forall|j: int| 0 <= j < banned.len() implies !spelled(
                        low,
                        text::lowercase(#[trigger] banned[j]),
                    ) by {
                        if j > 0 {
                            assert(rest[j - 1] == banned[j]);
                        }
                    }
                },
            }
        }
    }
}

/// A message is flagged exactly when it spells one of the banned words.
pub proof fn law_flagged_iff_spelled(message: Seq<char>, banned: Seq<Seq<char>>)
    ensures
        detection(message, banned) is Some <==> exists|i: int|
            0 <= i < banned.len() && spelled(
                text::lowercase(message),
                text::lowercase(#[trigger] banned[i]),
            ),
{
    law_first_banned_word(message, banned);
    if let Some((word, _)) = detection(message, banned) {
        law_variant_iff_spelled(text::lowercase(message), word);
    }
}

/// Detection does not look at letter case: messages and lists with the same
/// lower-case forms are treated alike.
pub proof fn law_case_ignored(
    m1: Seq<char>,
    m2: Seq<char>,
    b1: Seq<Seq<char>>,
    b2: Seq<Seq<char>>,
)
    requires
        text::lowercase(m1) == text::lowercase(m2),
        b1.len() == b2.len(),
        forall|i: int|
            0 <= i < b1.len() ==> text::lowercase(#[trigger] b1[i]) == text::lowercase(b2[i]),
    ensures
        detection(m1, b1) == detection(m2, b2),
    decreases b1.len(),
{
    if b1.len() != 0 {
        assert forall|i: int| 0 <= i < b1.skip(1).len() implies text::lowercase(
            #[trigger] b1.skip(1)[i],
        ) == text::lowercase(b2.skip(1)[i]) by {
            assert(b1.skip(1)[i] == b1[i + 1]);
        }
        law_case_ignored(m1, m2, b1.skip(1), b2.skip(1));
    }
}

/// An ASCII message in another letter case is treated alike.
pub proof fn law_ascii_case_ignored(m1: Seq<char>, m2: Seq<char>, banned: Seq<Seq<char>>)
    requires
        vstd::utf8::is_ascii_chars(m1),
        vstd::utf8::is_ascii_chars(m2),
        m1.len() == m2.len(),
        forall|i: int|
            0 <= i < m1.len() ==> text::ascii_lower(#[trigger] m1[i]) == text::ascii_lower(m2[i]),
    ensures
        detection(m1, banned) == detection(m2, banned),
{
    assert(text::lowercase(m1) =~= text::lowercase(m2));
    law_case_ignored(m1, m2, banned, banned);
}

/// A detected word is never empty.
pub proof fn law_empty_word_ignored(message: Seq<char>, banned: Seq<Seq<char>>)
    ensures
        detection(message, banned) matches Some((word, _)) ==> word.len() > 0,
    decreases banned.len(),
{
    if banned.len() != 0 {
        law_empty_word_ignored(message, banned.skip(1));
    }
}

/// Words added behind a list do not change what the list detects.
pub proof fn law_longer_list(message: Seq<char>, banned: Seq<Seq<char>>, more: Seq<Seq<char>>)
    ensures
        detection(message, banned) is Some ==> detection(message, banned + more) == detection(
            message,
            banned,
        ),
        detection(message, banned) is None ==> detection(message, banned + more) == detection(
            message,
            more,
        ),
    decreases banned.len(),
{
    if banned.len() == 0 {
        assert(banned + more == more);
    } else {
        assert((banned + more).skip(1) == banned.skip(1) + more);
        law_longer_list(message, banned.skip(1), more);
    }
}

/// Reading a text as leet-speak keeps its length, and doing so twice changes
/// nothing more.
pub proof fn law_leet_settles(s: Seq<char>)
    ensures
        leet(s).len() == s.len(),
        leet(leet(s)) == leet(s),
{
}

/// A stripped text has no white space and no underscore, and stripping it again
/// changes nothing more.
pub proof fn law_strip_settles(s: Seq<char>)
    ensures
        forall|i: int| 0 <= i < stripped(s).len() ==> !is_spacing(#[trigger] stripped(s)[i]),
        stripped(stripped(s)) == stripped(s),
    decreases s.len(),
{
    let keep = |c: char| !is_spacing(c);
    assert forall|i: int| 0 <= i < stripped(s).len() implies !is_spacing(
        #[trigger] stripped(s)[i],
    ) by {
        s.lemma_filter_pred(keep, i);
    }
    lemma_strip_solid(stripped(s));
}

/// A text without white space and underscores is its own stripped form.
pub proof fn lemma_strip_solid(s: Seq<char>)
    requires
        forall|i: int| 0 <= i < s.len() ==> !is_spacing(#[trigger] s[i]),
    ensures
        stripped(s) == s,
    decreases s.len(),
{
    reveal(Seq::filter);
    if s.len() != 0 {
        lemma_strip_solid(s.drop_last());
        assert(!is_spacing(s.last()));
        assert(s.drop_last().push(s.last()) == s);
    }
}

/// Between white space, or the ends of the message, a text without white space is
/// one of its words.
proof fn lemma_word_among(a: Seq<char>, token: Seq<char>, b: Seq<char>)
    requires
        text::unbroken(token),
        token.len() > 0,
        a.len() > 0 ==> text::white_space(a.last()),
        b.len() > 0 ==> text::white_space(b[0]),
    ensures
        text::words(a + token + b).contains(token),
{
    let none = Seq::<char>::empty();
    let end = token + b;
    text::law_words_by_parts(token, ' ', none);
    if b.len() > 0 {
        text::law_words_by_parts(token, b[0], b.skip(1));
        assert(end =~= token.push(b[0]) + b.skip(1));
        assert(text::words(end)[0] == token);
    } else {
        assert(end =~= token);
        assert(text::words(end)[0] == token);
    }
    if a.len() > 0 {
        let head = text::words(a.drop_last());
        text::law_words_by_parts(a.drop_last(), a.last(), end);
        assert(a + token + b =~= a.drop_last().push(a.last()) + end);
        assert(text::words(a + token + b)[head.len() as int] == token);
    } else {
        assert(a + token + b =~= end);
    }
}

/// A token that spells a word is not empty.
proof fn lemma_hit_not_empty(token: Seq<char>, word: Seq<char>)
    requires
        word.len() > 0,
        hits(token, word),
    ensures
        token.len() > 0,
{
    if holds(token, word) {
        let (a, b) = choose|a: Seq<char>, b: Seq<char>|
            stripped(token) == #[trigger] (a + word + b);
        assert(stripped(token).len() == a.len() + word.len() + b.len());
        token.lemma_filter_len(|c: char| !is_spacing(c));
    }
}

/// A message is flagged wherever, in lower case and between white space or its
/// ends, it has a token that is a banned word, reads as one or holds one.
pub proof fn law_offending_token_flagged(
    message: Seq<char>,
    a: Seq<char>,
    token: Seq<char>,
    b: Seq<char>,
    banned: Seq<Seq<char>>,
    i: int,
)
    requires
        text::lowercase(message) == a + token + b,
        text::unbroken(token),
        a.len() > 0 ==> text::white_space(a.last()),
        b.len() > 0 ==> text::white_space(b[0]),
        0 <= i < banned.len(),
        text::lowercase(banned[i]).len() > 0,
        hits(token, text::lowercase(banned[i])),
    ensures
        detection(message, banned) is Some,
{
    let low = text::lowercase(message);
    let word = text::lowercase(banned[i]);
    lemma_hit_not_empty(token, word);
    lemma_word_among(a, token, b);
    let k = choose|k: int| 0 <= k < text::words(low).len() && text::words(low)[k] == token;
    if holds(token, word) {
        lemma_holds_within(low, word, k);
    }
    assert(spelled(low, word));
    law_flagged_iff_spelled(message, banned);
}

/// A message is flagged wherever, in lower case, it holds a banned word: however
/// the letters are spaced out or underscored, and whatever stands round them.
pub proof fn law_spaced_out_word_flagged(message: Seq<char>, banned: Seq<Seq<char>>, i: int)
    requires
        0 <= i < banned.len(),
        text::lowercase(banned[i]).len() > 0,
        holds(text::lowercase(message), text::lowercase(banned[i])),
    ensures
        detection(message, banned) is Some,
{
    assert(spelled(text::lowercase(message), text::lowercase(banned[i])));
    law_flagged_iff_spelled(message, banned);
}

} // verus!

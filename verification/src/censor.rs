//! Censoring of the words of a message that spell a banned word.

use vstd::prelude::*;
use vstd::string::*;

use crate::detect;
use crate::text;

verus! {

/// A text of `n` stars.
pub open spec fn stars(n: nat) -> Seq<char> {
    Seq::new(n, |i: int| '*')
}

/// What a censored token is replaced by. In mode "hard" every character becomes
/// a star; in mode "mid" the first one is kept; in mode "replace" the token
/// becomes `replace_word`, or stars where that is empty; in any other mode the
/// first and the last character of a token of three or more are kept.
pub open spec fn masked(token: Seq<char>, mode: Seq<char>, replace_word: Seq<char>) -> Seq<char> {
    let n = token.len();
    if mode == "hard"@ {
        stars(n)
    } else if mode == "mid"@ {
        Seq::new(n, |i: int| if i == 0 { token[i] } else { '*' })
    } else if mode == "replace"@ {
        if replace_word.len() == 0 {
            stars(n)
        } else {
            replace_word
        }
    } else if n <= 2 {
        stars(n)
    } else {
        Seq::new(n, |i: int| if i == 0 || i == n - 1 { token[i] } else { '*' })
    }
}

/// The token spells one of the banned words.
pub open spec fn offends(token: Seq<char>, banned: Seq<Seq<char>>) -> bool {
    exists|i: int|
        {
            &&& 0 <= i < banned.len()
            &&& text::lowercase(#[trigger] banned[i]).len() > 0
            &&& detect::token_variant(text::lowercase(token), text::lowercase(banned[i])) is Some
        }
}

/// What is shown of one piece of a message.
pub open spec fn shown(
    piece: Seq<char>,
    banned: Seq<Seq<char>>,
    mode: Seq<char>,
    replace_word: Seq<char>,
) -> Seq<char> {
    if offends(piece, banned) {
        masked(piece, mode, replace_word)
    } else {
        piece
    }
}

/// The message with every piece that offends masked, and everything else,
/// white space among it, as it was.
pub open spec fn censored(
    message: Seq<char>,
    banned: Seq<Seq<char>>,
    mode: Seq<char>,
    replace_word: Seq<char>,
) -> Seq<char>
    decreases message.len(),
{
    let n = text::run(message) as int;
    if n >= message.len() {
        shown(message, banned, mode, replace_word)
    } else {
        shown(message.take(n), banned, mode, replace_word).push(message[n]) + censored(
            message.skip(n + 1),
            banned,
            mode,
            replace_word,
        )
    }
}

/// A text of `n` stars.
pub fn star_text(n: usize) -> (r: String)
    ensures
        r@ == stars(n as nat),
{
    let mut r = String::new();
    let mut i: usize = 0;
    while i < n
        invariant
            i <= n,
            r@ == stars(i as nat),
        decreases n - i,
    {
        r.push('*');
        i += 1;
    }
    r
}

/// The characters of a token, with those from `from` on up to `to` as stars.
fn star_between(chars: &[char], from: usize, to: usize) -> (r: String)
    requires
        from <= to <= chars@.len(),
    ensures
        r@ == Seq::new(
            chars@.len(),
            |i: int|
                if from <= i < to {
                    '*'
                } else {
                    chars@[i]
                },
        ),
{
    let mut r = String::new();
    let mut i: usize = 0;
    while i < chars.len()
        invariant
            i <= chars.len(),
            r@ == Seq::new(
                i as nat,
                |i: int|
                    if from <= i < to {
                        '*'
                    } else {
                        chars@[i]
                    },
            ),
        decreases chars.len() - i,
    {
        r.push(if from <= i && i < to { '*' } else { chars[i] });
        i += 1;
    }
    r
}

/// Censor a single token (already known to contain a banned word).
pub fn censor_token(token: &str, mode: &str, replace_word: &str) -> (r: String)
    ensures
        r@ == masked(token@, mode@, replace_word@),
{
    let chars = text::to_chars(token);
    let n = chars.len();
    if text::is_text(mode, "hard") {
        star_text(n)
    } else if text::is_text(mode, "mid") {
        if n == 0 {
            String::new()
        } else {
            star_between(chars.as_slice(), 1, n)
        }
    } else if text::is_text(mode, "replace") {
        if replace_word.is_empty() {
            star_text(n)
        } else {
            replace_word.to_string()
        }
    } else if n <= 2 {
        star_text(n)
    } else {
        star_between(chars.as_slice(), 1, n - 1)
    }
}

/// The lower-case `token` spells one of `words`, which are in lower case.
pub open spec fn spells_one(token: Seq<char>, words: Seq<Seq<char>>) -> bool {
    exists|i: int|
        {
            &&& 0 <= i < words.len()
            &&& (#[trigger] words[i]).len() > 0
            &&& detect::token_variant(token, words[i]) is Some
        }
}

/// Whether the lower-case `token` spells one of `words`, which are in lower
/// case.
pub fn spells_any(token: &[char], words: &Vec<Vec<char>>) -> (r: bool)
    ensures
        r == spells_one(token@, text::char_texts(words@)),
{
    let ghost all = text::char_texts(words@);
    let mut i: usize = 0;
    while i < words.len()
        invariant
            i <= words.len(),
            all == text::char_texts(words@),
            forall|k: int|
                0 <= k < i ==> (#[trigger] all[k]).len() == 0 || detect::token_variant(
                    token@,
                    all[k],
                ) is None,
        decreases words.len() - i,
    {
        assert(all[i as int] == words@[i as int]@);
        if words[i].len() != 0 && detect::token_spells(token, words[i].as_slice()).is_some() {
            return true;
        }
        i += 1;
    }
    false
}

/// A token offends as its lower-case form spells one of the lower-case words.
proof fn lemma_offends(token: Seq<char>, banned: Seq<Seq<char>>)
    ensures
        offends(token, banned) == spells_one(text::lowercase(token), text::lower_texts(banned)),
{
    let words = text::lower_texts(banned);
    if offends(token, banned) {
        let i = choose|i: int|
            {
                &&& 0 <= i < banned.len()
                &&& text::lowercase(#[trigger] banned[i]).len() > 0
                &&& detect::token_variant(
                    text::lowercase(token),
                    text::lowercase(banned[i]),
                ) is Some
            };
        assert(words[i] == text::lowercase(banned[i]));
    }
    if spells_one(text::lowercase(token), words) {
        let i = choose|i: int|
            {
                &&& 0 <= i < words.len()
                &&& (#[trigger] words[i]).len() > 0
                &&& detect::token_variant(text::lowercase(token), words[i]) is Some
            };
        assert(text::lowercase(banned[i]) == words[i]);
    }
}

/// Censor any token in the message that matches a banned word (any variant).
/// Non-matching tokens are preserved exactly (including whitespace).
pub fn censor_message(message: &str, banned: &[String], mode: &str, replace_word: &str) -> (r:
    String)
    ensures
        r@ == censored(message@, text::texts(banned@), mode@, replace_word@),
{
    let chars = text::to_chars(message);
    let words = text::lower_words(banned);
    let ghost all = text::texts(banned@);
    let mut r = String::new();
    let mut from: usize = 0;
    assert(message@.skip(0) == message@);
    loop
        invariant
            from <= chars.len(),
            chars@ == message@,
            all == text::texts(banned@),
            text::char_texts(words@) == text::lower_texts(all),
            r@ + censored(message@.skip(from as int), all, mode@, replace_word@) == censored(
                message@,
                all,
                mode@,
                replace_word@,
            ),
        decreases chars.len() - from,
    {
        let end = text::piece_end(chars.as_slice(), from);
        let ghost rest = message@.skip(from as int);
        let ghost before = r@;
        let token = text::to_text(vstd::slice::slice_subrange(chars.as_slice(), from, end));
        assert(token@ == rest.take(end - from));
        let low = text::to_chars(text::to_lowercase(token.as_str()).as_str());
        proof {
            lemma_offends(token@, all);
        }
        if spells_any(low.as_slice(), &words) {
            r.append(censor_token(token.as_str(), mode, replace_word).as_str());
        } else {
            r.append(token.as_str());
        }
        if end == chars.len() {
            assert(rest.take(end - from) == rest);
            return r;
        }
        r.push(chars[end]);
        proof {
            assert(rest.skip(end - from + 1) == message@.skip(end + 1));
            assert(r@ + censored(message@.skip(end + 1), all, mode@, replace_word@) == before
                + censored(rest, all, mode@, replace_word@));
        }
        from = end + 1;
    }
}

/// Text in front of white space, with white space or the end behind it, ends a
/// piece.
proof fn lemma_run_before(a: Seq<char>, c: char, b: Seq<char>)
    requires
        text::white_space(c),
    ensures
        text::run(a.push(c) + b) == text::run(a),
{
    text::lemma_run_before(a, c, b);
}

/// A message is censored part by part: what stands on one side of a white space
/// character has no influence on the other side, and the character stays.
pub proof fn law_censor_by_parts(
    a: Seq<char>,
    c: char,
    b: Seq<char>,
    banned: Seq<Seq<char>>,
    mode: Seq<char>,
    replace_word: Seq<char>,
)
    requires
        text::white_space(c),
    ensures
        censored(a.push(c) + b, banned, mode, replace_word) == censored(
            a,
            banned,
            mode,
            replace_word,
        ).push(c) + censored(b, banned, mode, replace_word),
    decreases a.len(),
{
    let s = a.push(c) + b;
    let n = text::run(a) as int;
    lemma_run_before(a, c, b);
    text::lemma_run(a);
    if n == a.len() {
        assert(s.take(n) == a);
        assert(s.skip(n + 1) == b);
    } else {
        assert(s.take(n) == a.take(n));
        assert(s.skip(n + 1) == a.skip(n + 1).push(c) + b);
        law_censor_by_parts(a.skip(n + 1), c, b, banned, mode, replace_word);
        let head = shown(a.take(n), banned, mode, replace_word).push(a[n]);
        let mid = censored(a.skip(n + 1), banned, mode, replace_word);
        let tail = censored(b, banned, mode, replace_word);
        assert(head + (mid.push(c) + tail) == (head + mid).push(c) + tail);
    }
}

/// A message none of whose pieces offends is left exactly as it was.
pub proof fn law_clean_message_untouched(
    message: Seq<char>,
    banned: Seq<Seq<char>>,
    mode: Seq<char>,
    replace_word: Seq<char>,
)
    requires
        forall|k: int|
            0 <= k < text::pieces(message).len() ==> !offends(
                #[trigger] text::pieces(message)[k],
                banned,
            ),
    ensures
        censored(message, banned, mode, replace_word) == message,
    decreases message.len(),
{
    let n = text::run(message) as int;
    text::lemma_run(message);
    let all = text::pieces(message);
    assert(!offends(all[0], banned));
    if n < message.len() {
        let rest = message.skip(n + 1);
        assert forall|k: int| 0 <= k < text::pieces(rest).len() implies !offends(
            #[trigger] text::pieces(rest)[k],
            banned,
        ) by {
            assert(all[k + 1] == text::pieces(rest)[k]);
        }
        law_clean_message_untouched(rest, banned, mode, replace_word);
        assert(message == message.take(n).push(message[n]) + rest);
    }
}

/// Offending tokens become stars and kept characters, not another word.
pub open spec fn stars_only(mode: Seq<char>, replace_word: Seq<char>) -> bool {
    mode != "replace"@ || replace_word.len() == 0
}

/// A mask of stars has the token's length, shows nothing that the token does
/// not, brings in no white space, and masks no more when it is masked itself.
pub proof fn law_mask_of_stars(token: Seq<char>, mode: Seq<char>, replace_word: Seq<char>)
    requires
        stars_only(mode, replace_word),
    ensures
        masked(token, mode, replace_word).len() == token.len(),
        forall|i: int|
            0 <= i < token.len() ==> {
                ||| #[trigger] masked(token, mode, replace_word)[i] == token[i]
                ||| masked(token, mode, replace_word)[i] == '*'
            },
        text::unbroken(token) ==> text::unbroken(masked(token, mode, replace_word)),
        masked(masked(token, mode, replace_word), mode, replace_word) == masked(
            token,
            mode,
            replace_word,
        ),
{
    let mask = masked(token, mode, replace_word);
    assert(masked(mask, mode, replace_word) =~= mask);
}

/// Where tokens become stars, a message keeps its length and its white space,
/// and every other character stays or becomes a star.
pub proof fn law_censor_keeps_shape(
    message: Seq<char>,
    banned: Seq<Seq<char>>,
    mode: Seq<char>,
    replace_word: Seq<char>,
)
    requires
        stars_only(mode, replace_word),
    ensures
        censored(message, banned, mode, replace_word).len() == message.len(),
        forall|i: int|
            0 <= i < message.len() ==> {
                ||| #[trigger] censored(message, banned, mode, replace_word)[i] == message[i]
                ||| !text::white_space(message[i]) && censored(
                    message,
                    banned,
                    mode,
                    replace_word,
                )[i] == '*'
            },
    decreases message.len(),
{
    let n = text::run(message) as int;
    let out = censored(message, banned, mode, replace_word);
    text::lemma_run(message);
    let piece = message.take(n);
    law_mask_of_stars(piece, mode, replace_word);
    let head = shown(piece, banned, mode, replace_word);
    assert forall|i: int| 0 <= i < n implies (head[i] == message[i] || (!text::white_space(
        message[i],
    ) && head[i] == '*')) by {
        assert(piece[i] == message[i]);
    }
    if n < message.len() {
        let rest = message.skip(n + 1);
        law_censor_keeps_shape(rest, banned, mode, replace_word);
        let tail = censored(rest, banned, mode, replace_word);
        assert(out == head.push(message[n]) + tail);
        assert forall|i: int| 0 <= i < message.len() implies {
            ||| #[trigger] out[i] == message[i]
            ||| !text::white_space(message[i]) && out[i] == '*'
        } by {
            if i < n {
                assert(out[i] == head[i]);
            } else if i > n {
                assert(out[i] == tail[i - n - 1]);
                assert(rest[i - n - 1] == message[i]);
            }
        }
    } else {
        assert(piece == message);
    }
}

/// The pieces of a censored message are the pieces of the message, each as it is
/// shown, wherever masks bring in no white space: every piece that offends is
/// masked, and no other.
pub proof fn law_every_offending_piece_masked(
    message: Seq<char>,
    banned: Seq<Seq<char>>,
    mode: Seq<char>,
    replace_word: Seq<char>,
)
    requires
        stars_only(mode, replace_word) || text::unbroken(replace_word),
    ensures
        text::pieces(censored(message, banned, mode, replace_word)) == text::pieces(
            message,
        ).map_values(|piece: Seq<char>| shown(piece, banned, mode, replace_word)),
    decreases message.len(),
{
    let show = |piece: Seq<char>| shown(piece, banned, mode, replace_word);
    let n = text::run(message) as int;
    text::lemma_run(message);
    let piece = message.take(n);
    let head = shown(piece, banned, mode, replace_word);
    let out = censored(message, banned, mode, replace_word);
    if stars_only(mode, replace_word) {
        law_mask_of_stars(piece, mode, replace_word);
    }
    assert(text::unbroken(head));
    assert(head.take(head.len() as int) == head);
    if n < message.len() {
        let rest = message.skip(n + 1);
        let tail = censored(rest, banned, mode, replace_word);
        law_every_offending_piece_masked(rest, banned, mode, replace_word);
        assert(out.take(head.len() as int) == head);
        text::lemma_run_is(out, head.len() as int);
        assert(out.skip(head.len() as int + 1) == tail);
        assert(text::pieces(out) =~= text::pieces(message).map_values(show));
    } else {
        assert(piece == message);
        text::lemma_run_is(out, out.len() as int);
        assert(text::pieces(out) =~= text::pieces(message).map_values(show));
    }
}

proof fn lemma_censor_unbroken(
    s: Seq<char>,
    banned: Seq<Seq<char>>,
    mode: Seq<char>,
    replace_word: Seq<char>,
)
    requires
        text::unbroken(s),
    ensures
        censored(s, banned, mode, replace_word) == shown(s, banned, mode, replace_word),
{
    assert(s.take(s.len() as int) == s);
    text::lemma_run_is(s, s.len() as int);
}

/// Censoring a censored message changes nothing more, wherever masks bring in no
/// white space.
pub proof fn law_censor_settles(
    message: Seq<char>,
    banned: Seq<Seq<char>>,
    mode: Seq<char>,
    replace_word: Seq<char>,
)
    requires
        stars_only(mode, replace_word) || text::unbroken(replace_word),
    ensures
        censored(
            censored(message, banned, mode, replace_word),
            banned,
            mode,
            replace_word,
        ) == censored(message, banned, mode, replace_word),
    decreases message.len(),
{
    let n = text::run(message) as int;
    text::lemma_run(message);
    let piece = message.take(n);
    let head = shown(piece, banned, mode, replace_word);
    if stars_only(mode, replace_word) {
        law_mask_of_stars(piece, mode, replace_word);
    }
    lemma_censor_unbroken(head, banned, mode, replace_word);
    if n < message.len() {
        let rest = message.skip(n + 1);
        law_censor_settles(rest, banned, mode, replace_word);
        law_censor_by_parts(
            head,
            message[n],
            censored(rest, banned, mode, replace_word),
            banned,
            mode,
            replace_word,
        );
    } else {
        assert(piece == message);
    }
}

/// The lower-case form of a message has the lower-case forms of its pieces.
pub open spec fn lowers_by_pieces(message: Seq<char>) -> bool {
    text::pieces(text::lowercase(message)) == text::lower_texts(text::pieces(message))
}

/// An ASCII message is lowered piece by piece.
pub proof fn law_ascii_lowers_by_pieces(message: Seq<char>)
    requires
        vstd::utf8::is_ascii_chars(message),
    ensures
        lowers_by_pieces(message),
    decreases message.len(),
{
    let low = text::lowercase(message);
    let n = text::run(message) as int;
    text::lemma_run(message);
    assert forall|i: int| 0 <= i < n implies !text::white_space(#[trigger] low.take(n)[i]) by {
        assert(!text::white_space(message.take(n)[i]));
    }
    text::lemma_run_is(low, n);
    if n < message.len() {
        let rest = message.skip(n + 1);
        law_ascii_lowers_by_pieces(rest);
        assert(low.take(n) == text::lowercase(message.take(n)));
        assert(low.skip(n + 1) == text::lowercase(rest));
    }
    assert(text::pieces(low) =~= text::lower_texts(text::pieces(message)));
}

/// The empty token spells no word.
proof fn lemma_empty_token(word: Seq<char>)
    requires
        word.len() > 0,
    ensures
        detect::token_variant(Seq::<char>::empty(), word) is None,
{
    let empty = Seq::<char>::empty();
    reveal(Seq::filter);
    assert(detect::stripped(empty).len() == 0);
    assert forall|at: int| !text::occurs_at(word, detect::stripped(empty), at) by {}
}

/// Of a message that is lowered piece by piece, some piece offends exactly when
/// one of the words of its lower-case form spells a banned word: censoring and
/// the word-by-word part of detection agree.
pub proof fn law_censor_agrees_with_detection(message: Seq<char>, banned: Seq<Seq<char>>)
    requires
        lowers_by_pieces(message),
    ensures
        (exists|k: int|
            0 <= k < text::pieces(message).len() && offends(
                #[trigger] text::pieces(message)[k],
                banned,
            )) <==> (exists|i: int|
            0 <= i < banned.len() && text::lowercase(#[trigger] banned[i]).len() > 0
                && detect::first_variant(
                text::words(text::lowercase(message)),
                text::lowercase(banned[i]),
            ) is Some),
{
    let low = text::lowercase(message);
    let all = text::pieces(message);
    let low_all = text::pieces(low);
    let keep = |piece: Seq<char>| piece.len() > 0;
    let words = text::words(low);
    if exists|k: int| 0 <= k < all.len() && offends(#[trigger] all[k], banned) {
        let k = choose|k: int| 0 <= k < all.len() && offends(#[trigger] all[k], banned);
        let i = choose|i: int|
            {
                &&& 0 <= i < banned.len()
                &&& text::lowercase(#[trigger] banned[i]).len() > 0
                &&& detect::token_variant(
                    text::lowercase(all[k]),
                    text::lowercase(banned[i]),
                ) is Some
            };
        let word = text::lowercase(banned[i]);
        assert(low_all[k] == text::lowercase(all[k]));
        if low_all[k].len() == 0 {
            assert(low_all[k] == Seq::<char>::empty());
            lemma_empty_token(word);
        }
        low_all.lemma_filter_contains(keep, k);
        let j = choose|j: int| 0 <= j < words.len() && words[j] == low_all[k];
        assert(detect::token_variant(words[j], word) is Some);
        detect::lemma_first_variant(words, word);
        assert(detect::first_variant(words, word) is Some);
    }
    if exists|i: int|
        0 <= i < banned.len() && text::lowercase(#[trigger] banned[i]).len() > 0
            && detect::first_variant(words, text::lowercase(banned[i])) is Some {
        let i = choose|i: int|
            0 <= i < banned.len() && text::lowercase(#[trigger] banned[i]).len() > 0
                && detect::first_variant(words, text::lowercase(banned[i])) is Some;
        let word = text::lowercase(banned[i]);
        detect::lemma_first_variant(words, word);
        let j = choose|j: int|
            0 <= j < words.len() && detect::token_variant(#[trigger] words[j], word) is Some;
        assert(words.contains(words[j]));
        low_all.lemma_filter_contains_rev(keep, words[j]);
        assert(low_all.contains(words[j]));
        let k = choose|k: int| 0 <= k < low_all.len() && low_all[k] == words[j];
        assert(low_all[k] == text::lowercase(all[k]));
        assert(offends(all[k], banned));
    }
}

/// A message that is lowered piece by piece, as every ASCII message is, and in
/// which nothing is detected is not changed by censoring.
pub proof fn law_undetected_untouched(
    message: Seq<char>,
    banned: Seq<Seq<char>>,
    mode: Seq<char>,
    replace_word: Seq<char>,
)
    requires
        lowers_by_pieces(message),
        detect::detection(message, banned) is None,
    ensures
        censored(message, banned, mode, replace_word) == message,
{
    law_censor_agrees_with_detection(message, banned);
    detect::law_first_banned_word(message, banned);
    assert forall|k: int| 0 <= k < text::pieces(message).len() implies !offends(
        #[trigger] text::pieces(message)[k],
        banned,
    ) by {
        if offends(text::pieces(message)[k], banned) {
            let low = text::lowercase(message);
            let i = choose|i: int|
                0 <= i < banned.len() && text::lowercase(#[trigger] banned[i]).len() > 0
                    && detect::first_variant(text::words(low), text::lowercase(banned[i])) is Some;
            detect::law_variant_iff_spelled(low, text::lowercase(banned[i]));
        }
    }
    law_clean_message_untouched(message, banned, mode, replace_word);
}

/// What every mode leaves of a token, character by character. Mode "hard" leaves
/// nothing but its length, mode "mid" the first character, mode "replace" nothing
/// at all where there is a word to put in place. In any other mode a token of one
/// or two characters becomes stars, and of a longer one, however long, nothing
/// but the first and the last character is shown.
pub proof fn law_mask_by_characters(token: Seq<char>, mode: Seq<char>, replace_word: Seq<char>)
    ensures
        mode == "hard"@ ==> {
            &&& masked(token, mode, replace_word).len() == token.len()
            &&& forall|i: int|
                0 <= i < token.len() ==> #[trigger] masked(token, mode, replace_word)[i] == '*'
        },
        mode == "mid"@ ==> {
            &&& masked(token, mode, replace_word).len() == token.len()
            &&& token.len() > 0 ==> masked(token, mode, replace_word)[0] == token[0]
            &&& forall|i: int|
                1 <= i < token.len() ==> #[trigger] masked(token, mode, replace_word)[i] == '*'
        },
        mode == "replace"@ && replace_word.len() > 0 ==> masked(token, mode, replace_word)
            == replace_word,
        mode == "replace"@ && replace_word.len() == 0 ==> {
            &&& masked(token, mode, replace_word).len() == token.len()
            &&& forall|i: int|
                0 <= i < token.len() ==> #[trigger] masked(token, mode, replace_word)[i] == '*'
        },
        mode != "hard"@ && mode != "mid"@ && mode != "replace"@ ==> {
            let mask = masked(token, mode, replace_word);
            &&& mask.len() == token.len()
            &&& token.len() <= 2 ==> forall|i: int|
                0 <= i < token.len() ==> #[trigger] mask[i] == '*'
            &&& token.len() >= 3 ==> {
                &&& mask[0] == token[0]
                &&& mask[token.len() - 1] == token[token.len() - 1]
                &&& forall|i: int| 1 <= i < token.len() - 1 ==> #[trigger] mask[i] == '*'
            }
        },
{
    reveal_strlit("hard");
    reveal_strlit("mid");
    reveal_strlit("replace");
    assert("hard"@.len() == 4 && "mid"@.len() == 3 && "replace"@.len() == 7);
}

/// A token offends exactly where its lower-case form is that of a banned word,
/// reads as it in leet-speak, or holds it; an empty word counts for nothing.
pub proof fn law_offends(token: Seq<char>, banned: Seq<Seq<char>>)
    ensures
        offends(token, banned) <==> exists|i: int|
            {
                &&& 0 <= i < banned.len()
                &&& text::lowercase(#[trigger] banned[i]).len() > 0
                &&& detect::hits(text::lowercase(token), text::lowercase(banned[i]))
            },
{
    let low = text::lowercase(token);
    assert forall|i: int| 0 <= i < banned.len() implies (detect::token_variant(
        low,
        text::lowercase(#[trigger] banned[i]),
    ) is Some) == detect::hits(low, text::lowercase(banned[i])) by {
        detect::law_token_spells(low, text::lowercase(banned[i]));
    }
}

/// Nothing is shown of an empty message.
proof fn lemma_censor_empty(
    banned: Seq<Seq<char>>,
    mode: Seq<char>,
    replace_word: Seq<char>,
)
    ensures
        censored(Seq::<char>::empty(), banned, mode, replace_word) == Seq::<char>::empty(),
{
    let empty = Seq::<char>::empty();
    assert(text::lowercase(empty) =~= empty);
    assert forall|i: int|
        0 <= i < banned.len() && text::lowercase(#[trigger] banned[i]).len()
            > 0 implies detect::token_variant(empty, text::lowercase(banned[i])) is None by {
        lemma_empty_token(text::lowercase(banned[i]));
    }
    lemma_censor_unbroken(empty, banned, mode, replace_word);
}

/// Behind white space a message is censored as if it began there.
proof fn lemma_censor_behind(
    a: Seq<char>,
    b: Seq<char>,
    banned: Seq<Seq<char>>,
    mode: Seq<char>,
    replace_word: Seq<char>,
)
    requires
        a.len() > 0 ==> text::white_space(a.last()),
    ensures
        censored(a + b, banned, mode, replace_word) == censored(a, banned, mode, replace_word)
            + censored(b, banned, mode, replace_word),
{
    let empty = Seq::<char>::empty();
    let behind = censored(b, banned, mode, replace_word);
    lemma_censor_empty(banned, mode, replace_word);
    if a.len() > 0 {
        let init = a.drop_last();
        let head = censored(init, banned, mode, replace_word).push(a.last());
        law_censor_by_parts(init, a.last(), b, banned, mode, replace_word);
        law_censor_by_parts(init, a.last(), empty, banned, mode, replace_word);
        assert(a + b =~= init.push(a.last()) + b);
        assert(a =~= init.push(a.last()) + empty);
        assert(head + empty =~= head);
    } else {
        assert(a =~= empty);
        assert(a + b =~= b);
        assert(empty + behind =~= behind);
    }
}

/// In front of white space a message is censored as if it ended there.
proof fn lemma_censor_before(
    a: Seq<char>,
    b: Seq<char>,
    banned: Seq<Seq<char>>,
    mode: Seq<char>,
    replace_word: Seq<char>,
)
    requires
        b.len() > 0 ==> text::white_space(b[0]),
    ensures
        censored(a + b, banned, mode, replace_word) == censored(a, banned, mode, replace_word)
            + censored(b, banned, mode, replace_word),
{
    let empty = Seq::<char>::empty();
    let front = censored(a, banned, mode, replace_word);
    lemma_censor_empty(banned, mode, replace_word);
    if b.len() > 0 {
        let rest = b.skip(1);
        let tail = censored(rest, banned, mode, replace_word);
        law_censor_by_parts(a, b[0], rest, banned, mode, replace_word);
        law_censor_by_parts(empty, b[0], rest, banned, mode, replace_word);
        assert(a + b =~= a.push(b[0]) + rest);
        assert(b =~= empty.push(b[0]) + rest);
        assert(front.push(b[0]) + tail =~= front + (empty.push(b[0]) + tail));
    } else {
        assert(b =~= empty);
        assert(a + b =~= a);
        assert(front + empty =~= front);
    }
}

/// A token between white space or the ends of the message is masked where it
/// offends and left exactly as it was where not; what stands in front of it and
/// behind it is censored by itself.
pub proof fn law_token_censored_in_place(
    a: Seq<char>,
    token: Seq<char>,
    b: Seq<char>,
    banned: Seq<Seq<char>>,
    mode: Seq<char>,
    replace_word: Seq<char>,
)
    requires
        text::unbroken(token),
        a.len() > 0 ==> text::white_space(a.last()),
        b.len() > 0 ==> text::white_space(b[0]),
    ensures
        ({
            let offending = exists|i: int|
                {
                    &&& 0 <= i < banned.len()
                    &&& text::lowercase(#[trigger] banned[i]).len() > 0
                    &&& detect::hits(text::lowercase(token), text::lowercase(banned[i]))
                };
            let before = censored(a, banned, mode, replace_word);
            let behind = censored(b, banned, mode, replace_word);
            censored(a + token + b, banned, mode, replace_word) == before + (if offending {
                masked(token, mode, replace_word)
            } else {
                token
            }) + behind
        }),
{
    law_offends(token, banned);
    lemma_censor_unbroken(token, banned, mode, replace_word);
    lemma_censor_behind(a, token, banned, mode, replace_word);
    lemma_censor_before(a + token, b, banned, mode, replace_word);
}

/// White space alone is left as it was.
pub proof fn law_white_space_kept(
    s: Seq<char>,
    banned: Seq<Seq<char>>,
    mode: Seq<char>,
    replace_word: Seq<char>,
)
    requires
        forall|i: int| 0 <= i < s.len() ==> text::white_space(#[trigger] s[i]),
    ensures
        censored(s, banned, mode, replace_word) == s,
    decreases s.len(),
{
    let empty = Seq::<char>::empty();
    lemma_censor_empty(banned, mode, replace_word);
    if s.len() > 0 {
        law_white_space_kept(s.drop_last(), banned, mode, replace_word);
        law_censor_by_parts(s.drop_last(), s.last(), empty, banned, mode, replace_word);
        assert(s =~= s.drop_last().push(s.last()) + empty);
    } else {
        assert(s =~= empty);
    }
}

} // verus!

//! Text as a sequence of characters: white space, letter case, substrings and
//! the pieces that white space cuts a text into.

use vstd::prelude::*;

verus! {

/// The characters with the Unicode property `White_Space`.
pub open spec fn white_space(c: char) -> bool {
    ||| '\u{9}' <= c <= '\u{d}'
    ||| c == ' '
    ||| c == '\u{85}'
    ||| c == '\u{a0}'
    ||| c == '\u{1680}'
    ||| '\u{2000}' <= c <= '\u{200a}'
    ||| c == '\u{2028}'
    ||| c == '\u{2029}'
    ||| c == '\u{202f}'
    ||| c == '\u{205f}'
    ||| c == '\u{3000}'
}

/// Whether `c` is white space.
pub fn is_whitespace(c: char) -> (r: bool)
    ensures
        r == white_space(c),
{
    ('\u{9}' <= c && c <= '\u{d}') || c == ' ' || c == '\u{85}' || c == '\u{a0}' || c == '\u{1680}'
        || ('\u{2000}' <= c && c <= '\u{200a}') || c == '\u{2028}' || c == '\u{2029}'
        || c == '\u{202f}' || c == '\u{205f}' || c == '\u{3000}'
}

/// `c` with the letters `A` to `Z` turned into `a` to `z`.
pub open spec fn ascii_lower(c: char) -> char {
    if 'A' <= c <= 'Z' {
        (c as u8 + 32) as u8 as char
    } else {
        c
    }
}

/// `c` with the letters `A` to `Z` turned into `a` to `z`.
pub fn to_ascii_lower(c: char) -> (r: char)
    ensures
        r == ascii_lower(c),
{
    if 'A' <= c && c <= 'Z' {
        (c as u8 + 32) as char
    } else {
        c
    }
}

/// What `str::to_lowercase` makes of a text.
pub uninterp spec fn unicode_lowercase(s: Seq<char>) -> Seq<char>;

/// The lowercase form of a text. Of an ASCII text it is known letter by letter.
pub open spec fn lowercase(s: Seq<char>) -> Seq<char> {
    if vstd::utf8::is_ascii_chars(s) {
        s.map_values(|c: char| ascii_lower(c))
    } else {
        unicode_lowercase(s)
    }
}

/// Calls `str::to_lowercase`. The result is a function of the text alone; an
/// ASCII text has its letters `A` to `Z` turned into `a` to `z` and nothing
/// else changed. What becomes of other letters is left to the Unicode tables. It
/// is not said that a text beyond ASCII is lowered the same way as a whole and
/// piece by piece between its white space.
#[verifier::external_body]
pub(crate) fn to_lowercase(s: &str) -> (r: String)
    ensures
        r@ == if vstd::utf8::is_ascii_chars(s@) {
            s@.map_values(|c: char| ascii_lower(c))
        } else {
            unicode_lowercase(s@)
        },
{
    s.to_lowercase()
}

/// `String::push` puts one character behind the text.
pub assume_specification[ String::push ](s: &mut String, c: char)
    ensures
        final(s)@ == old(s)@.push(c),
;

/// The characters of `s`.
pub fn to_chars(s: &str) -> (r: Vec<char>)
    ensures
        r@ == s@,
{
    let mut r: Vec<char> = Vec::new();
    for c in it: s.chars()
        invariant
            it.seq() == s@,
            r@ == s@.take(it.index()),
    {
        r.push(c);
    }
    r
}

/// The text with the characters `chars`.
pub fn to_text(chars: &[char]) -> (r: String)
    ensures
        r@ == chars@,
{
    let mut r = String::new();
    let mut i: usize = 0;
    while i < chars.len()
        invariant
            i <= chars.len(),
            r@ == chars@.take(i as int),
        decreases chars.len() - i,
    {
        r.push(chars[i]);
        i += 1;
    }
    r
}

/// Whether two texts have the same characters.
pub fn same(a: &[char], b: &[char]) -> (r: bool)
    ensures
        r == (a@ == b@),
{
    if a.len() != b.len() {
        return false;
    }
    let mut i: usize = 0;
    while i < a.len()
        invariant
            a.len() == b.len(),
            i <= a.len(),
            a@.take(i as int) == b@.take(i as int),
        decreases a.len() - i,
    {
        if a[i] != b[i] {
            return false;
        }
        i += 1;
    }
    assert(a@.take(i as int) == a@ && b@.take(i as int) == b@);
    true
}

/// Whether two texts are equal.
pub fn is_text(a: &str, b: &str) -> (r: bool)
    ensures
        r == (a@ == b@),
{
    same(to_chars(a).as_slice(), to_chars(b).as_slice())
}

/// The texts of a list of strings.
pub open spec fn texts(list: Seq<String>) -> Seq<Seq<char>> {
    list.map_values(|s: String| s@)
}

/// The texts of a list of character vectors.
pub open spec fn char_texts(list: Seq<Vec<char>>) -> Seq<Seq<char>> {
    list.map_values(|v: Vec<char>| v@)
}

/// The lower-case forms of a list of texts.
pub open spec fn lower_texts(list: Seq<Seq<char>>) -> Seq<Seq<char>> {
    list.map_values(|s: Seq<char>| lowercase(s))
}

/// The lower-case forms of a list of strings.
pub fn lower_words(list: &[String]) -> (r: Vec<Vec<char>>)
    ensures
        char_texts(r@) == lower_texts(texts(list@)),
{
    let mut r: Vec<Vec<char>> = Vec::new();
    let mut i: usize = 0;
    while i < list.len()
        invariant
            i <= list.len(),
            char_texts(r@) == lower_texts(texts(list@)).take(i as int),
        decreases list.len() - i,
    {
        let ghost before = r@;
        r.push(to_chars(to_lowercase(list[i].as_str()).as_str()));
        assert(char_texts(r@) == char_texts(before).push(lowercase(list@[i as int]@)));
        i += 1;
    }
    r
}

/// `needle` stands in `hay` from position `at` on.
pub open spec fn occurs_at(needle: Seq<char>, hay: Seq<char>, at: int) -> bool {
    &&& 0 <= at
    &&& at + needle.len() <= hay.len()
    &&& hay.subrange(at, at + needle.len()) == needle
}

/// `needle` stands somewhere in `hay`.
pub open spec fn occurs(needle: Seq<char>, hay: Seq<char>) -> bool {
    exists|at: int| occurs_at(needle, hay, at)
}

/// Whether `needle` stands somewhere in `hay`.
pub fn contains(hay: &[char], needle: &[char]) -> (r: bool)
    ensures
        r == occurs(needle@, hay@),
{
    let mut at: usize = 0;
    while at < hay.len() && needle.len() <= hay.len() - at
        invariant
            at <= hay.len(),
            forall|k: int| 0 <= k < at ==> !occurs_at(needle@, hay@, k),
        decreases hay.len() - at,
    {
        if same(vstd::slice::slice_subrange(hay, at, at + needle.len()), needle) {
            assert(occurs_at(needle@, hay@, at as int));
            return true;
        }
        at += 1;
    }
    if needle.len() == 0 {
        assert(hay@.subrange(hay@.len() as int, hay@.len() as int) == needle@);
        assert(occurs_at(needle@, hay@, hay@.len() as int));
        return true;
    }
    assert forall|k: int| !occurs_at(needle@, hay@, k) by {}
    false
}

/// How many characters precede the first white space of `s`.
pub open spec fn run(s: Seq<char>) -> nat
    decreases s.len(),
{
    if s.len() == 0 || white_space(s[0]) {
        0
    } else {
        1 + run(s.skip(1))
    }
}

/// No character of `s` is white space.
pub open spec fn unbroken(s: Seq<char>) -> bool {
    forall|i: int| 0 <= i < s.len() ==> !white_space(#[trigger] s[i])
}

/// The run is the longest prefix without white space.
pub proof fn lemma_run(s: Seq<char>)
    ensures
        run(s) <= s.len(),
        unbroken(s.take(run(s) as int)),
        run(s) < s.len() ==> white_space(s[run(s) as int]),
    decreases s.len(),
{
    if s.len() != 0 && !white_space(s[0]) {
        let rest = s.skip(1);
        lemma_run(rest);
        assert forall|i: int| 0 <= i < run(s) implies !white_space(
            #[trigger] s.take(run(s) as int)[i],
        ) by {
            if i > 0 {
                assert(rest.take(run(rest) as int)[i - 1] == s[i]);
            }
        }
    }
}

/// A prefix without white space that the text's end or white space follows is
/// the run.
pub proof fn lemma_run_is(s: Seq<char>, n: int)
    requires
        0 <= n <= s.len(),
        unbroken(s.take(n)),
        n < s.len() ==> white_space(s[n]),
    ensures
        run(s) == n,
{
    lemma_run(s);
    if run(s) < n {
        assert(s.take(n)[run(s) as int] == s[run(s) as int]);
    } else if n < run(s) {
        assert(s.take(run(s) as int)[n] == s[n]);
    }
}

/// The pieces that the white space of `s` cuts it into, the empty ones among
/// them: one more than there are white space characters.
pub open spec fn pieces(s: Seq<char>) -> Seq<Seq<char>>
    decreases s.len(),
{
    let n = run(s) as int;
    if n >= s.len() {
        seq![s]
    } else {
        seq![s.take(n)] + pieces(s.skip(n + 1))
    }
}

/// The words of `s`: its pieces without the empty ones.
pub open spec fn words(s: Seq<char>) -> Seq<Seq<char>> {
    pieces(s).filter(|piece: Seq<char>| piece.len() > 0)
}

/// The position of the first white space of `chars` from `from` on, or its
/// length.
pub(crate) fn piece_end(chars: &[char], from: usize) -> (r: usize)
    requires
        from <= chars@.len(),
    ensures
        r == from + run(chars@.skip(from as int)),
        from <= r <= chars@.len(),
{
    let mut end: usize = from;
    let ghost rest = chars@.skip(from as int);
    while end < chars.len() && !is_whitespace(chars[end])
        invariant
            from <= end <= chars.len(),
            rest == chars@.skip(from as int),
            unbroken(rest.take(end - from)),
        decreases chars.len() - end,
    {
        assert forall|i: int| 0 <= i < end + 1 - from implies !white_space(
            #[trigger] rest.take(end + 1 - from)[i],
        ) by {
            if i < end - from {
                assert(rest.take(end - from)[i] == rest[i]);
            }
        }
        end += 1;
    }
    proof {
        lemma_run_is(rest, end - from);
    }
    end
}

/// The words of `chars`, in their order.
pub fn split_words(chars: &[char]) -> (r: Vec<Vec<char>>)
    ensures
        char_texts(r@) == words(chars@),
{
    let mut r: Vec<Vec<char>> = Vec::new();
    let mut from: usize = 0;
    let ghost mut seen: Seq<Seq<char>> = seq![];
    let ghost keep = |piece: Seq<char>| piece.len() > 0;
    assert(chars@.skip(0) == chars@);
    assert(seen + pieces(chars@) == pieces(chars@));
    loop
        invariant
            from <= chars.len(),
            keep == (|piece: Seq<char>| piece.len() > 0),
            seen + pieces(chars@.skip(from as int)) == pieces(chars@),
            char_texts(r@) == seen.filter(keep),
        decreases chars.len() - from,
    {
        let end = piece_end(chars, from);
        let ghost rest = chars@.skip(from as int);
        let ghost piece = chars@.subrange(from as int, end as int);
        assert(piece == rest.take(end - from));
        if from < end {
            let ghost before = r@;
            r.push(vstd::slice::slice_to_vec(vstd::slice::slice_subrange(chars, from, end)));
            assert(char_texts(r@) == char_texts(before).push(piece));
        }
        proof {
            seen.lemma_filter_push(piece, keep);
            assert(char_texts(r@) == seen.push(piece).filter(keep));
        }
        if end == chars.len() {
            assert(rest.take(end - from) == rest);
            assert(seen.push(piece) == pieces(chars@));
            return r;
        }
        proof {
            assert(rest.skip(end - from + 1) == chars@.skip(end + 1));
            assert(seen.push(piece) + pieces(chars@.skip(end + 1)) == seen + pieces(rest));
            seen = seen.push(piece);
        }
        from = end + 1;
    }
}

/// The white space characters are the tab and the four controls behind it, the
/// next line, and the separators of lines, paragraphs and words.
pub proof fn law_white_space(c: char)
    ensures
        white_space(c) <==> {
            let code = c as u32;
            ||| 9 <= code <= 13
            ||| code == 32
            ||| code == 0x85
            ||| code == 0xa0
            ||| code == 0x1680
            ||| 0x2000 <= code <= 0x200a
            ||| code == 0x2028
            ||| code == 0x2029
            ||| code == 0x202f
            ||| code == 0x205f
            ||| code == 0x3000
        },
{
}

/// A capital letter of ASCII becomes the small letter 32 places behind it; every
/// other character stays.
pub proof fn law_ascii_lower(c: char)
    ensures
        65 <= c as u32 <= 90 ==> ascii_lower(c) as u32 == c as u32 + 32,
        !(65 <= c as u32 <= 90) ==> ascii_lower(c) == c,
{
}

/// The lower-case form of an ASCII text differs from it in nothing but its
/// capital letters, which become small ones.
pub proof fn law_lowercase_of_ascii(s: Seq<char>)
    requires
        vstd::utf8::is_ascii_chars(s),
    ensures
        lowercase(s).len() == s.len(),
        forall|i: int|
            0 <= i < s.len() ==> #[trigger] lowercase(s)[i] as u32 == if 65 <= s[i] as u32 <= 90 {
                s[i] as u32 + 32
            } else {
                s[i] as int
            },
        lowercase(lowercase(s)) == lowercase(s),
{
    let low = lowercase(s);
    assert forall|i: int| 0 <= i < s.len() implies #[trigger] low[i] as u32 == if 65 <= s[i] as u32
        <= 90 {
        s[i] as u32 + 32
    } else {
        s[i] as int
    } by {
        law_ascii_lower(s[i]);
    }
    assert forall|i: int| 0 <= i < low.len() implies '\0' <= #[trigger] low[i] <= '\u{7f}' by {
        assert('\0' <= s[i] <= '\u{7f}');
        law_ascii_lower(s[i]);
    }
    assert(vstd::utf8::is_ascii_chars(low));
    assert(lowercase(low) =~= low);
}

/// A text stands in another exactly where that one can be put together round it.
pub proof fn law_occurs_between(needle: Seq<char>, hay: Seq<char>)
    ensures
        occurs(needle, hay) <==> exists|a: Seq<char>, b: Seq<char>|
            hay == #[trigger] (a + needle + b),
{
    if occurs(needle, hay) {
        let at = choose|at: int| occurs_at(needle, hay, at);
        let a = hay.take(at);
        let b = hay.skip(at + needle.len());
        assert forall|j: int| 0 <= j < needle.len() implies hay[at + j] == needle[j] by {
            assert(hay.subrange(at, at + needle.len())[j] == hay[at + j]);
        }
        assert(hay =~= a + needle + b);
    }
    if exists|a: Seq<char>, b: Seq<char>| hay == #[trigger] (a + needle + b) {
        let (a, b) = choose|a: Seq<char>, b: Seq<char>| hay == #[trigger] (a + needle + b);
        let at = a.len() as int;
        assert(hay.subrange(at, at + needle.len()) =~= needle);
        assert(occurs_at(needle, hay, at));
    }
}

/// Text in front of white space ends its last piece, whatever follows.
pub proof fn lemma_run_before(a: Seq<char>, c: char, b: Seq<char>)
    requires
        white_space(c),
    ensures
        run(a.push(c) + b) == run(a),
{
    let n = run(a) as int;
    lemma_run(a);
    assert((a.push(c) + b).take(n) == a.take(n));
    lemma_run_is(a.push(c) + b, n);
}

/// Text without white space is one piece; a white space character parts the
/// pieces in front of it from those behind it, and belongs to none.
pub proof fn law_pieces_by_parts(a: Seq<char>, c: char, b: Seq<char>)
    requires
        white_space(c),
    ensures
        unbroken(a) ==> pieces(a) == seq![a],
        pieces(a.push(c) + b) == pieces(a) + pieces(b),
    decreases a.len(),
{
    let s = a.push(c) + b;
    let n = run(a) as int;
    lemma_run_before(a, c, b);
    lemma_run(a);
    if n == a.len() {
        assert(s.take(n) == a);
        assert(s.skip(n + 1) == b);
    } else {
        assert(a.take(n + 1)[n] == a[n]);
        assert(s.take(n) == a.take(n));
        assert(s.skip(n + 1) == a.skip(n + 1).push(c) + b);
        law_pieces_by_parts(a.skip(n + 1), c, b);
        assert(pieces(s) =~= pieces(a) + pieces(b));
    }
}

/// Text without white space is one word, unless it is empty; the words in front
/// of a white space character come first, and those behind it follow.
pub proof fn law_words_by_parts(a: Seq<char>, c: char, b: Seq<char>)
    requires
        white_space(c),
    ensures
        unbroken(a) && a.len() > 0 ==> words(a) == seq![a],
        a.len() == 0 ==> words(a) == Seq::<Seq<char>>::empty(),
        words(a.push(c) + b) == words(a) + words(b),
{
    let keep = |piece: Seq<char>| piece.len() > 0;
    law_pieces_by_parts(a, c, b);
    Seq::filter_distributes_over_add(pieces(a), pieces(b), keep);
    if unbroken(a) {
        let none = Seq::<Seq<char>>::empty();
        none.lemma_filter_push(a, keep);
        none.lemma_filter_len(keep);
        assert(none.filter(keep) =~= none);
        assert(none.push(a) =~= seq![a]);
    }
}

/// The words of a text are not empty and have no white space.
pub proof fn law_words_are_solid(s: Seq<char>)
    ensures
        forall|k: int|
            0 <= k < words(s).len() ==> (#[trigger] words(s)[k]).len() > 0 && unbroken(words(s)[k]),
    decreases s.len(),
{
    let n = run(s) as int;
    lemma_run(s);
    if n < s.len() {
        let rest = s.skip(n + 1);
        law_words_are_solid(rest);
        law_words_by_parts(s.take(n), s[n], rest);
        assert(s =~= s.take(n).push(s[n]) + rest);
        assert forall|k: int| 0 <= k < words(s).len() implies (#[trigger] words(s)[k]).len() > 0
            && unbroken(words(s)[k]) by {
            let head = words(s.take(n));
            if k >= head.len() {
                assert(words(s)[k] == words(rest)[k - head.len()]);
            }
        }
    } else {
        assert(s.take(n) == s);
        law_words_by_parts(s, ' ', s);
    }
}

} // verus!

//! Comma-separated lists.

use vstd::prelude::*;

use crate::text;

verus! {

/// A text without the white space at its start.
pub open spec fn trim_start(s: Seq<char>) -> Seq<char>
    decreases s.len(),
{
    if s.len() > 0 && text::white_space(s[0]) {
        trim_start(s.skip(1))
    } else {
        s
    }
}

/// A text without the white space at its end.
pub open spec fn trim_end(s: Seq<char>) -> Seq<char>
    decreases s.len(),
{
    if s.len() > 0 && text::white_space(s.last()) {
        trim_end(s.drop_last())
    } else {
        s
    }
}

/// A text without the white space at its start and its end.
pub open spec fn trimmed(s: Seq<char>) -> Seq<char> {
    trim_end(trim_start(s))
}

/// The characters without the white space at the start and the end.
pub fn trim(chars: &[char]) -> (r: &[char])
    ensures
        r@ == trimmed(chars@),
{
    let mut from: usize = 0;
    assert(chars@.skip(0) == chars@);
    while from < chars.len() && text::is_whitespace(chars[from])
        invariant
            from <= chars.len(),
            trim_start(chars@.skip(from as int)) == trim_start(chars@),
        decreases chars.len() - from,
    {
        assert(chars@.skip(from as int).skip(1) == chars@.skip(from + 1));
        from += 1;
    }
    let mut to: usize = chars.len();
    let ghost rest = chars@.skip(from as int);
    assert(chars@.subrange(from as int, to as int) == rest);
    while from < to && text::is_whitespace(chars[to - 1])
        invariant
            from <= to <= chars.len(),
            rest == chars@.skip(from as int),
            trim_end(chars@.subrange(from as int, to as int)) == trim_end(rest),
        decreases to - from,
    {
        assert(chars@.subrange(from as int, to as int).drop_last() == chars@.subrange(
            from as int,
            to - 1,
        ));
        to -= 1;
    }
    vstd::slice::slice_subrange(chars, from, to)
}

/// A trimmed text neither starts nor ends with white space.
pub proof fn lemma_trimmed(s: Seq<char>)
    ensures
        trimmed(s).len() > 0 ==> !text::white_space(trimmed(s)[0]) && !text::white_space(trimmed(s).last()),
{
    lemma_trim_start(s);
    lemma_trim_end(trim_start(s));
}

proof fn lemma_trim_start(s: Seq<char>)
    ensures
        trim_start(s).len() > 0 ==> !text::white_space(trim_start(s)[0]),
        exists|k: int| 0 <= k <= s.len() && #[trigger] s.skip(k) == trim_start(s),
    decreases s.len(),
{
    if s.len() > 0 && text::white_space(s[0]) {
        lemma_trim_start(s.skip(1));
        let k = choose|k: int|
            0 <= k <= s.skip(1).len() && #[trigger] s.skip(1).skip(k) == trim_start(s.skip(1));
        assert(s.skip(k + 1) == s.skip(1).skip(k));
    } else {
        assert(s.skip(0) == s);
    }
}

proof fn lemma_trim_end(s: Seq<char>)
    ensures
        trim_end(s).len() > 0 ==> !text::white_space(trim_end(s).last()),
        exists|k: int| 0 <= k <= s.len() && #[trigger] s.take(k) == trim_end(s),
    decreases s.len(),
{
    if s.len() > 0 && text::white_space(s.last()) {
        lemma_trim_end(s.drop_last());
        let k = choose|k: int|
            0 <= k <= s.drop_last().len() && #[trigger] s.drop_last().take(k) == trim_end(
                s.drop_last(),
            );
        assert(s.take(k) == s.drop_last().take(k));
    } else {
        assert(s.take(s.len() as int) == s);
    }
}

/// Trimming only takes characters away.
pub proof fn lemma_trimmed_contains(s: Seq<char>, c: char)
    ensures
        trimmed(s).contains(c) ==> s.contains(c),
{
    lemma_trim_start(s);
    lemma_trim_end(trim_start(s));
    let start = trim_start(s);
    let k = choose|k: int| 0 <= k <= s.len() && #[trigger] s.skip(k) == start;
    let n = choose|n: int| 0 <= n <= start.len() && #[trigger] start.take(n) == trimmed(s);
    if trimmed(s).contains(c) {
        let i = choose|i: int| 0 <= i < trimmed(s).len() && trimmed(s)[i] == c;
        assert(start.take(n)[i] == start[i]);
        assert(s.skip(k)[i] == s[k + i]);
    }
}

/// How many characters precede the first comma of `s`.
pub open spec fn before_comma(s: Seq<char>) -> nat
    decreases s.len(),
{
    if s.len() == 0 || s[0] == ',' {
        0
    } else {
        1 + before_comma(s.skip(1))
    }
}

/// The parts that the commas of `s` cut it into, the empty ones among them.
pub open spec fn comma_parts(s: Seq<char>) -> Seq<Seq<char>>
    decreases s.len(),
{
    let n = before_comma(s) as int;
    if n >= s.len() {
        seq![s]
    } else {
        seq![s.take(n)] + comma_parts(s.skip(n + 1))
    }
}

/// The entries of a comma-separated list: its parts, trimmed, without the empty
/// ones.
pub open spec fn entries(s: Seq<char>) -> Seq<Seq<char>> {
    comma_parts(s).map_values(|part: Seq<char>| trimmed(part)).filter(
        |part: Seq<char>| part.len() > 0,
    )
}

/// The characters in front of the first comma hold none.
pub proof fn lemma_before_comma(s: Seq<char>)
    ensures
        before_comma(s) <= s.len(),
        forall|i: int| 0 <= i < before_comma(s) ==> #[trigger] s[i] != ',',
        before_comma(s) < s.len() ==> s[before_comma(s) as int] == ',',
    decreases s.len(),
{
    if s.len() != 0 && s[0] != ',' {
        let rest = s.skip(1);
        lemma_before_comma(rest);
        assert forall|i: int| 0 <= i < before_comma(s) implies #[trigger] s[i] != ',' by {
            if i > 0 {
                assert(rest[i - 1] == s[i]);
            }
        }
    }
}

/// A prefix without commas that a comma or the text's end follows is the part.
proof fn lemma_before_comma_is(s: Seq<char>, n: int)
    requires
        0 <= n <= s.len(),
        forall|i: int| 0 <= i < n ==> #[trigger] s[i] != ',',
        n < s.len() ==> s[n] == ',',
    ensures
        before_comma(s) == n,
{
    lemma_before_comma(s);
}

/// The position of the first comma of `chars` from `from` on, or its length.
fn part_end(chars: &[char], from: usize) -> (r: usize)
    requires
        from <= chars@.len(),
    ensures
        r == from + before_comma(chars@.skip(from as int)),
        from <= r <= chars@.len(),
{
    let mut end: usize = from;
    let ghost rest = chars@.skip(from as int);
    while end < chars.len() && chars[end] != ','
        invariant
            from <= end <= chars.len(),
            rest == chars@.skip(from as int),
            forall|i: int| 0 <= i < end - from ==> #[trigger] rest[i] != ',',
        decreases chars.len() - end,
    {
        assert(rest[end - from] == chars@[end as int]);
        end += 1;
    }
    proof {
        lemma_before_comma_is(rest, end - from);
    }
    end
}

/// The entries of a comma-separated list, in their order.
pub fn split_entries(list: &str) -> (r: Vec<String>)
    ensures
        text::texts(r@) == entries(list@),
{
    let chars = text::to_chars(list);
    let mut r: Vec<String> = Vec::new();
    let mut from: usize = 0;
    let ghost mut seen: Seq<Seq<char>> = seq![];
    let ghost tidy = |part: Seq<char>| trimmed(part);
    let ghost keep = |part: Seq<char>| part.len() > 0;
    assert(chars@.skip(0) == chars@);
    assert(seen + comma_parts(chars@) == comma_parts(chars@));
    assert(text::texts(r@) == seen.map_values(tidy).filter(keep));
    loop
        invariant
            from <= chars.len(),
            chars@ == list@,
            tidy == (|part: Seq<char>| trimmed(part)),
            keep == (|part: Seq<char>| part.len() > 0),
            seen + comma_parts(chars@.skip(from as int)) == comma_parts(chars@),
            text::texts(r@) == seen.map_values(tidy).filter(keep),
        decreases chars.len() - from,
    {
        let end = part_end(chars.as_slice(), from);
        let ghost rest = chars@.skip(from as int);
        let ghost part = chars@.subrange(from as int, end as int);
        assert(part == rest.take(end - from));
        let entry = trim(vstd::slice::slice_subrange(chars.as_slice(), from, end));
        if entry.len() != 0 {
            let ghost before = r@;
            r.push(text::to_text(entry));
            assert(text::texts(r@) == text::texts(before).push(trimmed(part)));
        }
        proof {
            seen.map_values(tidy).lemma_filter_push(trimmed(part), keep);
            assert(seen.push(part).map_values(tidy) == seen.map_values(tidy).push(trimmed(part)));
            assert(text::texts(r@) == seen.push(part).map_values(tidy).filter(keep));
        }
        if end == chars.len() {
            assert(rest.take(end - from) == rest);
            assert(seen.push(part) == comma_parts(chars@));
            return r;
        }
        proof {
            assert(rest.skip(end - from + 1) == chars@.skip(end + 1));
            assert(seen.push(part) + comma_parts(chars@.skip(end + 1)) == seen + comma_parts(rest));
            seen = seen.push(part);
        }
        from = end + 1;
    }
}

/// No part between commas holds one.
pub proof fn lemma_parts_without_comma(s: Seq<char>)
    ensures
        forall|k: int|
            0 <= k < comma_parts(s).len() ==> !(#[trigger] comma_parts(s)[k]).contains(','),
    decreases s.len(),
{
    let n = before_comma(s) as int;
    lemma_before_comma(s);
    if n < s.len() {
        lemma_parts_without_comma(s.skip(n + 1));
        assert forall|k: int| 0 <= k < comma_parts(s).len() implies !(
            #[trigger] comma_parts(s)[k]).contains(',') by {
            if k == 0 {
                assert(forall|i: int| 0 <= i < n ==> s.take(n)[i] == s[i]);
            } else {
                assert(comma_parts(s)[k] == comma_parts(s.skip(n + 1))[k - 1]);
            }
        }
    }
}

/// Every entry of a comma-separated list is a non-empty text without commas that
/// neither starts nor ends with white space.
pub proof fn law_entries_are_tidy(list: Seq<char>)
    ensures
        forall|k: int|
            0 <= k < entries(list).len() ==> {
                let entry = #[trigger] entries(list)[k];
                &&& entry.len() > 0
                &&& !text::white_space(entry[0])
                &&& !text::white_space(entry.last())
                &&& !entry.contains(',')
            },
{
    let tidy = |part: Seq<char>| trimmed(part);
    let keep = |part: Seq<char>| part.len() > 0;
    let parts = comma_parts(list);
    let all = parts.map_values(tidy);
    lemma_parts_without_comma(list);
    assert forall|k: int| 0 <= k < entries(list).len() implies {
        let entry = #[trigger] entries(list)[k];
        &&& entry.len() > 0
        &&& !text::white_space(entry[0])
        &&& !text::white_space(entry.last())
        &&& !entry.contains(',')
    } by {
        let entry = entries(list)[k];
        all.lemma_filter_pred(keep, k);
        assert(entries(list).contains(entry));
        all.lemma_filter_contains_rev(keep, entry);
        let i = choose|i: int| 0 <= i < all.len() && all[i] == entry;
        assert(entry == trimmed(parts[i]));
        lemma_trimmed(parts[i]);
        lemma_trimmed_contains(parts[i], ',');
    }
}

/// Every character is white space.
pub open spec fn blank(s: Seq<char>) -> bool {
    forall|i: int| 0 <= i < s.len() ==> text::white_space(#[trigger] s[i])
}

/// Trimming takes away the white space round a text, and nothing else; of white
/// space alone nothing is left.
pub proof fn law_trim_between_spaces(l: Seq<char>, core: Seq<char>, r: Seq<char>)
    requires
        blank(l),
        blank(r),
        core.len() > 0 ==> !text::white_space(core[0]) && !text::white_space(core.last()),
    ensures
        trimmed(l + core + r) == core,
    decreases l.len() + r.len(),
{
    let s = l + core + r;
    if l.len() > 0 {
        assert(text::white_space(l[0]));
        assert(s[0] == l[0]);
        assert(s.skip(1) =~= l.skip(1) + core + r);
        assert(blank(l.skip(1)));
        law_trim_between_spaces(l.skip(1), core, r);
    } else if core.len() > 0 {
        assert(s[0] == core[0]);
        assert(trim_start(s) == s);
        if r.len() > 0 {
            assert(text::white_space(r.last()));
            assert(s.last() == r.last());
            assert(s.drop_last() =~= l + core + r.drop_last());
            assert(blank(r.drop_last()));
            law_trim_between_spaces(l, core, r.drop_last());
            assert(s.drop_last()[0] == core[0]);
        } else {
            assert(s =~= core);
        }
    } else if r.len() > 0 {
        assert(s =~= r);
        assert(text::white_space(r[0]));
        assert(r.skip(1) =~= l + core + r.skip(1));
        assert(blank(r.skip(1)));
        law_trim_between_spaces(l, core, r.skip(1));
    } else {
        assert(s =~= core);
    }
}

/// Text without commas is one part; a comma cuts the parts in front of it from
/// those behind it, and belongs to none.
pub proof fn law_parts_by_commas(a: Seq<char>, b: Seq<char>)
    ensures
        !a.contains(',') ==> comma_parts(a) == seq![a],
        comma_parts(a.push(',') + b) == comma_parts(a) + comma_parts(b),
    decreases a.len(),
{
    let s = a.push(',') + b;
    let n = before_comma(a) as int;
    lemma_before_comma(a);
    assert forall|i: int| 0 <= i < n implies #[trigger] s[i] != ',' by {
        assert(s[i] == a[i]);
    }
    lemma_before_comma_is(s, n);
    if n == a.len() {
        assert(s.take(n) == a);
        assert(s.skip(n + 1) == b);
    } else {
        assert(a.contains(a[n]));
        assert(s.take(n) == a.take(n));
        assert(s.skip(n + 1) == a.skip(n + 1).push(',') + b);
        law_parts_by_commas(a.skip(n + 1), b);
        assert(comma_parts(s) =~= comma_parts(a) + comma_parts(b));
    }
}

/// The entries in front of a comma come first, and those behind it follow.
pub proof fn law_entries_by_commas(a: Seq<char>, b: Seq<char>)
    ensures
        entries(a.push(',') + b) == entries(a) + entries(b),
{
    let tidy = |part: Seq<char>| trimmed(part);
    let keep = |part: Seq<char>| part.len() > 0;
    let front = comma_parts(a).map_values(tidy);
    let back = comma_parts(b).map_values(tidy);
    law_parts_by_commas(a, b);
    assert(comma_parts(a.push(',') + b).map_values(tidy) =~= front + back);
    Seq::filter_distributes_over_add(front, back, keep);
}

/// Between commas, a text is the one entry there without the white space round
/// it; white space alone is no entry.
pub proof fn law_entry_between_spaces(l: Seq<char>, core: Seq<char>, r: Seq<char>)
    requires
        blank(l),
        blank(r),
        !core.contains(','),
        core.len() > 0 ==> !text::white_space(core[0]) && !text::white_space(core.last()),
    ensures
        entries(l + core + r) == if core.len() > 0 {
            seq![core]
        } else {
            Seq::<Seq<char>>::empty()
        },
{
    let tidy = |part: Seq<char>| trimmed(part);
    let keep = |part: Seq<char>| part.len() > 0;
    let none = Seq::<Seq<char>>::empty();
    let s = l + core + r;
    assert forall|i: int| 0 <= i < s.len() implies s[i] != ',' by {
        if i < l.len() {
            assert(text::white_space(l[i]));
        } else if i < l.len() + core.len() {
            assert(core.contains(core[i - l.len()]));
        } else {
            assert(text::white_space(r[i - l.len() - core.len()]));
        }
    }
    law_parts_by_commas(s, seq![]);
    law_trim_between_spaces(l, core, r);
    assert(comma_parts(s).map_values(tidy) =~= none.push(core));
    none.lemma_filter_push(core, keep);
    none.lemma_filter_len(keep);
    assert(none.filter(keep) =~= none);
    assert(none.push(core) =~= seq![core]);
}

/// A text that is not all white space is one that is not, with white space round
/// it.
proof fn lemma_split_spaces(s: Seq<char>) -> (r: (Seq<char>, Seq<char>, Seq<char>))
    ensures
        s == r.0 + r.1 + r.2,
        blank(r.0),
        blank(r.2),
        r.1.len() > 0 ==> !text::white_space(r.1[0]) && !text::white_space(r.1.last()),
    decreases s.len(),
{
    let none = Seq::<char>::empty();
    if s.len() == 0 {
        assert(s =~= none + none + none);
        (none, none, none)
    } else if text::white_space(s[0]) {
        let (l, core, r) = lemma_split_spaces(s.skip(1));
        let front = seq![s[0]] + l;
        assert forall|i: int| 0 <= i < front.len() implies text::white_space(#[trigger] front[i]) by {
            if i > 0 {
                assert(text::white_space(l[i - 1]));
            }
        }
        assert(s =~= seq![s[0]] + s.skip(1));
        assert(s =~= front + core + r);
        (front, core, r)
    } else if text::white_space(s.last()) {
        let (l, core, r) = lemma_split_spaces(s.drop_last());
        let back = r.push(s.last());
        assert forall|i: int| 0 <= i < back.len() implies text::white_space(#[trigger] back[i]) by {
            if i < r.len() {
                assert(text::white_space(r[i]));
            }
        }
        assert(s =~= s.drop_last().push(s.last()));
        assert(s =~= l + core + back);
        (l, core, back)
    } else {
        assert(s =~= none + s + none);
        (none, s, none)
    }
}

/// A list has an entry exactly where it has a character that is neither a comma
/// nor white space.
pub proof fn law_has_entries(list: Seq<char>)
    ensures
        entries(list).len() > 0 <==> exists|i: int|
            0 <= i < list.len() && #[trigger] list[i] != ',' && !text::white_space(list[i]),
    decreases list.len(),
{
    let n = before_comma(list) as int;
    lemma_before_comma(list);
    let part = list.take(n);
    let (l, core, r) = lemma_split_spaces(part);
    assert(part.len() == l.len() + core.len() + r.len());
    assert forall|i: int| 0 <= i < core.len() implies core[i] != ',' by {
        let at = l.len() + i;
        assert((l + core + r)[at] == core[i]);
        assert(part[at] == list[at]);
    }
    law_entry_between_spaces(l, core, r);
    if core.len() > 0 {
        let i = l.len() as int;
        assert(part[i] == core[0]);
        assert(list[i] == part[i]);
        assert(list[i] != ',' && !text::white_space(list[i]));
    } else {
        assert forall|i: int| 0 <= i < n implies text::white_space(#[trigger] list[i]) by {
            assert(list[i] == part[i]);
            if i < l.len() {
                assert(text::white_space(l[i]));
            } else {
                assert(text::white_space(r[i - l.len()]));
            }
        }
    }
    if n < list.len() {
        let rest = list.skip(n + 1);
        law_has_entries(rest);
        law_entries_by_commas(part, rest);
        assert(list =~= part.push(',') + rest);
        if exists|i: int| 0 <= i < rest.len() && #[trigger] rest[i] != ',' && !text::white_space(
            rest[i],
        ) {
            let i = choose|i: int|
                0 <= i < rest.len() && #[trigger] rest[i] != ',' && !text::white_space(rest[i]);
            assert(list[n + 1 + i] == rest[i]);
        }
        if exists|i: int| 0 <= i < list.len() && #[trigger] list[i] != ',' && !text::white_space(
            list[i],
        ) {
            let i = choose|i: int|
                0 <= i < list.len() && #[trigger] list[i] != ',' && !text::white_space(list[i]);
            if i > n {
                assert(rest[i - n - 1] == list[i]);
            }
        }
    } else {
        assert(part =~= list);
    }
}

} // verus!

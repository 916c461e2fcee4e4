//! Text as sequences of characters: the splitting, trimming, joining and
//! number formatting that the other modules are written in terms of.
use vstd::prelude::*;
#[allow(unused_imports)]
use vstd::utf8::{encode_utf8, valid_utf8};

verus! {

/// Whether a character has the Unicode `White_Space` property.
pub open spec fn white_space(c: char) -> bool {
    let n = c as u32;
    ||| 0x9 <= n <= 0xd
    ||| n == 0x20
    ||| n == 0x85
    ||| n == 0xa0
    ||| n == 0x1680
    ||| 0x2000 <= n <= 0x200a
    ||| n == 0x2028
    ||| n == 0x2029
    ||| n == 0x202f
    ||| n == 0x205f
    ||| n == 0x3000
}

/// Tests whether a character separates words.
pub fn is_white_space(c: char) -> (r: bool)
    ensures
        r == white_space(c),
{
    let n: u32 = c as u32;
    (0x9 <= n && n <= 0xd) || n == 0x20 || n == 0x85 || n == 0xa0 || n == 0x1680
        || (0x2000 <= n && n <= 0x200a) || n == 0x2028 || n == 0x2029 || n == 0x202f
        || n == 0x205f || n == 0x3000
}

/// The number of characters before the first white space of `s`.
pub open spec fn word_len(s: Seq<char>) -> nat
    decreases s.len(),
{
    if s.len() == 0 || white_space(s[0]) {
        0
    } else {
        1 + word_len(s.skip(1))
    }
}

/// The maximal runs of characters of `s` that are not white space, in order.
pub open spec fn words(s: Seq<char>) -> Seq<Seq<char>>
    decreases s.len(),
{
    if s.len() == 0 {
        Seq::empty()
    } else if white_space(s[0]) {
        words(s.skip(1))
    } else {
        let n = word_len(s) as int;
        if 0 < n <= s.len() {
            seq![s.take(n)] + words(s.skip(n))
        } else {
            Seq::empty()
        }
    }
}

/// The characters of a string, in order.
pub fn chars_of(text: &str) -> (r: Vec<char>)
    ensures
        r@ == text@,
{
    let mut out: Vec<char> = Vec::new();
    for c in it: text.chars()
        invariant
            out@ == it.seq().take(it.index()),
            it.seq() == text@,
    {
        out.push(c);
    }
    out
}

/// The views of a sequence of strings.
pub open spec fn texts(v: Seq<String>) -> Seq<Seq<char>> {
    v.map_values(|s: String| s@)
}

/// `String::push`: appends one character.
pub assume_specification[ String::push ](text: &mut String, c: char)
    ensures
        final(text)@ == old(text)@.push(c),
;

/// The characters of `chars` from `from` up to `to` as a string.
pub fn string_of(chars: &Vec<char>, from: usize, to: usize) -> (r: String)
    requires
        from <= to <= chars@.len(),
    ensures
        r@ == chars@.subrange(from as int, to as int),
{
    let mut out: String = String::new();
    let mut i: usize = from;
    while i < to
        invariant
            from <= i <= to <= chars@.len(),
            out@ == chars@.subrange(from as int, i as int),
        decreases to - i,
    {
        out.push(chars[i]);
        i += 1;
        assert(chars@.subrange(from as int, i as int) =~= chars@.subrange(
            from as int,
            i - 1,
        ).push(chars@[i - 1]));
    }
    out
}

/// Tests two strings for equality, character by character.
pub fn same_text(a: &str, b: &str) -> (r: bool)
    ensures
        r == (a@ == b@),
{
    let x = chars_of(a);
    let y = chars_of(b);
    same_chars(&x, &y)
}

/// Tests two sequences of characters for equality.
pub fn same_chars(x: &Vec<char>, y: &Vec<char>) -> (r: bool)
    ensures
        r == (x@ == y@),
{
    if x.len() != y.len() {
        return false;
    }
    let mut i: usize = 0;
    while i < x.len()
        invariant
            i <= x@.len(),
            x@.len() == y@.len(),
            forall|k: int| 0 <= k < i ==> x@[k] == y@[k],
        decreases x@.len() - i,
    {
        if x[i] != y[i] {
            return false;
        }
        i += 1;
    }
    assert(x@ =~= y@);
    true
}

/// The first `n` characters of a string, or all of it.
pub open spec fn prefix_of_len(s: Seq<char>, n: nat) -> Seq<char> {
    if s.len() <= n {
        s
    } else {
        s.take(n as int)
    }
}

/// The first `n` characters of a string, or all of it.
pub fn take_chars(text: &str, n: usize) -> (r: String)
    ensures
        r@ == prefix_of_len(text@, n as nat),
{
    let chars = chars_of(text);
    let end: usize = if chars.len() <= n {
        chars.len()
    } else {
        n
    };
    assert(chars@.subrange(0, chars@.len() as int) =~= chars@);
    string_of(&chars, 0, end)
}

/// How far the run of characters that are not white space reaches.
fn word_end(chars: &Vec<char>, start: usize) -> (end: usize)
    requires
        start <= chars@.len(),
    ensures
        start <= end <= chars@.len(),
        end - start == word_len(chars@.skip(start as int)),
{
    let mut end: usize = start;
    while end < chars.len() && !is_white_space(chars[end])
        invariant
            start <= end <= chars@.len(),
            word_len(chars@.skip(start as int)) == end - start + word_len(chars@.skip(end as int)),
        decreases chars@.len() - end,
    {
        assert(chars@.skip(end as int).skip(1) =~= chars@.skip(end + 1));
        end += 1;
    }
    end
}

/// The words of a string: what lies between its white space.
pub fn split_words(text: &str) -> (r: Vec<String>)
    ensures
        texts(r@) == words(text@),
{
    let chars = chars_of(text);
    let mut out: Vec<String> = Vec::new();
    let mut i: usize = 0;
    assert(chars@.skip(0) =~= chars@);
    assert(texts(out@) =~= Seq::empty());
    while i < chars.len()
        invariant
            i <= chars@.len(),
            chars@ == text@,
            words(text@) == texts(out@) + words(chars@.skip(i as int)),
        decreases chars@.len() - i,
    {
        let ghost rest = chars@.skip(i as int);
        assert(rest[0] == chars@[i as int]);
        if is_white_space(chars[i]) {
            assert(rest.skip(1) =~= chars@.skip(i + 1));
            i += 1;
        } else {
            let end = word_end(&chars, i);
            let ghost n = word_len(rest) as int;
            assert(n > 0);
            let word = string_of(&chars, i, end);
            assert(rest.take(n) =~= chars@.subrange(i as int, end as int));
            assert(rest.skip(n) =~= chars@.skip(end as int));
            let ghost before = texts(out@);
            out.push(word);
            assert(texts(out@) =~= before.push(word@));
            assert(words(rest) == seq![word@] + words(chars@.skip(end as int)));
            assert(before + (seq![word@] + words(chars@.skip(end as int))) =~= texts(out@) + words(
                chars@.skip(end as int),
            ));
            i = end;
        }
    }
    assert(words(chars@.skip(i as int)) =~= Seq::empty());
    assert(texts(out@) + Seq::<Seq<char>>::empty() =~= texts(out@));
    out
}

/// How many words a string has.
pub fn count_words(text: &str) -> (n: usize)
    ensures
        n == words(text@).len(),
        n <= text@.len(),
{
    let parts = split_words(text);
    proof {
        lemma_words_bound(text@);
        assert(texts(parts@).len() == parts@.len());
    }
    parts.len()
}

/// A string has no more words than characters.
pub proof fn lemma_words_bound(s: Seq<char>)
    ensures
        words(s).len() <= s.len(),
    decreases s.len(),
{
    if s.len() > 0 {
        if white_space(s[0]) {
            lemma_words_bound(s.skip(1));
        } else {
            let n = word_len(s) as int;
            if 0 < n <= s.len() {
                lemma_words_bound(s.skip(n));
            }
        }
    }
}

/// The parts one after the other, with `sep` between neighbours.
pub open spec fn joined(parts: Seq<Seq<char>>, sep: Seq<char>) -> Seq<char>
    decreases parts.len(),
{
    if parts.len() == 0 {
        Seq::empty()
    } else if parts.len() == 1 {
        parts[0]
    } else {
        joined(parts.drop_last(), sep) + sep + parts.last()
    }
}

/// Joins strings with a separator between neighbours.
pub fn join(parts: &Vec<String>, sep: &str) -> (r: String)
    ensures
        r@ == joined(texts(parts@), sep@),
{
    let mut out: String = String::new();
    let mut i: usize = 0;
    let ghost all = texts(parts@);
    while i < parts.len()
        invariant
            i <= parts@.len(),
            all == texts(parts@),
            out@ == joined(all.take(i as int), sep@),
        decreases parts@.len() - i,
    {
        assert(all.take(i + 1).drop_last() =~= all.take(i as int));
        assert(all.take(i + 1).last() == parts@[i as int]@);
        if i > 0 {
            out.append(sep);
        }
        out.append(parts[i].as_str());
        assert(i == 0 ==> Seq::<char>::empty() + parts@[0]@ =~= parts@[0]@);
        i += 1;
    }
    assert(all.take(i as int) =~= all);
    out
}

/// Whether a text is one word: not empty, and without white space.
pub open spec fn is_word(s: Seq<char>) -> bool {
    s.len() > 0 && forall|i: int| 0 <= i < s.len() ==> !white_space(#[trigger] s[i])
}

/// The characters before the first white space are no white space, and the one
/// behind them is.
pub proof fn lemma_word_len(s: Seq<char>)
    ensures
        word_len(s) <= s.len(),
        forall|i: int| 0 <= i < word_len(s) ==> !white_space(#[trigger] s[i]),
        word_len(s) < s.len() ==> white_space(s[word_len(s) as int]),
    decreases s.len(),
{
    if s.len() > 0 && !white_space(s[0]) {
        lemma_word_len(s.skip(1));
        assert forall|i: int| 0 <= i < word_len(s) implies !white_space(#[trigger] s[i]) by {
            if i > 0 {
                assert(s[i] == s.skip(1)[i - 1]);
            }
        }
        if word_len(s) < s.len() {
            assert(s[word_len(s) as int] == s.skip(1)[word_len(s) - 1]);
        }
    }
}

/// The words of a text are words.
pub proof fn lemma_words_are_words(s: Seq<char>)
    ensures
        forall|i: int| 0 <= i < words(s).len() ==> is_word(#[trigger] words(s)[i]),
    decreases s.len(),
{
    if s.len() > 0 {
        if white_space(s[0]) {
            lemma_words_are_words(s.skip(1));
            assert(words(s) == words(s.skip(1)));
        } else {
            let n = word_len(s) as int;
            lemma_word_len(s);
            assert(words(s) == seq![s.take(n)] + words(s.skip(n)));
            let rest = words(s.skip(n));
            lemma_words_are_words(s.skip(n));
            assert forall|i: int| 0 <= i < words(s).len() implies is_word(
                #[trigger] words(s)[i],
            ) by {
                if i == 0 {
                    let word = s.take(n);
                    assert forall|k: int| 0 <= k < word.len() implies !white_space(
                        #[trigger] word[k],
                    ) by {
                        assert(word[k] == s[k]);
                    }
                } else {
                    assert(words(s)[i] == rest[i - 1]);
                }
            }
        }
    }
}

/// A word that white space follows is as long as it is.
proof fn lemma_word_len_of(word: Seq<char>, rest: Seq<char>)
    requires
        forall|i: int| 0 <= i < word.len() ==> !white_space(#[trigger] word[i]),
        rest.len() == 0 || white_space(rest[0]),
    ensures
        word_len(word + rest) == word.len(),
    decreases word.len(),
{
    let s = word + rest;
    if word.len() == 0 {
        assert(s =~= rest);
    } else {
        let fewer = word.skip(1);
        assert(s.skip(1) =~= fewer + rest);
        assert(s[0] == word[0]);
        assert forall|i: int| 0 <= i < fewer.len() implies !white_space(#[trigger] fewer[i]) by {
            assert(fewer[i] == word[i + 1]);
        }
        lemma_word_len_of(fewer, rest);
    }
}

/// A joined text begins with its first part.
pub proof fn lemma_joined_front(parts: Seq<Seq<char>>, sep: Seq<char>)
    requires
        parts.len() >= 2,
    ensures
        joined(parts, sep) == parts[0] + sep + joined(parts.skip(1), sep),
    decreases parts.len(),
{
    if parts.len() == 2 {
        assert(parts.drop_last() =~= seq![parts[0]]);
        assert(parts.skip(1) =~= seq![parts[1]]);
        assert(joined(parts.drop_last(), sep) == parts[0]);
        assert(joined(parts.skip(1), sep) == parts[1]);
    } else {
        lemma_joined_front(parts.drop_last(), sep);
        assert(parts.drop_last().skip(1) =~= parts.skip(1).drop_last());
        assert(parts.skip(1).last() == parts.last());
        assert(joined(parts, sep) =~= parts[0] + sep + joined(parts.skip(1), sep));
    }
}

/// Words that are joined with spaces are the words of the text.
pub proof fn lemma_words_of_joined(parts: Seq<Seq<char>>)
    requires
        forall|i: int| 0 <= i < parts.len() ==> is_word(#[trigger] parts[i]),
    ensures
        words(joined(parts, " "@)) == parts,
    decreases parts.len(),
{
    reveal_strlit(" ");
    let s = joined(parts, " "@);
    if parts.len() == 0 {
        assert(words(s) =~= parts);
    } else {
        let word = parts[0];
        assert(is_word(word));
        let later = parts.skip(1);
        assert forall|i: int| 0 <= i < later.len() implies is_word(#[trigger] later[i]) by {
            assert(later[i] == parts[i + 1]);
        }
        lemma_words_of_joined(later);
        let rest = if parts.len() == 1 {
            Seq::<char>::empty()
        } else {
            " "@ + joined(later, " "@)
        };
        if parts.len() == 1 {
            assert(s =~= word + rest);
            assert(words(rest) =~= later);
        } else {
            lemma_joined_front(parts, " "@);
            assert(s =~= word + rest);
            assert(rest.skip(1) =~= joined(later, " "@));
            assert(words(rest) == words(rest.skip(1)));
        }
        lemma_word_len_of(word, rest);
        assert(s[0] == word[0]);
        assert(s.take(word.len() as int) =~= word);
        assert(s.skip(word.len() as int) =~= rest);
        assert(words(s) =~= parts);
    }
}

/// The part of `s` before its first `sep`, or all of it.
pub open spec fn piece_len(s: Seq<char>, sep: char) -> nat
    decreases s.len(),
{
    if s.len() == 0 || s[0] == sep {
        0
    } else {
        1 + piece_len(s.skip(1), sep)
    }
}

/// The pieces of `s` between its occurrences of `sep`; one more than those.
pub open spec fn split_on(s: Seq<char>, sep: char) -> Seq<Seq<char>>
    decreases s.len(),
{
    let n = piece_len(s, sep) as int;
    if 0 <= n < s.len() {
        seq![s.take(n)] + split_on(s.skip(n + 1), sep)
    } else {
        seq![s]
    }
}

/// The index of the first `sep` at or after `start`, or the end.
fn piece_end(chars: &Vec<char>, start: usize, sep: char) -> (end: usize)
    requires
        start <= chars@.len(),
    ensures
        start <= end <= chars@.len(),
        end - start == piece_len(chars@.skip(start as int), sep),
        end < chars@.len() ==> chars@[end as int] == sep,
{
    let mut end: usize = start;
    while end < chars.len() && chars[end] != sep
        invariant
            start <= end <= chars@.len(),
            piece_len(chars@.skip(start as int), sep) == end - start + piece_len(
                chars@.skip(end as int),
                sep,
            ),
        decreases chars@.len() - end,
    {
        assert(chars@.skip(end as int).skip(1) =~= chars@.skip(end + 1));
        end += 1;
    }
    end
}

/// Splits a string at every occurrence of a character.
pub fn split_char(text: &str, sep: char) -> (r: Vec<String>)
    ensures
        texts(r@) == split_on(text@, sep),
{
    let chars = chars_of(text);
    let mut out: Vec<String> = Vec::new();
    let mut i: usize = 0;
    assert(chars@.skip(0) =~= chars@);
    assert(texts(out@) =~= Seq::empty());
    assert(Seq::<Seq<char>>::empty() + split_on(chars@.skip(0), sep) =~= split_on(text@, sep));
    loop
        invariant
            i <= chars@.len(),
            chars@ == text@,
            split_on(text@, sep) == texts(out@) + split_on(chars@.skip(i as int), sep),
        decreases chars@.len() - i,
    {
        let ghost rest = chars@.skip(i as int);
        let end = piece_end(&chars, i, sep);
        let piece = string_of(&chars, i, end);
        let ghost before = texts(out@);
        out.push(piece);
        assert(texts(out@) =~= before.push(piece@));
        if end < chars.len() {
            assert(rest.take(end - i) =~= piece@);
            assert(rest.skip(end - i + 1) =~= chars@.skip(end + 1));
            assert(before + (seq![piece@] + split_on(chars@.skip(end + 1), sep)) =~= texts(out@)
                + split_on(chars@.skip(end + 1), sep));
            i = end + 1;
        } else {
            assert(rest =~= piece@);
            assert(before + seq![piece@] =~= texts(out@));
            return out;
        }
    }
}

/// `s` without the white space at its start.
pub open spec fn trim_start(s: Seq<char>) -> Seq<char>
    decreases s.len(),
{
    if s.len() > 0 && white_space(s[0]) {
        trim_start(s.skip(1))
    } else {
        s
    }
}

/// `s` without the white space at its end.
pub open spec fn trim_end(s: Seq<char>) -> Seq<char>
    decreases s.len(),
{
    if s.len() > 0 && white_space(s.last()) {
        trim_end(s.drop_last())
    } else {
        s
    }
}

/// `s` without the white space at either end.
pub open spec fn trimmed(s: Seq<char>) -> Seq<char> {
    trim_end(trim_start(s))
}

/// Removes the white space at both ends of a string.
pub fn trim(text: &str) -> (r: String)
    ensures
        r@ == trimmed(text@),
{
    let chars = chars_of(text);
    let mut from: usize = 0;
    assert(chars@.skip(0) =~= chars@);
    while from < chars.len() && is_white_space(chars[from])
        invariant
            from <= chars@.len(),
            trim_start(chars@) == trim_start(chars@.skip(from as int)),
        decreases chars@.len() - from,
    {
        assert(chars@.skip(from as int).skip(1) =~= chars@.skip(from + 1));
        from += 1;
    }
    assert(trim_start(chars@) == chars@.skip(from as int));
    let mut to: usize = chars.len();
    assert(chars@.subrange(from as int, to as int) =~= chars@.skip(from as int));
    while from < to && is_white_space(chars[to - 1])
        invariant
            from <= to <= chars@.len(),
            trim_end(chars@.skip(from as int)) == trim_end(chars@.subrange(from as int, to as int)),
        decreases to,
    {
        assert(chars@.subrange(from as int, to as int).drop_last() =~= chars@.subrange(
            from as int,
            to - 1,
        ));
        to -= 1;
    }
    string_of(&chars, from, to)
}

/// `s` without the occurrences of `c` at its end.
pub open spec fn without_trailing(s: Seq<char>, c: char) -> Seq<char>
    decreases s.len(),
{
    if s.len() > 0 && s.last() == c {
        without_trailing(s.drop_last(), c)
    } else {
        s
    }
}

/// Removes every occurrence of a character at the end of a string.
pub fn trim_end_char(text: &str, c: char) -> (r: String)
    ensures
        r@ == without_trailing(text@, c),
{
    let chars = chars_of(text);
    let mut to: usize = chars.len();
    assert(chars@.subrange(0, to as int) =~= chars@);
    while 0 < to && chars[to - 1] == c
        invariant
            to <= chars@.len(),
            without_trailing(chars@, c) == without_trailing(chars@.subrange(0, to as int), c),
        decreases to,
    {
        assert(chars@.subrange(0, to as int).drop_last() =~= chars@.subrange(0, to - 1));
        to -= 1;
    }
    string_of(&chars, 0, to)
}

/// Whether `pattern` stands in `s` at index `at`.
pub open spec fn occurs_at(s: Seq<char>, pattern: Seq<char>, at: int) -> bool {
    0 <= at && at + pattern.len() <= s.len() && s.subrange(at, at + pattern.len()) == pattern
}

/// Tests whether a pattern stands at an index.
fn matches_at(chars: &Vec<char>, pattern: &Vec<char>, at: usize) -> (r: bool)
    requires
        at <= chars@.len(),
    ensures
        r == occurs_at(chars@, pattern@, at as int),
{
    if pattern.len() > chars.len() - at {
        return false;
    }
    let mut i: usize = 0;
    while i < pattern.len()
        invariant
            i <= pattern@.len(),
            at + pattern@.len() <= chars@.len() <= usize::MAX,
            forall|k: int| 0 <= k < i ==> chars@[at + k] == #[trigger] pattern@[k],
        decreases pattern@.len() - i,
    {
        if chars[at + i] != pattern[i] {
            assert(chars@.subrange(at as int, at + pattern@.len())[i as int] != pattern@[i as int]);
            return false;
        }
        i += 1;
    }
    assert(chars@.subrange(at as int, at + pattern@.len()) =~= pattern@);
    true
}

/// Tests whether a string begins with a prefix.
pub fn starts_with(text: &str, prefix: &str) -> (r: bool)
    ensures
        r == prefix@.is_prefix_of(text@),
{
    let chars = chars_of(text);
    let head = chars_of(prefix);
    let found = matches_at(&chars, &head, 0);
    proof {
        if prefix@.is_prefix_of(text@) {
            assert(text@.subrange(0, prefix@.len() as int) =~= prefix@);
        }
    }
    found
}

/// What follows `prefix` in `s`, if `s` begins with it.
pub open spec fn stripped(s: Seq<char>, prefix: Seq<char>) -> Option<Seq<char>> {
    if prefix.is_prefix_of(s) {
        Some(s.skip(prefix.len() as int))
    } else {
        None
    }
}

/// What follows a prefix in a string, if the string begins with it.
pub fn strip_prefix(text: &str, prefix: &str) -> (r: Option<String>)
    ensures
        match r {
            Some(rest) => stripped(text@, prefix@) == Some(rest@),
            None => stripped(text@, prefix@) is None,
        },
{
    if starts_with(text, prefix) {
        let chars = chars_of(text);
        let from: usize = prefix.unicode_len();
        let rest = string_of(&chars, from, chars.len());
        assert(text@.skip(prefix@.len() as int) =~= rest@);
        Some(rest)
    } else {
        None
    }
}

/// The index of the first occurrence of `pattern` in `s`.
pub open spec fn first_at(s: Seq<char>, pattern: Seq<char>) -> Option<int>
    decreases s.len(),
{
    if occurs_at(s, pattern, 0) {
        Some(0int)
    } else if s.len() == 0 {
        None
    } else {
        match first_at(s.skip(1), pattern) {
            Some(i) => Some(i + 1),
            None => None,
        }
    }
}

/// An index that `first_at` gives is one, and no smaller index is.
pub proof fn lemma_first_at(s: Seq<char>, pattern: Seq<char>)
    ensures
        match first_at(s, pattern) {
            Some(i) => occurs_at(s, pattern, i) && forall|k: int|
                0 <= k < i ==> !#[trigger] occurs_at(s, pattern, k),
            None => forall|k: int| !#[trigger] occurs_at(s, pattern, k),
        },
    decreases s.len(),
{
    if !occurs_at(s, pattern, 0) && s.len() > 0 {
        lemma_first_at(s.skip(1), pattern);
        assert forall|k: int| 1 <= k && k + pattern.len() <= s.len() implies s.subrange(
            k,
            k + pattern.len(),
        ) == #[trigger] s.skip(1).subrange(k - 1, k - 1 + pattern.len()) by {
            assert(s.subrange(k, k + pattern.len()) =~= s.skip(1).subrange(
                k - 1,
                k - 1 + pattern.len(),
            ));
        }
        assert forall|k: int| 1 <= k implies #[trigger] occurs_at(s, pattern, k) == occurs_at(
            s.skip(1),
            pattern,
            k - 1,
        ) by {
            if k + pattern.len() <= s.len() {
                assert(s.subrange(k, k + pattern.len()) == s.skip(1).subrange(
                    k - 1,
                    k - 1 + pattern.len(),
                ));
            }
        }
    }
}

/// `first_at` gives an index that is one and has no smaller one before it.
pub proof fn lemma_first_at_unique(s: Seq<char>, pattern: Seq<char>, i: int)
    requires
        occurs_at(s, pattern, i),
        forall|k: int| 0 <= k < i ==> !#[trigger] occurs_at(s, pattern, k),
    ensures
        first_at(s, pattern) == Some(i),
{
    lemma_first_at(s, pattern);
}

/// The index of the first occurrence of a pattern.
pub fn find(chars: &Vec<char>, pattern: &Vec<char>, start: usize) -> (r: Option<usize>)
    requires
        start <= chars@.len(),
    ensures
        match r {
            Some(i) => start <= i <= chars@.len() && first_at(chars@.skip(start as int), pattern@)
                == Some(i - start),
            None => first_at(chars@.skip(start as int), pattern@) is None,
        },
{
    let mut i: usize = start;
    let ghost tail = chars@.skip(start as int);
    loop
        invariant
            start <= i <= chars@.len(),
            tail == chars@.skip(start as int),
            first_at(tail, pattern@) == (match first_at(chars@.skip(i as int), pattern@) {
                Some(k) => Some(k + i - start),
                None => None::<int>,
            }),
        decreases chars@.len() - i,
    {
        let ghost rest = chars@.skip(i as int);
        let here = matches_at(chars, pattern, i);
        assert(occurs_at(rest, pattern@, 0) == here) by {
            if i + pattern@.len() <= chars@.len() {
                assert(rest.subrange(0, pattern@.len() as int) =~= chars@.subrange(
                    i as int,
                    i + pattern@.len(),
                ));
            }
        }
        if here {
            return Some(i);
        }
        if i == chars.len() {
            return None;
        }
        assert(rest.skip(1) =~= chars@.skip(i + 1));
        i += 1;
    }
}

/// Tests whether a string holds a pattern anywhere.
pub fn contains(text: &str, pattern: &str) -> (r: bool)
    ensures
        r == (first_at(text@, pattern@) is Some),
{
    let chars = chars_of(text);
    let wanted = chars_of(pattern);
    assert(chars@.skip(0) =~= chars@);
    find(&chars, &wanted, 0).is_some()
}

/// The decimal digit of a number below ten.
pub open spec fn digit(n: nat) -> char {
    ((n % 10) + 48) as char
}

/// A number in decimal, without leading zeros.
pub open spec fn decimal(n: nat) -> Seq<char>
    decreases n,
{
    if n < 10 {
        seq![digit(n)]
    } else {
        decimal(n / 10).push(digit(n % 10))
    }
}

/// The character of one decimal digit.
fn digit_char(d: u8) -> (c: char)
    requires
        d < 10,
    ensures
        c == digit(d as nat),
{
    (d + 48) as char
}

/// A number in decimal.
pub fn decimal_text(n: u128) -> (r: String)
    ensures
        r@ == decimal(n as nat),
    decreases n,
{
    if n < 10 {
        let mut out: String = String::new();
        out.push(digit_char(n as u8));
        assert(out@ =~= seq![digit(n as nat)]);
        out
    } else {
        let mut out = decimal_text(n / 10);
        out.push(digit_char((n % 10) as u8));
        out
    }
}

/// Appends a number in decimal.
pub fn append_decimal(text: &mut String, n: usize)
    ensures
        final(text)@ == old(text)@ + decimal(n as nat),
{
    let digits = decimal_text(n as u128);
    text.append(digits.as_str());
}

/// Appends a 64-bit number in decimal.
pub fn append_number(text: &mut String, n: u64)
    ensures
        final(text)@ == old(text)@ + decimal(n as nat),
{
    let digits = decimal_text(n as u128);
    text.append(digits.as_str());
}

/// Whether a character is an ASCII digit.
pub open spec fn is_digit(c: char) -> bool {
    48 <= c as u32 <= 57
}

/// The number that a run of ASCII digits stands for.
pub open spec fn digits_value(s: Seq<char>) -> nat
    decreases s.len(),
{
    if s.len() == 0 {
        0
    } else {
        digits_value(s.drop_last()) * 10 + (s.last() as u32 - 48) as nat
    }
}

/// `s` without one leading plus sign.
pub open spec fn without_plus(s: Seq<char>) -> Seq<char> {
    if s.len() > 0 && s[0] == '+' {
        s.skip(1)
    } else {
        s
    }
}

/// The number a string stands for: one or more ASCII digits after an
/// optional plus sign.
pub open spec fn unsigned_value(s: Seq<char>) -> Option<nat> {
    let d = without_plus(s);
    if d.len() > 0 && forall|i: int| 0 <= i < d.len() ==> is_digit(#[trigger] d[i]) {
        Some(digits_value(d))
    } else {
        None
    }
}

/// More digits never make a smaller number.
proof fn lemma_digits_value_grows(s: Seq<char>, i: int)
    requires
        0 <= i <= s.len(),
        forall|k: int| 0 <= k < s.len() ==> is_digit(#[trigger] s[k]),
    ensures
        digits_value(s.take(i)) <= digits_value(s),
    decreases s.len() - i,
{
    if i == s.len() {
        assert(s.take(i) =~= s);
    } else {
        lemma_digits_value_grows(s, i + 1);
        assert(s.take(i + 1).drop_last() =~= s.take(i));
    }
}

/// The number a string stands for, if it fits 64 bits.
pub fn parse_u64(text: &str) -> (r: Option<u64>)
    ensures
        match r {
            Some(n) => unsigned_value(text@) == Some(n as nat),
            None => match unsigned_value(text@) {
                Some(n) => n > u64::MAX,
                None => true,
            },
        },
{
    let chars = chars_of(text);
    let start: usize = if chars.len() > 0 && chars[0] == '+' {
        1
    } else {
        0
    };
    let ghost d = without_plus(text@);
    assert(d =~= chars@.skip(start as int));
    if start == chars.len() {
        return None;
    }
    let mut value: u64 = 0;
    let mut i: usize = start;
    while i < chars.len()
        invariant
            start <= i <= chars@.len(),
            chars@ == text@,
            d == without_plus(text@),
            d == chars@.skip(start as int),
            value == digits_value(d.take(i - start)),
            forall|k: int| 0 <= k < i - start ==> is_digit(#[trigger] d[k]),
        decreases chars@.len() - i,
    {
        let c = chars[i];
        let n: u32 = c as u32;
        assert(d[i - start] == c);
        if n < 48 || n > 57 {
            return None;
        }
        assert(d.take(i - start + 1).drop_last() =~= d.take(i - start));
        proof {
            if unsigned_value(text@) is Some {
                lemma_digits_value_grows(d, i - start + 1);
            }
        }
        let grown = match value.checked_mul(10) {
            Some(v) => v,
            None => return None,
        };
        value = match grown.checked_add((n - 48) as u64) {
            Some(v) => v,
            None => return None,
        };
        i += 1;
    }
    assert(d.take(i - start) =~= d);
    Some(value)
}

/// The lower-case hexadecimal digit of a number below sixteen.
pub open spec fn hex_digit(n: nat) -> char {
    if n < 10 {
        (n + 48) as char
    } else {
        (n + 87) as char
    }
}

/// Bytes in lower-case hexadecimal, two digits each.
pub open spec fn lower_hex(bytes: Seq<u8>) -> Seq<char>
    decreases bytes.len(),
{
    if bytes.len() == 0 {
        Seq::empty()
    } else {
        lower_hex(bytes.drop_last()).push(hex_digit((bytes.last() / 16) as nat)).push(
            hex_digit((bytes.last() % 16) as nat),
        )
    }
}

/// The character of one hexadecimal digit.
fn hex_char(n: u8) -> (c: char)
    requires
        n < 16,
    ensures
        c == hex_digit(n as nat),
{
    if n < 10 {
        (n + 48) as char
    } else {
        (n + 87) as char
    }
}

/// Bytes in lower-case hexadecimal.
pub fn hex_text(bytes: &Vec<u8>) -> (r: String)
    ensures
        r@ == lower_hex(bytes@),
{
    let mut out: String = String::new();
    let mut i: usize = 0;
    while i < bytes.len()
        invariant
            i <= bytes@.len(),
            out@ == lower_hex(bytes@.take(i as int)),
        decreases bytes@.len() - i,
    {
        assert(bytes@.take(i + 1).drop_last() =~= bytes@.take(i as int));
        out.push(hex_char(bytes[i] / 16));
        out.push(hex_char(bytes[i] % 16));
        i += 1;
    }
    assert(bytes@.take(i as int) =~= bytes@);
    out
}

/// What bytes read as, with each fault in them replaced by U+FFFD.
pub uninterp spec fn lossy_text(bytes: Seq<u8>) -> Seq<char>;

/// `String::from_utf8_lossy`: the text that the bytes encode where they are
/// valid UTF-8; else what is put for the faults depends on the bytes alone.
#[verifier::external_body]
pub(crate) fn decode_lossy(bytes: &[u8]) -> (text: String)
    ensures
        text@ == lossy_text(bytes@),
        valid_utf8(bytes@) ==> encode_utf8(text@) == bytes@,
{
    String::from_utf8_lossy(bytes).into_owned()
}

/// `String::from_utf8`: the text that the bytes encode, which there is if and
/// only if they are valid UTF-8.
#[verifier::external_body]
pub(crate) fn decode_strict(bytes: Vec<u8>) -> (text: Option<String>)
    ensures
        text is Some <==> valid_utf8(bytes@),
        text matches Some(text) ==> encode_utf8(text@) == bytes@,
{
    String::from_utf8(bytes).ok()
}

/// White space is the 25 characters that Unicode says it is.
pub proof fn law_white_space_is_unicodes(c: char)
    ensures
        white_space(c) <==> {
            ||| c == '\t' || c == '\n' || c == '\u{b}' || c == '\u{c}' || c == '\r' || c == ' '
            ||| c == '\u{85}' || c == '\u{a0}' || c == '\u{1680}'
            ||| c == '\u{2000}' || c == '\u{2001}' || c == '\u{2002}' || c == '\u{2003}'
            ||| c == '\u{2004}' || c == '\u{2005}' || c == '\u{2006}' || c == '\u{2007}'
            ||| c == '\u{2008}' || c == '\u{2009}' || c == '\u{200a}'
            ||| c == '\u{2028}' || c == '\u{2029}' || c == '\u{202f}' || c == '\u{205f}'
            ||| c == '\u{3000}'
        },
{
}

/// A text without white space is one word, or none where it is empty.
pub proof fn law_words_stay_whole(s: Seq<char>)
    requires
        forall|i: int| 0 <= i < s.len() ==> !white_space(#[trigger] s[i]),
    ensures
        s.len() > 0 ==> words(s) == seq![s],
        s.len() == 0 ==> words(s) == Seq::<Seq<char>>::empty(),
{
    if s.len() > 0 {
        let none = Seq::<char>::empty();
        lemma_word_len_of(s, none);
        assert(s + none =~= s);
        assert(s.take(s.len() as int) =~= s);
        assert(s.skip(s.len() as int) =~= none);
        assert(words(none) =~= Seq::<Seq<char>>::empty());
        assert(words(s) =~= seq![s]);
    }
}

/// White space parts words: the words of a text are those before any white
/// space in it and then those behind it, and nothing else.
pub proof fn law_white_space_parts_words(a: Seq<char>, c: char, b: Seq<char>)
    requires
        white_space(c),
    ensures
        words(a.push(c) + b) == words(a) + words(b),
    decreases a.len(),
{
    let s = a.push(c) + b;
    if a.len() == 0 {
        assert(s[0] == c);
        assert(s.skip(1) =~= b);
        assert(words(a) + words(b) =~= words(b));
    } else if white_space(a[0]) {
        assert(s[0] == a[0]);
        assert(s.skip(1) =~= a.skip(1).push(c) + b);
        law_white_space_parts_words(a.skip(1), c, b);
    } else {
        let n = word_len(a) as int;
        lemma_word_len(a);
        let word = a.take(n);
        let rest = a.skip(n).push(c) + b;
        assert(s =~= word + rest);
        assert forall|i: int| 0 <= i < word.len() implies !white_space(#[trigger] word[i]) by {
            assert(word[i] == a[i]);
        }
        assert(n > 0);
        lemma_word_len_of(word, rest);
        assert(s[0] == a[0]);
        assert(s.take(n) =~= word);
        assert(s.skip(n) =~= rest);
        law_white_space_parts_words(a.skip(n), c, b);
        assert(seq![word] + (words(a.skip(n)) + words(b)) =~= (seq![word] + words(a.skip(n)))
            + words(b));
    }
}

/// Parts are joined with the separator between neighbours and nowhere else:
/// nothing for no parts, the part itself for one, and else the first parts
/// joined, the separator, and the other parts joined.
pub proof fn law_joins_put_the_separator_between(
    a: Seq<Seq<char>>,
    b: Seq<Seq<char>>,
    part: Seq<char>,
    sep: Seq<char>,
)
    ensures
        joined(Seq::empty(), sep) == Seq::<char>::empty(),
        joined(seq![part], sep) == part,
        a.len() > 0 && b.len() > 0 ==> joined(a + b, sep) == joined(a, sep) + sep + joined(b, sep),
    decreases b.len(),
{
    if a.len() > 0 && b.len() > 0 {
        let both = a + b;
        assert(both.drop_last() =~= a + b.drop_last());
        assert(both.last() == b.last());
        if b.len() == 1 {
            assert(a + b.drop_last() =~= a);
        } else {
            law_joins_put_the_separator_between(a, b.drop_last(), part, sep);
            assert(joined(both, sep) =~= joined(a, sep) + sep + joined(b, sep));
        }
    }
}

/// The part of a text before its first separator holds none.
pub proof fn lemma_piece_len(s: Seq<char>, sep: char)
    ensures
        piece_len(s, sep) <= s.len(),
        piece_len(s, sep) < s.len() ==> s[piece_len(s, sep) as int] == sep,
        forall|i: int| 0 <= i < piece_len(s, sep) ==> #[trigger] s[i] != sep,
    decreases s.len(),
{
    if s.len() > 0 && s[0] != sep {
        lemma_piece_len(s.skip(1), sep);
        let n = piece_len(s, sep);
        assert forall|i: int| 0 <= i < n implies #[trigger] s[i] != sep by {
            if i > 0 {
                assert(s[i] == s.skip(1)[i - 1]);
            }
        }
        if n < s.len() {
            assert(s[n as int] == s.skip(1)[n - 1]);
        }
    }
}

/// Splitting loses nothing: the pieces, joined by the character that parts
/// them, are the text again; none of them holds it, and there is one at least.
pub proof fn law_pieces_make_up_the_text(s: Seq<char>, sep: char)
    ensures
        split_on(s, sep).len() > 0,
        joined(split_on(s, sep), seq![sep]) == s,
        forall|i: int, k: int|
            0 <= i < split_on(s, sep).len() && 0 <= k < split_on(s, sep)[i].len() ==> (
            #[trigger] split_on(s, sep)[i][k]) != sep,
    decreases s.len(),
{
    let n = piece_len(s, sep) as int;
    lemma_piece_len(s, sep);
    if n < s.len() {
        let first = s.take(n);
        let later = s.skip(n + 1);
        law_pieces_make_up_the_text(later, sep);
        law_joins_put_the_separator_between(
            seq![first],
            split_on(later, sep),
            first,
            seq![sep],
        );
        assert(first + seq![sep] + later =~= s);
        assert forall|i: int, k: int|
            0 <= i < split_on(s, sep).len() && 0 <= k < split_on(s, sep)[i].len() implies (
        #[trigger] split_on(s, sep)[i][k]) != sep by {
            if i == 0 {
                assert(split_on(s, sep)[i] == first);
                assert(first[k] == s[k]);
            } else {
                assert(split_on(s, sep)[i] == split_on(later, sep)[i - 1]);
            }
        }
    } else {
        law_joins_put_the_separator_between(seq![s], Seq::empty(), s, seq![sep]);
    }
}

proof fn lemma_trim_start(s: Seq<char>) -> (from: int)
    ensures
        0 <= from <= s.len(),
        trim_start(s) == s.skip(from),
        forall|i: int| 0 <= i < from ==> white_space(#[trigger] s[i]),
        from < s.len() ==> !white_space(s[from]),
    decreases s.len(),
{
    if s.len() > 0 && white_space(s[0]) {
        let from = lemma_trim_start(s.skip(1)) + 1;
        assert(s.skip(1).skip(from - 1) =~= s.skip(from));
        assert forall|i: int| 0 <= i < from implies white_space(#[trigger] s[i]) by {
            if i > 0 {
                assert(s[i] == s.skip(1)[i - 1]);
            }
        }
        from
    } else {
        assert(s.skip(0) =~= s);
        0
    }
}

proof fn lemma_trim_end(s: Seq<char>) -> (to: int)
    ensures
        0 <= to <= s.len(),
        trim_end(s) == s.take(to),
        forall|i: int| to <= i < s.len() ==> white_space(#[trigger] s[i]),
        to > 0 ==> !white_space(s[to - 1]),
    decreases s.len(),
{
    if s.len() > 0 && white_space(s.last()) {
        let to = lemma_trim_end(s.drop_last());
        assert(s.drop_last().take(to) =~= s.take(to));
        assert forall|i: int| to <= i < s.len() implies white_space(#[trigger] s[i]) by {
            if i < s.len() - 1 {
                assert(s[i] == s.drop_last()[i]);
            }
        }
        to
    } else {
        assert(s.take(s.len() as int) =~= s);
        s.len() as int
    }
}

/// Trimming takes white space from both ends and nothing else: what is left is
/// a part of the text in one piece, with white space alone before and behind
/// it, and neither begins nor ends with any.
pub proof fn law_trimming_takes_only_white_space(s: Seq<char>)
    ensures
        exists|from: int, to: int|
            {
                &&& 0 <= from <= to <= s.len()
                &&& trimmed(s) == #[trigger] s.subrange(from, to)
                &&& forall|i: int| 0 <= i < from ==> white_space(#[trigger] s[i])
                &&& forall|i: int| to <= i < s.len() ==> white_space(#[trigger] s[i])
            },
        trimmed(s).len() > 0 ==> !white_space(trimmed(s)[0]) && !white_space(trimmed(s).last()),
{
    let from = lemma_trim_start(s);
    let rest = s.skip(from);
    let to = from + lemma_trim_end(rest);
    assert(rest.take(to - from) =~= s.subrange(from, to));
    assert forall|i: int| to <= i < s.len() implies white_space(#[trigger] s[i]) by {
        assert(s[i] == rest[i - from]);
    }
    if trimmed(s).len() > 0 {
        assert(trimmed(s)[0] == s[from]);
    }
}

/// A character is taken from the end of a text as often as it stands there, and
/// nothing else is.
pub proof fn law_trailing_characters_are_dropped(s: Seq<char>, c: char)
    ensures
        ({
            let r = without_trailing(s, c);
            &&& r.is_prefix_of(s)
            &&& forall|i: int| r.len() <= i < s.len() ==> #[trigger] s[i] == c
            &&& r.len() > 0 ==> r.last() != c
        }),
    decreases s.len(),
{
    if s.len() > 0 && s.last() == c {
        law_trailing_characters_are_dropped(s.drop_last(), c);
        let r = without_trailing(s, c);
        assert(r =~= s.take(r.len() as int));
        assert forall|i: int| r.len() <= i < s.len() implies #[trigger] s[i] == c by {
            if i < s.len() - 1 {
                assert(s[i] == s.drop_last()[i]);
            }
        }
    }
}

/// What follows a prefix is what was put behind it; a text that does not begin
/// with the prefix, one character after the other, has nothing behind it.
pub proof fn law_prefixes_are_stripped(prefix: Seq<char>, rest: Seq<char>, s: Seq<char>)
    ensures
        stripped(prefix + rest, prefix) == Some(rest),
        stripped(s, prefix) matches Some(r) ==> s == prefix + r,
        stripped(s, prefix) is None <==> s.len() < prefix.len() || exists|i: int|
            0 <= i < prefix.len() && #[trigger] s[i] != prefix[i],
{
    assert(prefix.is_prefix_of(prefix + rest));
    assert((prefix + rest).skip(prefix.len() as int) =~= rest);
    if prefix.is_prefix_of(s) {
        assert(s =~= prefix + s.skip(prefix.len() as int));
        assert forall|i: int| 0 <= i < prefix.len() implies #[trigger] s[i] == prefix[i] by {}
    } else if s.len() >= prefix.len() {
        if forall|i: int| 0 <= i < prefix.len() ==> #[trigger] s[i] == prefix[i] {
            assert(s.subrange(0, prefix.len() as int) =~= prefix);
        }
    }
}

/// A pattern is found where it stands first: the characters there are the
/// pattern's, at no smaller index are they, and a text that holds the pattern
/// anywhere is one in which it is found.
pub proof fn law_patterns_are_found_where_they_stand(s: Seq<char>, pattern: Seq<char>)
    ensures
        first_at(s, pattern) matches Some(i) ==> {
            &&& 0 <= i
            &&& i + pattern.len() <= s.len()
            &&& s.subrange(i, i + pattern.len()) == pattern
            &&& forall|k: int|
                0 <= k < i ==> #[trigger] s.subrange(k, k + pattern.len()) != pattern
        },
        first_at(s, pattern) is None ==> forall|k: int|
            0 <= k && k + pattern.len() <= s.len() ==> #[trigger] s.subrange(k, k + pattern.len())
                != pattern,
{
    lemma_first_at(s, pattern);
    match first_at(s, pattern) {
        Some(i) => {
            assert forall|k: int| 0 <= k < i implies #[trigger] s.subrange(k, k + pattern.len())
                != pattern by {
                assert(!occurs_at(s, pattern, k));
            }
        },
        None => {
            assert forall|k: int|
                0 <= k && k + pattern.len() <= s.len() implies #[trigger] s.subrange(
                k,
                k + pattern.len(),
            ) != pattern by {
                assert(!occurs_at(s, pattern, k));
            }
        },
    }
}

/// The first characters of a text are as many as are asked for, or all of them.
pub proof fn law_first_characters_are_kept(s: Seq<char>, n: nat)
    ensures
        prefix_of_len(s, n).is_prefix_of(s),
        n <= s.len() ==> prefix_of_len(s, n).len() == n,
        n > s.len() ==> prefix_of_len(s, n) == s,
{
    assert(s.take(s.len() as int) =~= s);
}

/// Numbers are written in decimal: a number below ten as its digit, and each
/// further digit behind those of the number without it.
pub proof fn law_numbers_are_written_in_decimal(n: nat, d: nat)
    requires
        d < 10,
    ensures
        decimal(d).len() == 1,
        decimal(d)[0] as u32 == 48 + d,
        n > 0 ==> decimal(n * 10 + d) == decimal(n) + decimal(d),
{
    if n > 0 {
        let m = n * 10 + d;
        assert(m / 10 == n);
        assert(m % 10 == d);
        assert(decimal(n).push(digit(d)) =~= decimal(n) + decimal(d));
    }
}

/// A number that is written in decimal is read as that number.
pub proof fn law_numbers_are_read_as_written(n: nat)
    ensures
        unsigned_value(decimal(n)) == Some(n),
        decimal(n).len() > 0,
        n > 0 ==> decimal(n)[0] != '0',
        forall|i: int| 0 <= i < decimal(n).len() ==> '0' <= #[trigger] decimal(n)[i] <= '9',
        digits_value(decimal(n)) == n,
    decreases n,
{
    let s = decimal(n);
    if n >= 10 {
        law_numbers_are_read_as_written(n / 10);
        assert(s.drop_last() =~= decimal(n / 10));
        assert(s.last() == digit(n % 10));
        assert forall|i: int| 0 <= i < s.len() implies '0' <= #[trigger] s[i] <= '9' by {
            if i < s.len() - 1 {
                assert(s[i] == decimal(n / 10)[i]);
            }
        }
        assert(s[0] == decimal(n / 10)[0]);
    } else {
        assert(s.drop_last() =~= Seq::empty());
        assert(digits_value(s.drop_last()) == 0);
    }
    assert forall|i: int| 0 <= i < s.len() implies is_digit(#[trigger] s[i]) by {}
    assert(s[0] != '+');
}

/// Digits are read as the number that they stand for, with or without one plus
/// sign before them: one digit as itself, and each further digit as ten times
/// the number before it and itself. Anything else is no number.
pub proof fn law_digits_are_read(s: Seq<char>, c: char)
    ensures
        unsigned_value(Seq::empty()) is None,
        unsigned_value(seq!['+']) is None,
        '0' <= c <= '9' ==> unsigned_value(seq![c]) == Some((c as u32 - 48) as nat),
        '0' <= c <= '9' ==> (unsigned_value(s) matches Some(n) ==> unsigned_value(s.push(c)) == Some(
            (n * 10 + (c as u32 - 48)) as nat,
        )),
        !('0' <= c <= '9') ==> (s.len() > 0 || c != '+' ==> unsigned_value(s.push(c)) is None),
        s.len() > 0 && s[0] != '+' ==> unsigned_value(seq!['+'] + s) == unsigned_value(s),
        unsigned_value(s) is None && s.len() > 0 && s != seq!['+'] ==> unsigned_value(s.push(c)) is None,
{
    let one = seq![c];
    assert(one.drop_last() =~= Seq::<char>::empty());
    assert(digits_value(one.drop_last()) == 0);
    assert(seq!['+'].skip(1) =~= Seq::<char>::empty());
    let longer = s.push(c);
    let d = without_plus(s);
    let e = without_plus(longer);
    if s.len() > 0 {
        assert(e =~= d.push(c));
        assert(e.drop_last() =~= d);
        assert(e.last() == c);
        assert forall|i: int| 0 <= i < d.len() implies #[trigger] d[i] == e[i] by {}
        if '0' <= c <= '9' && unsigned_value(s) is Some {
            assert forall|i: int| 0 <= i < e.len() implies is_digit(#[trigger] e[i]) by {
                if i < d.len() {
                    assert(is_digit(d[i]));
                }
            }
        }
        if !('0' <= c <= '9') {
            assert(!is_digit(e[e.len() - 1]));
        }
        if unsigned_value(s) is None && s != seq!['+'] {
            if d.len() == 0 {
                assert(s =~= seq!['+']);
            }
            let i = choose|i: int| 0 <= i < d.len() && !is_digit(#[trigger] d[i]);
            assert(!is_digit(e[i]));
        }
        if s[0] != '+' {
            assert((seq!['+'] + s).skip(1) =~= s);
        }
    } else {
        assert(longer =~= one);
        if !('0' <= c <= '9') && c != '+' {
            assert(!is_digit(one[0]));
        }
    }
}

/// Bytes are written in hexadecimal: two digits each, in order, the higher four
/// bits first.
pub proof fn law_bytes_are_written_in_hexadecimal(bytes: Seq<u8>, b: u8)
    ensures
        lower_hex(Seq::empty()) == Seq::<char>::empty(),
        lower_hex(bytes.push(b)) == lower_hex(bytes) + seq![
            "0123456789abcdef"@[(b / 16) as int],
            "0123456789abcdef"@[(b % 16) as int],
        ],
{
    reveal_strlit("0123456789abcdef");
    assert(bytes.push(b).drop_last() =~= bytes);
    assert(lower_hex(bytes.push(b)) =~= lower_hex(bytes) + seq![
        "0123456789abcdef"@[(b / 16) as int],
        "0123456789abcdef"@[(b % 16) as int],
    ]);
}

/// What strings hold is told one for one and in order.
pub proof fn law_texts_are_the_strings(v: Seq<String>, i: int)
    ensures
        texts(v).len() == v.len(),
        0 <= i < v.len() ==> texts(v)[i] == v[i]@,
{
}

} // verus!

//! Server-sent events as they come in from a model runtime: text in chunks,
//! cut into lines or events, and the data that those carry.
use vstd::prelude::*;

#[allow(unused_imports)]
use crate::text::{
    first_at, joined, law_joins_put_the_separator_between, law_prefixes_are_stripped,
    law_trailing_characters_are_dropped, law_trimming_takes_only_white_space, lemma_first_at,
    lemma_first_at_unique, lemma_joined_front, lemma_piece_len, occurs_at, piece_len, split_on,
    stripped, texts, trimmed, white_space, without_trailing,
};
use crate::text::{
    chars_of, find, join, same_text, split_char, string_of, strip_prefix, trim, trim_end_char,
};

verus! {

/// The pieces of a text that a separator ends.
pub open spec fn ended_pieces(s: Seq<char>, sep: Seq<char>) -> Seq<Seq<char>>
    decreases s.len(),
{
    match first_at(s, sep) {
        Some(i) if 0 <= i && sep.len() > 0 && i + sep.len() <= s.len() => seq![s.take(i)]
            + ended_pieces(s.skip(i + sep.len()), sep),
        _ => Seq::empty(),
    }
}

/// What follows the last separator of a text.
pub open spec fn unended(s: Seq<char>, sep: Seq<char>) -> Seq<char>
    decreases s.len(),
{
    match first_at(s, sep) {
        Some(i) if 0 <= i && sep.len() > 0 && i + sep.len() <= s.len() => unended(
            s.skip(i + sep.len()),
            sep,
        ),
        _ => s,
    }
}

/// The value of a `data` field, where a line is one.
pub open spec fn data_field(line: Seq<char>) -> Option<Seq<char>> {
    match stripped(without_trailing(line, '\r'), "data:"@) {
        Some(value) => Some(trimmed(value)),
        None => None,
    }
}

/// The values of the `data` fields among lines.
pub open spec fn data_fields(lines: Seq<Seq<char>>) -> Seq<Seq<char>>
    decreases lines.len(),
{
    if lines.len() == 0 {
        Seq::empty()
    } else {
        let before = data_fields(lines.drop_last());
        match data_field(lines.last()) {
            Some(value) => before.push(value),
            None => before,
        }
    }
}

/// The data of an event: its `data` fields, one to a line.
pub open spec fn event_data(event: Seq<char>) -> Seq<char> {
    joined(data_fields(split_on(event, '\n')), "\n"@)
}

/// The data of those events that have any.
pub open spec fn events_data(events: Seq<Seq<char>>) -> Seq<Seq<char>>
    decreases events.len(),
{
    if events.len() == 0 {
        Seq::empty()
    } else {
        let before = events_data(events.drop_last());
        let data = event_data(events.last());
        if data.len() > 0 {
            before.push(data)
        } else {
            before
        }
    }
}

/// Whether a line's data is neither empty nor the end mark.
pub open spec fn carries(data: Option<Seq<char>>) -> bool {
    match data {
        Some(value) => value.len() > 0 && value != "[DONE]"@,
        None => false,
    }
}

/// The data of those lines that carry some, leaving out the end mark.
pub open spec fn lines_data(lines: Seq<Seq<char>>) -> Seq<Seq<char>>
    decreases lines.len(),
{
    if lines.len() == 0 {
        Seq::empty()
    } else {
        let before = lines_data(lines.drop_last());
        let data = data_field(lines.last());
        if carries(data) {
            before.push(data.unwrap())
        } else {
            before
        }
    }
}

/// Takes the pieces that a separator ends out of a buffer, which keeps the rest.
pub fn drain_pieces(buffer: &mut String, sep: &str) -> (pieces: Vec<String>)
    requires
        sep@.len() > 0,
    ensures
        texts(pieces@) == ended_pieces(old(buffer)@, sep@),
        final(buffer)@ == unended(old(buffer)@, sep@),
{
    let chars = chars_of(buffer.as_str());
    let pattern = chars_of(sep);
    let total: usize = chars.len();
    let mut pieces: Vec<String> = Vec::new();
    let mut i: usize = 0;
    assert(chars@.skip(0) =~= chars@);
    assert(texts(pieces@) =~= Seq::empty());
    assert(Seq::<Seq<char>>::empty() + ended_pieces(chars@, sep@) =~= ended_pieces(chars@, sep@));
    loop
        invariant
            i <= chars@.len(),
            total == chars@.len(),
            pattern@ == sep@,
            pattern@.len() > 0,
            chars@ == old(buffer)@,
            ended_pieces(chars@, sep@) == texts(pieces@) + ended_pieces(
                chars@.skip(i as int),
                sep@,
            ),
            unended(chars@, sep@) == unended(chars@.skip(i as int), sep@),
        decreases chars@.len() - i,
    {
        let ghost rest = chars@.skip(i as int);
        match find(&chars, &pattern, i) {
            Some(end) => {
                proof {
                    lemma_first_at(rest, sep@);
                    assert(end + sep@.len() <= total);
                }
                let piece = string_of(&chars, i, end);
                let ghost before = texts(pieces@);
                pieces.push(piece);
                let next: usize = end + pattern.len();
                assert(texts(pieces@) =~= before.push(piece@));
                assert(rest.take(end - i) =~= piece@);
                assert(rest.skip(end - i + sep@.len()) =~= chars@.skip(next as int));
                assert(before + (seq![piece@] + ended_pieces(chars@.skip(next as int), sep@))
                    =~= texts(pieces@) + ended_pieces(chars@.skip(next as int), sep@));
                i = next;
            },
            None => {
                *buffer = string_of(&chars, i, total);
                assert(rest =~= buffer@);
                assert(texts(pieces@) + Seq::<Seq<char>>::empty() =~= texts(pieces@));
                return pieces;
            },
        }
    }
}

/// The value of a `data` field, where a line is one.
fn data_value(line: &str) -> (value: Option<String>)
    ensures
        data_field(line@) == match value {
            Some(value) => Some(value@),
            None => None,
        },
{
    let line = trim_end_char(line, '\r');
    match strip_prefix(line.as_str(), "data:") {
        Some(value) => Some(trim(value.as_str())),
        None => None,
    }
}

/// The data of an event.
fn data_of(event: &str) -> (data: String)
    ensures
        data@ == event_data(event@),
{
    let lines = split_char(event, '\n');
    let ghost all = texts(lines@);
    let mut values: Vec<String> = Vec::new();
    let mut i: usize = 0;
    assert(texts(values@) =~= data_fields(all.take(0)));
    while i < lines.len()
        invariant
            i <= lines@.len(),
            all == texts(lines@),
            texts(values@) == data_fields(all.take(i as int)),
        decreases lines@.len() - i,
    {
        assert(all.take(i + 1).drop_last() =~= all.take(i as int));
        assert(all.take(i + 1).last() == lines@[i as int]@);
        let ghost before = texts(values@);
        if let Some(value) = data_value(lines[i].as_str()) {
            values.push(value);
            assert(texts(values@) =~= before.push(value@));
        }
        i += 1;
    }
    assert(all.take(i as int) =~= all);
    join(&values, "\n")
}

/// Takes the events that are complete out of a buffer, which keeps the rest:
/// the data of each event that has any.
pub fn drain_sse_events(buffer: &mut String) -> (events: Vec<String>)
    ensures
        texts(events@) == events_data(ended_pieces(old(buffer)@, "\n\n"@)),
        final(buffer)@ == unended(old(buffer)@, "\n\n"@),
{
    proof {
        reveal_strlit("\n\n");
    }
    let pieces = drain_pieces(buffer, "\n\n");
    let ghost all = texts(pieces@);
    let mut events: Vec<String> = Vec::new();
    let mut i: usize = 0;
    assert(texts(events@) =~= events_data(all.take(0)));
    while i < pieces.len()
        invariant
            i <= pieces@.len(),
            all == texts(pieces@),
            texts(events@) == events_data(all.take(i as int)),
        decreases pieces@.len() - i,
    {
        assert(all.take(i + 1).drop_last() =~= all.take(i as int));
        assert(all.take(i + 1).last() == pieces@[i as int]@);
        let ghost before = texts(events@);
        let data = data_of(pieces[i].as_str());
        if !data.as_str().is_empty() {
            events.push(data);
            assert(texts(events@) =~= before.push(data@));
        }
        i += 1;
    }
    assert(all.take(i as int) =~= all);
    events
}

/// Takes the lines that are complete out of a buffer, which keeps the rest:
/// the data of each line that carries some, without the end mark.
pub fn drain_data_lines(buffer: &mut String) -> (data: Vec<String>)
    ensures
        texts(data@) == lines_data(ended_pieces(old(buffer)@, "\n"@)),
        final(buffer)@ == unended(old(buffer)@, "\n"@),
{
    proof {
        reveal_strlit("\n");
    }
    let lines = drain_pieces(buffer, "\n");
    let ghost all = texts(lines@);
    let mut data: Vec<String> = Vec::new();
    let mut i: usize = 0;
    assert(texts(data@) =~= lines_data(all.take(0)));
    while i < lines.len()
        invariant
            i <= lines@.len(),
            all == texts(lines@),
            texts(data@) == lines_data(all.take(i as int)),
        decreases lines@.len() - i,
    {
        assert(all.take(i + 1).drop_last() =~= all.take(i as int));
        assert(all.take(i + 1).last() == lines@[i as int]@);
        let ghost before = texts(data@);
        if let Some(value) = data_value(lines[i].as_str()) {
            if !value.as_str().is_empty() && !same_text(value.as_str(), "[DONE]") {
                data.push(value);
                assert(texts(data@) =~= before.push(value@));
            }
        }
        i += 1;
    }
    assert(all.take(i as int) =~= all);
    data
}

/// A separator that is found first in a text is still found first, and at the
/// same place, when more text follows.
proof fn lemma_first_at_extended(a: Seq<char>, b: Seq<char>, sep: Seq<char>)
    requires
        first_at(a, sep) is Some,
    ensures
        first_at(a + b, sep) == first_at(a, sep),
{
    let i = first_at(a, sep).unwrap();
    lemma_first_at(a, sep);
    assert((a + b).subrange(i, i + sep.len()) =~= a.subrange(i, i + sep.len()));
    assert forall|k: int| 0 <= k < i implies !#[trigger] occurs_at(a + b, sep, k) by {
        assert((a + b).subrange(k, k + sep.len()) =~= a.subrange(k, k + sep.len()));
        assert(!occurs_at(a, sep, k));
    }
    lemma_first_at_unique(a + b, sep, i);
}

/// However a text is cut into chunks, the same pieces come out of it: what a
/// first chunk gives and what comes once the next is put behind its rest are
/// what the two together give, and the rest is the same.
pub proof fn law_pieces_ignore_chunks(a: Seq<char>, b: Seq<char>, sep: Seq<char>)
    requires
        sep.len() > 0,
    ensures
        ended_pieces(a + b, sep) == ended_pieces(a, sep) + ended_pieces(unended(a, sep) + b, sep),
        unended(a + b, sep) == unended(unended(a, sep) + b, sep),
    decreases a.len(),
{
    lemma_first_at(a, sep);
    match first_at(a, sep) {
        Some(i) => {
            let rest = a.skip(i + sep.len());
            lemma_first_at_extended(a, b, sep);
            assert((a + b).take(i) =~= a.take(i));
            assert((a + b).skip(i + sep.len()) =~= rest + b);
            law_pieces_ignore_chunks(rest, b, sep);
            assert(seq![a.take(i)] + (ended_pieces(rest, sep) + ended_pieces(
                unended(rest, sep) + b,
                sep,
            )) =~= (seq![a.take(i)] + ended_pieces(rest, sep)) + ended_pieces(
                unended(rest, sep) + b,
                sep,
            ));
        },
        None => {
            assert(Seq::<Seq<char>>::empty() + ended_pieces(a + b, sep) =~= ended_pieces(
                a + b,
                sep,
            ));
        },
    }
}

proof fn lemma_events_data_append(a: Seq<Seq<char>>, b: Seq<Seq<char>>)
    ensures
        events_data(a + b) == events_data(a) + events_data(b),
    decreases b.len(),
{
    if b.len() == 0 {
        assert(a + b =~= a);
        assert(events_data(a) + Seq::<Seq<char>>::empty() =~= events_data(a));
    } else {
        assert((a + b).drop_last() =~= a + b.drop_last());
        assert((a + b).last() == b.last());
        lemma_events_data_append(a, b.drop_last());
        let data = event_data(b.last());
        if data.len() > 0 {
            assert((events_data(a) + events_data(b.drop_last())).push(data) =~= events_data(a)
                + events_data(b.drop_last()).push(data));
        }
    }
}

proof fn lemma_lines_data_append(a: Seq<Seq<char>>, b: Seq<Seq<char>>)
    ensures
        lines_data(a + b) == lines_data(a) + lines_data(b),
    decreases b.len(),
{
    if b.len() == 0 {
        assert(a + b =~= a);
        assert(lines_data(a) + Seq::<Seq<char>>::empty() =~= lines_data(a));
    } else {
        assert((a + b).drop_last() =~= a + b.drop_last());
        assert((a + b).last() == b.last());
        lemma_lines_data_append(a, b.drop_last());
        let data = data_field(b.last());
        if carries(data) {
            assert((lines_data(a) + lines_data(b.drop_last())).push(data.unwrap())
                =~= lines_data(a) + lines_data(b.drop_last()).push(data.unwrap()));
        }
    }
}

/// However a stream of events is cut into chunks, the same data comes out of
/// it, read by events or by lines.
pub proof fn law_data_ignores_chunks(a: Seq<char>, b: Seq<char>)
    ensures
        events_data(ended_pieces(a + b, "\n\n"@)) == events_data(ended_pieces(a, "\n\n"@))
            + events_data(ended_pieces(unended(a, "\n\n"@) + b, "\n\n"@)),
        lines_data(ended_pieces(a + b, "\n"@)) == lines_data(ended_pieces(a, "\n"@)) + lines_data(
            ended_pieces(unended(a, "\n"@) + b, "\n"@),
        ),
{
    reveal_strlit("\n\n");
    reveal_strlit("\n");
    law_pieces_ignore_chunks(a, b, "\n\n"@);
    law_pieces_ignore_chunks(a, b, "\n"@);
    lemma_events_data_append(
        ended_pieces(a, "\n\n"@),
        ended_pieces(unended(a, "\n\n"@) + b, "\n\n"@),
    );
    lemma_lines_data_append(
        ended_pieces(a, "\n"@),
        ended_pieces(unended(a, "\n"@) + b, "\n"@),
    );
}

/// What a buffer keeps holds no separator, so that draining it again takes
/// nothing more.
pub proof fn law_rest_is_unended(s: Seq<char>, sep: Seq<char>)
    requires
        sep.len() > 0,
    ensures
        first_at(unended(s, sep), sep) is None,
        ended_pieces(unended(s, sep), sep) == Seq::<Seq<char>>::empty(),
    decreases s.len(),
{
    lemma_first_at(s, sep);
    match first_at(s, sep) {
        Some(i) => {
            law_rest_is_unended(s.skip(i + sep.len()), sep);
        },
        None => {},
    }
}

/// Nothing of a stream is lost or made up: its pieces and the rest, with the
/// separator between neighbours, are the stream again, and no piece holds the
/// separator.
pub proof fn law_pieces_and_rest_make_up_the_stream(s: Seq<char>, sep: Seq<char>)
    requires
        sep.len() > 0,
    ensures
        joined(ended_pieces(s, sep).push(unended(s, sep)), sep) == s,
        forall|i: int, k: int|
            0 <= i < ended_pieces(s, sep).len() && 0 <= k && k + sep.len() <= ended_pieces(
                s,
                sep,
            )[i].len() ==> #[trigger] ended_pieces(s, sep)[i].subrange(k, k + sep.len()) != sep,
    decreases s.len(),
{
    lemma_first_at(s, sep);
    match first_at(s, sep) {
        Some(i) => {
            let first = s.take(i);
            let later = s.skip(i + sep.len());
            law_pieces_and_rest_make_up_the_stream(later, sep);
            let more = ended_pieces(later, sep).push(unended(later, sep));
            law_joins_put_the_separator_between(seq![first], more, first, sep);
            assert(ended_pieces(s, sep).push(unended(s, sep)) =~= seq![first] + more);
            assert(s.subrange(i, i + sep.len()) == sep);
            assert(first + sep + later =~= s);
            assert forall|j: int, k: int|
                0 <= j < ended_pieces(s, sep).len() && 0 <= k && k + sep.len() <= ended_pieces(
                    s,
                    sep,
                )[j].len() implies #[trigger] ended_pieces(s, sep)[j].subrange(k, k + sep.len())
                != sep by {
                if j == 0 {
                    assert(ended_pieces(s, sep)[j] == first);
                    assert(first.subrange(k, k + sep.len()) =~= s.subrange(k, k + sep.len()));
                    assert(!occurs_at(s, sep, k));
                } else {
                    assert(ended_pieces(s, sep)[j] == ended_pieces(later, sep)[j - 1]);
                }
            }
        },
        None => {
            assert(ended_pieces(s, sep).push(unended(s, sep)) =~= seq![s]);
            law_joins_put_the_separator_between(seq![s], Seq::empty(), s, sep);
        },
    }
}

/// What stands behind `data:` in a line, without the white space around it and
/// whatever carriage returns end the line, is its data; a line that begins
/// otherwise has none.
pub proof fn law_data_stands_behind_its_name(value: Seq<char>, line: Seq<char>)
    ensures
        value.len() > 0 && value.last() != '\r' ==> data_field("data:"@ + value) == Some(
            trimmed(value),
        ),
        data_field(line.push('\r')) == data_field(line),
        line.len() > 0 && line.last() != '\r' && stripped(line, "data:"@) is None ==> data_field(
            line,
        ) is None,
        line.len() > 0 && line[0] != 'd' ==> data_field(line) is None,
        data_field(line) matches Some(data) ==> trimmed(data) == data,
{
    reveal_strlit("data:");
    let whole = "data:"@ + value;
    if value.len() > 0 && value.last() != '\r' {
        assert(whole.last() == value.last());
        law_prefixes_are_stripped("data:"@, value, whole);
    }
    assert(line.push('\r').drop_last() =~= line);
    if line.len() > 0 && line[0] != 'd' {
        let kept = without_trailing(line, '\r');
        law_trailing_characters_are_dropped(line, '\r');
        law_prefixes_are_stripped("data:"@, value, kept);
        if kept.len() > 0 {
            assert(kept[0] == line[0]);
            assert("data:"@[0] == 'd');
        }
    }
    if data_field(line) is Some {
        let data = data_field(line).unwrap();
        let kept = without_trailing(line, '\r');
        let from = stripped(kept, "data:"@).unwrap();
        law_trimming_takes_only_white_space(from);
        lemma_trimmed_stays(data);
    }
}

/// A text that white space neither begins nor ends is trimmed already.
proof fn lemma_trimmed_stays(s: Seq<char>)
    requires
        s.len() > 0 ==> !white_space(s[0]) && !white_space(s.last()),
    ensures
        trimmed(s) == s,
{
}

/// Read by lines, a stream gives the data of each line in order; only empty
/// data and the end mark are left out.
pub proof fn law_lines_give_their_data(lines: Seq<Seq<char>>, line: Seq<char>)
    ensures
        lines_data(Seq::empty()) == Seq::<Seq<char>>::empty(),
        data_field(line) matches Some(data) ==> lines_data(lines.push(line)) == if data.len() == 0
            || data == "[DONE]"@ {
            lines_data(lines)
        } else {
            lines_data(lines).push(data)
        },
        data_field(line) is None ==> lines_data(lines.push(line)) == lines_data(lines),
{
    assert(lines.push(line).drop_last() =~= lines);
    assert(lines.push(line).last() == line);
}

/// Read by events, a stream gives the data of each event in order, the end mark
/// with it; only events without data are left out. The data of an event is that
/// of its lines, one to a line.
pub proof fn law_events_give_their_data(events: Seq<Seq<char>>, lines: Seq<Seq<char>>)
    requires
        lines.len() > 0,
        forall|i: int, k: int|
            0 <= i < lines.len() && 0 <= k < lines[i].len() ==> #[trigger] lines[i][k] != '\n',
    ensures
        events_data(Seq::empty()) == Seq::<Seq<char>>::empty(),
        events_data(events.push(joined(lines, "\n"@))) == if joined(
            data_fields(lines),
            "\n"@,
        ).len() > 0 {
            events_data(events).push(joined(data_fields(lines), "\n"@))
        } else {
            events_data(events)
        },
{
    let event = joined(lines, "\n"@);
    assert(events.push(event).drop_last() =~= events);
    assert(events.push(event).last() == event);
    lemma_split_of_joined(lines);
}

/// The data of lines is that of each line which has some, in order: that of the
/// first lines, and then that of the others.
pub proof fn law_data_comes_line_by_line(line: Seq<char>, a: Seq<Seq<char>>, b: Seq<Seq<char>>)
    ensures
        data_fields(Seq::empty()) == Seq::<Seq<char>>::empty(),
        data_field(line) matches Some(data) ==> data_fields(seq![line]) == seq![data],
        data_field(line) is None ==> data_fields(seq![line]) == Seq::<Seq<char>>::empty(),
        data_fields(a + b) == data_fields(a) + data_fields(b),
    decreases b.len(),
{
    assert(seq![line].drop_last() =~= Seq::<Seq<char>>::empty());
    assert(seq![line].last() == line);
    if b.len() == 0 {
        assert(a + b =~= a);
        assert(data_fields(a) + data_fields(b) =~= data_fields(a));
    } else {
        assert((a + b).drop_last() =~= a + b.drop_last());
        assert((a + b).last() == b.last());
        law_data_comes_line_by_line(line, a, b.drop_last());
        assert(data_fields(a + b) =~= data_fields(a) + data_fields(b));
    }
}

/// Lines that are joined by line feeds are the lines of the text.
proof fn lemma_split_of_joined(lines: Seq<Seq<char>>)
    requires
        lines.len() > 0,
        forall|i: int, k: int|
            0 <= i < lines.len() && 0 <= k < lines[i].len() ==> #[trigger] lines[i][k] != '\n',
    ensures
        split_on(joined(lines, "\n"@), '\n') == lines,
    decreases lines.len(),
{
    reveal_strlit("\n");
    let s = joined(lines, "\n"@);
    let n = piece_len(s, '\n') as int;
    lemma_piece_len(s, '\n');
    let first = lines[0];
    if lines.len() == 1 {
        assert(s == first);
        if n < s.len() {
            assert(lines[0][n] == '\n');
        }
        assert(split_on(s, '\n') =~= lines);
    } else {
        let later = lines.skip(1);
        assert forall|i: int, k: int|
            0 <= i < later.len() && 0 <= k < later[i].len() implies #[trigger] later[i][k] != '\n' by {
            assert(later[i] == lines[i + 1]);
            assert(lines[i + 1][k] != '\n');
        }
        lemma_joined_front(lines, "\n"@);
        lemma_split_of_joined(later);
        assert(s[first.len() as int] == '\n');
        if n < first.len() {
            assert(s[n] == first[n]);
            assert(lines[0][n] != '\n');
        }
        if n > first.len() {
            assert(s[first.len() as int] != '\n');
        }
        assert(s.take(n) =~= first);
        assert(s.skip(n + 1) =~= joined(later, "\n"@));
        assert(split_on(s, '\n') =~= lines);
    }
}

} // verus!

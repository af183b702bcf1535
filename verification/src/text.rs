//! Text operations on Zenoh key expressions, stated over sequences of characters.

use vstd::prelude::*;

verus! {

/// `String::push`: appends one character to the end of the string.
pub assume_specification[ String::push ](s: &mut String, c: char)
    ensures
        final(s)@ == old(s)@.push(c),
;

/// `text` with every `from` turned into `to`.
pub open spec fn replaced(text: Seq<char>, from: char, to: char) -> Seq<char> {
    text.map_values(|c: char| if c == from { to } else { c })
}

/// The parts of `text` between the separators; always at least one.
pub open spec fn segments(text: Seq<char>, separator: char) -> Seq<Seq<char>>
    decreases text.len(),
{
    if text.len() == 0 {
        seq![Seq::empty()]
    } else {
        let before = segments(text.drop_last(), separator);
        if text.last() == separator {
            before.push(Seq::empty())
        } else {
            before.drop_last().push(before.last().push(text.last()))
        }
    }
}

/// `parts` one after the other, with `separator` between neighbours.
pub open spec fn joined(parts: Seq<Seq<char>>, separator: char) -> Seq<char>
    decreases parts.len(),
{
    if parts.len() == 0 {
        Seq::empty()
    } else if parts.len() == 1 {
        parts[0]
    } else {
        joined(parts.drop_last(), separator).push(separator) + parts.last()
    }
}

/// `text` without `prefix` in front, or all of `text` where it does not start so.
pub open spec fn without_prefix(text: Seq<char>, prefix: Seq<char>) -> Seq<char> {
    if prefix.is_prefix_of(text) {
        text.skip(prefix.len() as int)
    } else {
        text
    }
}

/// The views of a list of strings.
pub open spec fn views(texts: Seq<String>) -> Seq<Seq<char>> {
    texts.map_values(|t: String| t@)
}

/// Turns every `from` in `text` into `to`.
pub fn replace_char(text: &str, from: char, to: char) -> (result: String)
    ensures
        result@ == replaced(text@, from, to),
{
    let mut result = String::new();
    for c in it: text.chars()
        invariant
            it.seq() == text@,
            result@ == replaced(text@.take(it.index() as int), from, to),
    {
        result.push(if c == from { to } else { c });
    }
    assert(text@.take(text@.len() as int) == text@);
    result
}

/// The characters of `text`.
fn characters(text: &str) -> (result: Vec<char>)
    ensures
        result@ == text@,
{
    let mut result: Vec<char> = Vec::new();
    for c in it: text.chars()
        invariant
            it.seq() == text@,
            result@ == text@.take(it.index() as int),
    {
        result.push(c);
    }
    assert(text@.take(text@.len() as int) == text@);
    result
}

/// Whether two texts hold the same characters.
pub fn same(left: &str, right: &str) -> (result: bool)
    ensures
        result == (left@ == right@),
{
    left.to_owned() == right.to_owned()
}

/// Whether `wanted` occurs in `text`.
pub fn contains_char(text: &str, wanted: char) -> (result: bool)
    ensures
        result == text@.contains(wanted),
{
    for c in it: text.chars()
        invariant
            it.seq() == text@,
            forall|i: int| 0 <= i < it.index() ==> text@[i] != wanted,
    {
        if c == wanted {
            assert(text@[it.index() as int] == wanted);
            return true;
        }
    }
    false
}

/// Splits `text` at every `separator`.
pub fn split(text: &str, separator: char) -> (result: Vec<String>)
    ensures
        views(result@) == segments(text@, separator),
{
    let mut result: Vec<String> = Vec::new();
    let mut current = String::new();
    for c in it: text.chars()
        invariant
            it.seq() == text@,
            views(result@).push(current@) == segments(text@.take(it.index() as int), separator),
    {
        let ghost before = text@.take(it.index() as int);
        let ghost after = text@.take(it.index() as int + 1);
        let ghost parts = views(result@);
        assert(after.drop_last() == before);
        assert(parts.push(current@).drop_last() == parts);
        if c == separator {
            result.push(current);
            current = String::new();
            assert(views(result@) == parts.push(result@.last()@));
        } else {
            current.push(c);
        }
    }
    assert(text@.take(text@.len() as int) == text@);
    let ghost parts = views(result@);
    result.push(current);
    assert(views(result@) == parts.push(current@));
    result
}

/// Joins all parts but the one at `left_out`, with `separator` between neighbours.
pub fn join_others(parts: &Vec<String>, left_out: usize, separator: char) -> (result: String)
    requires
        left_out < parts.len(),
    ensures
        result@ == joined(views(parts@).remove(left_out as int), separator),
{
    let mut result = String::new();
    let mut first = true;
    let ghost others = views(parts@).remove(left_out as int);
    for i in 0..parts.len()
        invariant
            left_out < parts.len(),
            others == views(parts@).remove(left_out as int),
            result@ == joined(others.take(if i <= left_out { i as int } else { i - 1 }), separator),
            first == (i == 0 || (i == 1 && left_out == 0)),
    {
        if i != left_out {
            let ghost at: int = if i <= left_out { i as int } else { i - 1 };
            assert(others.take(at + 1).drop_last() == others.take(at));
            assert(others[at] == parts@[i as int]@);
            if first {
                first = false;
            } else {
                result.push(separator);
            }
            result.append(parts[i].as_str());
        }
    }
    assert(others.take(others.len() as int) == others);
    result
}

/// Drops `prefix` from the front of `text`, where it stands there.
pub fn strip_prefix(text: &str, prefix: &str) -> (result: String)
    ensures
        result@ == without_prefix(text@, prefix@),
{
    let all = characters(text);
    let start = characters(prefix);
    if all.len() < start.len() {
        return text.to_owned();
    }
    for i in 0..start.len()
        invariant
            all@ == text@,
            start@ == prefix@,
            start.len() <= all.len(),
            forall|j: int| 0 <= j < i ==> all@[j] == start@[j],
    {
        if all[i] != start[i] {
            return text.to_owned();
        }
    }
    assert(prefix@ == text@.subrange(0, prefix@.len() as int));
    let mut result = String::new();
    for i in start.len()..all.len()
        invariant
            all@ == text@,
            start@ == prefix@,
            start.len() <= all.len(),
            result@ == text@.subrange(prefix@.len() as int, i as int),
    {
        result.push(all[i]);
    }
    assert(result@ == text@.skip(prefix@.len() as int));
    result
}

/// Nothing is left of a character that was replaced by another one.
pub proof fn lemma_replaced_lacks(text: Seq<char>, from: char, to: char)
    requires
        from != to,
    ensures
        !replaced(text, from, to).contains(from),
{
    assert forall|i: int| 0 <= i < text.len() implies replaced(text, from, to)[i] != from by {}
}

/// Replacing a character that does not occur changes nothing.
pub proof fn lemma_replaced_absent(text: Seq<char>, from: char, to: char)
    requires
        !text.contains(from),
    ensures
        replaced(text, from, to) == text,
{
    assert forall|i: int| 0 <= i < text.len() implies replaced(text, from, to)[i] == text[i] by {
        assert(text.contains(text[i]));
    }
    assert(replaced(text, from, to) =~= text);
}

/// Replacing back gives the text again exactly where the second character did not occur.
pub proof fn lemma_replaced_back(text: Seq<char>, from: char, to: char)
    requires
        from != to,
    ensures
        replaced(replaced(text, from, to), to, from) == text <==> !text.contains(to),
{
    let back = replaced(replaced(text, from, to), to, from);
    if text.contains(to) {
        let i = choose|i: int| 0 <= i < text.len() && text[i] == to;
        assert(back[i] == from);
    } else {
        assert forall|i: int| 0 <= i < text.len() implies back[i] == text[i] by {
            assert(text.contains(text[i]));
        }
        assert(back =~= text);
    }
}

/// Replacing works on both sides of a concatenation.
pub proof fn lemma_replaced_concat(left: Seq<char>, right: Seq<char>, from: char, to: char)
    ensures
        replaced(left + right, from, to) == replaced(left, from, to) + replaced(right, from, to),
{
    assert(replaced(left + right, from, to) =~= replaced(left, from, to) + replaced(
        right,
        from,
        to,
    ));
}

/// The parts of a split hold no separator, take their characters from the text, and give it back
/// when joined again.
pub proof fn lemma_segments(text: Seq<char>, separator: char)
    ensures
        segments(text, separator).len() >= 1,
        forall|i: int|
            0 <= i < segments(text, separator).len() ==> !(#[trigger] segments(
                text,
                separator,
            )[i]).contains(separator),
        forall|i: int, c: char|
            0 <= i < segments(text, separator).len() && (#[trigger] segments(
                text,
                separator,
            )[i]).contains(c) ==> #[trigger] text.contains(c),
        joined(segments(text, separator), separator) == text,
    decreases text.len(),
{
    let parts = segments(text, separator);
    if text.len() > 0 {
        let init = text.drop_last();
        let before = segments(init, separator);
        lemma_segments(init, separator);
        assert(text =~= init.push(text.last()));
        assert forall|c: char| init.contains(c) implies text.contains(c) by {
            let i = choose|i: int| 0 <= i < init.len() && init[i] == c;
            assert(text[i] == c);
        }
        assert(text.contains(text.last())) by {
            assert(text[text.len() - 1] == text.last());
        }
        if text.last() == separator {
            assert(parts.drop_last() =~= before);
        } else {
            let last = before.last().push(text.last());
            assert forall|c: char| last.contains(c) implies before.last().contains(c) || c
                == text.last() by {
                let i = choose|i: int| 0 <= i < last.len() && last[i] == c;
                if i < before.last().len() {
                    assert(before.last()[i] == c);
                }
            }
            assert(before.last() == before[before.len() - 1]);
            assert(parts.drop_last() =~= before.drop_last());
            if before.len() > 1 {
                assert(joined(before.drop_last(), separator).push(separator) + last =~= (joined(
                    before.drop_last(),
                    separator,
                ).push(separator) + before.last()).push(text.last()));
            }
        }
    }
}

/// A join starts with its first part.
pub proof fn lemma_joined_first(parts: Seq<Seq<char>>, separator: char)
    requires
        parts.len() >= 2,
    ensures
        joined(parts, separator) == parts[0].push(separator) + joined(parts.skip(1), separator),
    decreases parts.len(),
{
    let rest = parts.skip(1);
    reveal_with_fuel(joined, 2);
    if parts.len() == 2 {
        assert(rest =~= seq![parts[1]]);
        assert(parts.drop_last() =~= seq![parts[0]]);
    } else {
        lemma_joined_first(parts.drop_last(), separator);
        assert(parts.drop_last().skip(1) =~= rest.drop_last());
        assert((parts[0].push(separator) + joined(rest.drop_last(), separator)).push(separator)
            + parts.last() =~= parts[0].push(separator) + (joined(
            rest.drop_last(),
            separator,
        ).push(separator) + parts.last()));
    }
}

/// Replacing the separator of a join gives the join with the other separator.
pub proof fn lemma_joined_replaced(parts: Seq<Seq<char>>, from: char, to: char)
    requires
        forall|i: int| 0 <= i < parts.len() ==> !(#[trigger] parts[i]).contains(from),
    ensures
        replaced(joined(parts, from), from, to) == joined(parts, to),
    decreases parts.len(),
{
    if parts.len() == 0 {
        assert(replaced(Seq::empty(), from, to) =~= Seq::empty());
    } else if parts.len() == 1 {
        lemma_replaced_absent(parts[0], from, to);
    } else {
        let before = parts.drop_last();
        lemma_joined_replaced(before, from, to);
        lemma_replaced_absent(parts[parts.len() - 1], from, to);
        lemma_replaced_concat(joined(before, from).push(from), parts.last(), from, to);
        assert(replaced(joined(before, from).push(from), from, to) =~= replaced(
            joined(before, from),
            from,
            to,
        ).push(to));
    }
}

/// A text with a separator is its first part, the separator, and the join of the other parts; one
/// without is its own only part.
pub proof fn lemma_first_segment(text: Seq<char>, separator: char)
    ensures
        text.contains(separator) ==> {
            let first = segments(text, separator)[0];
            &&& segments(text, separator).len() >= 2
            &&& first.push(separator).is_prefix_of(text)
            &&& text.skip(first.len() as int + 1) == joined(
                segments(text, separator).skip(1),
                separator,
            )
        },
        !text.contains(separator) ==> segments(text, separator) == seq![text],
{
    let parts = segments(text, separator);
    lemma_segments(text, separator);
    if parts.len() == 1 {
        assert(parts =~= seq![text]);
        assert(!parts[0].contains(separator));
    } else {
        lemma_joined_first(parts, separator);
        let head = parts[0].push(separator);
        let tail = joined(parts.skip(1), separator);
        assert(text == head + tail);
        assert(text[parts[0].len() as int] == separator);
        assert(text.skip(parts[0].len() as int + 1) =~= tail);
        assert(head =~= text.subrange(0, head.len() as int));
    }
}

}

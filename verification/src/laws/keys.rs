//! What texts and keys are taken apart into, and what they are put together from.

use vstd::prelude::*;
use vstd::seq_lib::lemma_multiset_commutative;

use crate::text;

verus! {

/// Whether `part` stands in `key` behind exactly `index` slashes, between slashes or the ends of
/// the key: `before` is what comes in front of it, `after` what follows.
pub open spec fn stands_between(
    key: Seq<char>,
    index: nat,
    before: Seq<char>,
    part: Seq<char>,
    after: Seq<char>,
) -> bool {
    &&& key == before + part + after
    &&& before.to_multiset().count('/') == index
    &&& before.len() == 0 || before.last() == '/'
    &&& !part.contains('/')
    &&& after.len() == 0 || after.first() == '/'
}

/// `path` with an underscore in place of every slash.
pub open spec fn underscored(path: Seq<char>) -> Seq<char> {
    Seq::new(path.len(), |i: int| if path[i] == '/' { '_' } else { path[i] })
}

/// `id` with a slash in place of every underscore.
pub open spec fn slashed(id: Seq<char>) -> Seq<char> {
    Seq::new(id.len(), |i: int| if id[i] == '_' { '/' } else { id[i] })
}

/// `id` with a space in place of every underscore.
pub open spec fn spaced(id: Seq<char>) -> Seq<char> {
    Seq::new(id.len(), |i: int| if id[i] == '_' { ' ' } else { id[i] })
}

/// Replacing keeps every character in its place: the old one becomes the new one, all others stay.
pub proof fn law_replacing_works_on_each_character(
    input: &str,
    from: char,
    to: char,
    result: String,
    i: int,
)
    requires
        call_ensures(text::replace_char, (input, from, to), result),
    ensures
        result@.len() == input@.len(),
        0 <= i < input@.len() && input@[i] == from ==> result@[i] == to,
        0 <= i < input@.len() && input@[i] != from ==> result@[i] == input@[i],
{
}

/// A prefix is dropped once from a text that starts with it; any other text stays as it is.
pub proof fn law_prefix_is_dropped_once(input: &str, prefix: &str, rest: Seq<char>, result: String)
    requires
        call_ensures(text::strip_prefix, (input, prefix), result),
    ensures
        input@ == prefix@ + rest ==> result@ == rest,
        !prefix@.is_prefix_of(input@) ==> result@ == input@,
{
    if input@ == prefix@ + rest {
        assert(prefix@ =~= input@.subrange(0, prefix@.len() as int));
        assert(input@.skip(prefix@.len() as int) =~= rest);
    }
}

/// Two texts are the same exactly where they agree in length and in every character.
pub proof fn law_same_means_every_character(left: &str, right: &str, result: bool)
    requires
        call_ensures(text::same, (left, right), result),
    ensures
        result <==> left@.len() == right@.len() && forall|i: int|
            0 <= i < left@.len() ==> left@[i] == right@[i],
{
    if left@.len() == right@.len() && forall|i: int|
        0 <= i < left@.len() ==> left@[i] == right@[i] {
        assert(left@ =~= right@);
    }
}

/// A character is found exactly where it stands at some place.
pub proof fn law_character_is_found_where_it_stands(input: &str, wanted: char, result: bool)
    requires
        call_ensures(text::contains_char, (input, wanted), result),
    ensures
        result <==> exists|i: int| 0 <= i < input@.len() && input@[i] == wanted,
{
}

/// How often a character occurs in a concatenation.
proof fn lemma_count_concat(left: Seq<char>, right: Seq<char>, c: char)
    ensures
        (left + right).to_multiset().count(c) == left.to_multiset().count(c)
            + right.to_multiset().count(c),
{
    lemma_multiset_commutative(left, right);
}

/// How often a character occurs in a text with one more character.
proof fn lemma_count_push(left: Seq<char>, last: char, c: char)
    ensures
        left.push(last).to_multiset().count(c) == left.to_multiset().count(c) + (if last == c {
            1nat
        } else {
            0nat
        }),
{
    left.to_multiset_ensures();
}

/// A character that occurs is counted.
proof fn lemma_count_contains(text: Seq<char>, c: char)
    ensures
        text.contains(c) <==> text.to_multiset().count(c) > 0,
{
    text.to_multiset_ensures();
}

/// There is one part more than there are separators.
pub proof fn lemma_segment_count(text: Seq<char>, separator: char)
    ensures
        text::segments(text, separator).len() == text.to_multiset().count(separator) + 1,
    decreases text.len(),
{
    if text.len() == 0 {
        text.to_multiset_ensures();
        lemma_count_contains(text, separator);
    } else {
        lemma_segment_count(text.drop_last(), separator);
        text::lemma_segments(text.drop_last(), separator);
        assert(text =~= text.drop_last().push(text.last()));
        lemma_count_push(text.drop_last(), text.last(), separator);
    }
}

/// A text without the separator is its own only part.
pub proof fn lemma_segments_single(text: Seq<char>, separator: char)
    requires
        !text.contains(separator),
    ensures
        text::segments(text, separator) == seq![text],
{
    text::lemma_first_segment(text, separator);
}

/// Splitting on both sides of a separator.
pub proof fn lemma_segments_concat(left: Seq<char>, right: Seq<char>, separator: char)
    ensures
        text::segments(left.push(separator) + right, separator) == text::segments(left, separator)
            + text::segments(right, separator),
    decreases right.len(),
{
    let whole = left.push(separator) + right;
    let parts = text::segments(left, separator);
    if right.len() == 0 {
        assert(whole =~= left.push(separator));
        assert(whole.drop_last() =~= left);
        assert(parts.push(Seq::empty()) =~= parts + seq![Seq::<char>::empty()]);
    } else {
        let init = right.drop_last();
        lemma_segments_concat(left, init, separator);
        assert(whole.drop_last() =~= left.push(separator) + init);
        assert(whole.last() == right.last());
        let before = text::segments(init, separator);
        text::lemma_segments(init, separator);
        if right.last() == separator {
            assert((parts + before).push(Seq::empty()) =~= parts + before.push(Seq::empty()));
        } else {
            assert((parts + before).last() == before.last());
            assert((parts + before).drop_last().push(before.last().push(right.last())) =~= parts
                + before.drop_last().push(before.last().push(right.last())));
        }
    }
}

/// What splitting makes of a part that stands in a key, and of the rest of the key.
pub proof fn lemma_part_of_key(
    key: Seq<char>,
    index: nat,
    before: Seq<char>,
    part: Seq<char>,
    after: Seq<char>,
)
    requires
        stands_between(key, index, before, part, after),
    ensures
        index < text::segments(key, '/').len(),
        text::segments(key, '/')[index as int] == part,
        text::joined(text::segments(key, '/').remove(index as int), '/') == (if after.len() > 0 {
            before + after.skip(1)
        } else if before.len() > 0 {
            before.drop_last()
        } else {
            Seq::empty()
        }),
{
    let tail = part + after;
    let parts = text::segments(key, '/');
    lemma_segments_single(part, '/');
    // The parts from `part` on.
    let behind = if after.len() > 0 {
        text::segments(after.skip(1), '/')
    } else {
        Seq::empty()
    };
    if after.len() > 0 {
        assert(tail =~= part.push('/') + after.skip(1));
        lemma_segments_concat(part, after.skip(1), '/');
    } else {
        assert(tail =~= part);
    }
    assert(text::segments(tail, '/') =~= seq![part] + behind);
    // The parts in front of it.
    let ahead = if before.len() > 0 {
        text::segments(before.drop_last(), '/')
    } else {
        Seq::empty()
    };
    if before.len() > 0 {
        let front = before.drop_last();
        assert(before =~= front.push('/'));
        lemma_count_push(front, '/', '/');
        lemma_segment_count(front, '/');
        assert(key =~= front.push('/') + tail);
        lemma_segments_concat(front, tail, '/');
    } else {
        assert(key =~= tail);
        lemma_count_contains(before, '/');
    }
    assert(parts =~= ahead + seq![part] + behind);
    assert(ahead.len() == index);
    assert(parts.remove(index as int) =~= ahead + behind);
    if before.len() > 0 && after.len() > 0 {
        let front = before.drop_last();
        lemma_segments_concat(front, after.skip(1), '/');
        text::lemma_segments(front.push('/') + after.skip(1), '/');
    } else if before.len() > 0 {
        text::lemma_segments(before.drop_last(), '/');
        assert(ahead + behind =~= ahead);
    } else if after.len() > 0 {
        text::lemma_segments(after.skip(1), '/');
        assert(ahead + behind =~= behind);
        assert(before + after.skip(1) =~= after.skip(1));
    } else {
        assert(ahead + behind =~= Seq::empty());
    }
}

/// A key has a part behind `index` slashes as soon as it has that many slashes.
pub proof fn lemma_part_exists(key: Seq<char>, index: nat) -> (found: (
    Seq<char>,
    Seq<char>,
    Seq<char>,
))
    requires
        key.to_multiset().count('/') >= index,
    ensures
        stands_between(key, index, found.0, found.1, found.2),
    decreases key.len(),
{
    if key.len() == 0 {
        lemma_count_contains(key, '/');
        assert(key =~= key + key + key);
        (key, key, key)
    } else {
        let init = key.drop_last();
        let last = key.last();
        assert(key =~= init.push(last));
        lemma_count_push(init, last, '/');
        if init.to_multiset().count('/') >= index {
            let (before, part, after) = lemma_part_exists(init, index);
            if after.len() > 0 || last == '/' {
                assert(key =~= before + part + after.push(last));
                assert(after.push(last).first() == (if after.len() > 0 {
                    after.first()
                } else {
                    last
                }));
                (before, part, after.push(last))
            } else {
                assert(key =~= before + part.push(last) + after);
                assert(!part.push(last).contains('/')) by {
                    if part.push(last).contains('/') {
                        let i = choose|i: int|
                            0 <= i < part.push(last).len() && part.push(last)[i] == '/';
                        assert(part[i] == '/');
                    }
                }
                (before, part.push(last), after)
            }
        } else {
            assert(key =~= key + Seq::empty() + Seq::empty());
            (key, Seq::empty(), Seq::empty())
        }
    }
}

/// Splitting gives one part more than there are separators. The part with a given number is the
/// text that stands behind that many separators and holds none itself.
pub proof fn law_split_finds_the_parts_between_slashes(
    input: &str,
    result: Vec<String>,
    before: Seq<char>,
    part: Seq<char>,
    after: Seq<char>,
    index: nat,
)
    requires
        call_ensures(text::split, (input, '/'), result),
    ensures
        result.len() == input@.to_multiset().count('/') + 1,
        stands_between(input@, index, before, part, after) ==> result[index as int]@ == part,
{
    assert(text::views(result@).len() == result@.len());
    lemma_segment_count(input@, '/');
    if stands_between(input@, index, before, part, after) {
        lemma_part_of_key(input@, index, before, part, after);
        assert(text::views(result@)[index as int] == result@[index as int]@);
    }
}

/// Splitting a text in two at its first separator, and splitting on from there.
pub proof fn law_split_goes_on_behind_a_separator(
    separator: char,
    whole: &str,
    parts: Vec<String>,
    rest: &str,
    rest_parts: Vec<String>,
    first: Seq<char>,
    i: int,
)
    requires
        call_ensures(text::split, (whole, separator), parts),
        call_ensures(text::split, (rest, separator), rest_parts),
        !first.contains(separator),
        whole@ == first.push(separator) + rest@,
    ensures
        parts.len() == rest_parts.len() + 1,
        parts[0]@ == first,
        0 <= i < rest_parts.len() ==> parts[i + 1]@ == rest_parts[i]@,
{
    lemma_segments_concat(first, rest@, separator);
    lemma_segments_single(first, separator);
    let views = text::views(parts@);
    let rest_views = text::views(rest_parts@);
    assert(views == seq![first] + rest_views);
    assert(views.len() == parts.len() && rest_views.len() == rest_parts.len());
    assert(views[0] == parts@[0]@);
    if 0 <= i < rest_parts.len() {
        assert(views[i + 1] == parts@[i + 1]@);
        assert(rest_views[i] == rest_parts@[i]@);
    }
}

/// A text without a separator is its own only part.
pub proof fn law_text_without_separator_stays_whole(
    input: &str,
    separator: char,
    result: Vec<String>,
)
    requires
        call_ensures(text::split, (input, separator), result),
        !input@.contains(separator),
    ensures
        result.len() == 1,
        result[0]@ == input@,
{
    lemma_segments_single(input@, separator);
    let views = text::views(result@);
    assert(views.len() == result.len());
    assert(views[0] == result@[0]@);
}

/// Joining parts again: nothing of no parts, a single part as it is, and of more parts the first, a
/// separator, and the join of the others.
proof fn lemma_joined(parts: Seq<Seq<char>>, separator: char)
    ensures
        parts.len() == 0 ==> text::joined(parts, separator) == Seq::<char>::empty(),
        parts.len() == 1 ==> text::joined(parts, separator) == parts[0],
        parts.len() >= 2 ==> text::joined(parts, separator) == parts[0].push(separator)
            + text::joined(parts.skip(1), separator),
{
    if parts.len() >= 2 {
        text::lemma_joined_first(parts, separator);
    }
}

/// Joining all parts but one: with one part there is nothing to join, with two the other one is the
/// join.
pub proof fn law_join_of_few_parts(
    parts: &Vec<String>,
    left_out: usize,
    separator: char,
    result: String,
)
    requires
        left_out < parts.len(),
        call_ensures(text::join_others, (parts, left_out, separator), result),
    ensures
        parts.len() == 1 ==> result@.len() == 0,
        parts.len() == 2 ==> result@ == parts[1 - left_out]@,
{
    let views = text::views(parts@);
    let others = views.remove(left_out as int);
    lemma_joined(others, separator);
    if parts.len() == 2 {
        assert(others[0] == views[1 - left_out]);
        assert(views[1 - left_out] == parts@[1 - left_out]@);
    }
}

/// Joining all parts but one, over the first part: where it is not the one left out and another
/// part is joined behind it, the join is that part, a separator, and the join of the rest.
pub proof fn law_join_starts_with_the_first_part(
    parts: &Vec<String>,
    left_out: usize,
    separator: char,
    result: String,
    rest: &Vec<String>,
    rest_left_out: usize,
    rest_result: String,
)
    requires
        left_out < parts.len(),
        rest_left_out < rest.len(),
        call_ensures(text::join_others, (parts, left_out, separator), result),
        call_ensures(text::join_others, (rest, rest_left_out, separator), rest_result),
        left_out == rest_left_out + 1,
        rest@ == parts@.skip(1),
        rest.len() >= 2,
    ensures
        result@ == parts[0]@.push(separator) + rest_result@,
{
    let views = text::views(parts@);
    let others = views.remove(left_out as int);
    let rest_others = text::views(rest@).remove(rest_left_out as int);
    lemma_joined(others, separator);
    assert(others.skip(1) =~= rest_others);
    assert(others[0] == parts@[0]@);
}

/// Joining all parts but the first: the second part, a separator, and what joining without the
/// first two gives.
pub proof fn law_join_leaves_out_the_first_part(
    parts: &Vec<String>,
    separator: char,
    result: String,
    rest: &Vec<String>,
    rest_result: String,
)
    requires
        call_ensures(text::join_others, (parts, 0, separator), result),
        call_ensures(text::join_others, (rest, 0, separator), rest_result),
        parts.len() >= 3,
        rest@ == parts@.skip(1),
    ensures
        result@ == parts[1]@.push(separator) + rest_result@,
{
    let views = text::views(parts@);
    let others = views.remove(0);
    let rest_others = text::views(rest@).remove(0);
    lemma_joined(others, separator);
    assert(others.skip(1) =~= rest_others);
    assert(others[0] == parts@[1]@);
}

/// Replacing by underscores, slashes and spaces, character by character.
pub proof fn lemma_replacements(path: Seq<char>)
    ensures
        text::replaced(path, '/', '_') == underscored(path),
        text::replaced(path, '_', '/') == slashed(path),
        text::replaced(path, '_', ' ') == spaced(path),
{
    assert(text::replaced(path, '/', '_') =~= underscored(path));
    assert(text::replaced(path, '_', '/') =~= slashed(path));
    assert(text::replaced(path, '_', ' ') =~= spaced(path));
}

}

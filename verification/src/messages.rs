//! The lines that travel between the runner and its clients: a tag, a name
//! and a value, with commas between.

use crate::search::{
    first_position, lemma_first_position, lemma_first_position_found, lemma_first_position_none,
};
use crate::text::str_equal;
use vstd::prelude::*;
use vstd::string::StrSliceExecFns;

verus! {

/// The tag of a line that sets a control of the target to a value.
pub const DIRECT_CONTROL_TAG: &'static str = "direct_control";

/// The tag of a line that reports where a control of the target stands.
pub const SYNC_CONTROL_TAG: &'static str = "sync_control";

/// Where the first comma of `text` stands; the length of `text` where it
/// has none.
pub open spec fn first_comma(text: Seq<char>) -> int
    decreases text.len(),
{
    if text.len() == 0 {
        0
    } else if text[0] == ',' {
        0
    } else {
        1 + first_comma(text.drop_first())
    }
}

/// The first comma lies within the text or at its end, and no comma stands
/// before it.
pub proof fn lemma_first_comma(text: Seq<char>)
    ensures
        0 <= first_comma(text) <= text.len(),
        first_comma(text) < text.len() ==> text[first_comma(text)] == ',',
        forall|i: int| 0 <= i < first_comma(text) ==> text[i] != ',',
    decreases text.len(),
{
    if text.len() > 0 && text[0] != ',' {
        let rest = text.drop_first();
        lemma_first_comma(rest);
        assert forall|i: int| 0 <= i < first_comma(text) implies text[i] != ',' by {
            if i > 0 {
                assert(text[i] == rest[i - 1]);
            }
        }
    }
}

/// The three fields of a line that has exactly two commas.
pub open spec fn three_fields(line: Seq<char>) -> Option<(Seq<char>, Seq<char>, Seq<char>)> {
    let first = first_comma(line);
    if first == line.len() {
        None
    } else {
        let rest = line.skip(first + 1);
        let second = first_comma(rest);
        if second == rest.len() {
            None
        } else {
            let tail = rest.skip(second + 1);
            if first_comma(tail) < tail.len() {
                None
            } else {
                Some((line.take(first), rest.take(second), tail))
            }
        }
    }
}

/// The name and the value of a line that has exactly three fields of which
/// the first is `tag`.
pub open spec fn tagged_fields(line: Seq<char>, tag: Seq<char>) -> Option<(Seq<char>, Seq<char>)> {
    match three_fields(line) {
        Some((head, name, value)) => if head == tag {
            Some((name, value))
        } else {
            None
        },
        None => None,
    }
}

/// The line made of a tag, a name and a value.
pub open spec fn tagged_line(tag: Seq<char>, name: Seq<char>, value: Seq<char>) -> Seq<char> {
    tag + seq![','] + name + seq![','] + value
}

/// A line made of three fields without commas is taken apart into these
/// fields again.
pub proof fn lemma_tagged_line_round_trip(tag: Seq<char>, name: Seq<char>, value: Seq<char>)
    requires
        !tag.contains(','),
        !name.contains(','),
        !value.contains(','),
    ensures
        tagged_fields(tagged_line(tag, name, value), tag) == Some((name, value)),
{
    let line = tagged_line(tag, name, value);
    lemma_first_comma_of(tag, name + seq![','] + value);
    assert(line =~= tag + seq![','] + (name + seq![','] + value));
    let rest = line.skip(tag.len() as int + 1);
    assert(rest =~= name + seq![','] + value);
    lemma_first_comma_of(name, value);
    let tail = rest.skip(name.len() as int + 1);
    assert(tail =~= value);
    lemma_first_comma(value);
    assert(line.take(tag.len() as int) =~= tag);
}

/// In a text without commas that is followed by a comma, the first comma
/// is the one that follows.
proof fn lemma_first_comma_of(head: Seq<char>, rest: Seq<char>)
    requires
        !head.contains(','),
    ensures
        first_comma(head + seq![','] + rest) == head.len(),
    decreases head.len(),
{
    let text = head + seq![','] + rest;
    if head.len() > 0 {
        assert(text.drop_first() =~= head.drop_first() + seq![','] + rest);
        lemma_first_comma_of(head.drop_first(), rest);
    }
}

/// Where the first comma at or after `from` stands; the length of the line
/// where there is none.
fn find_comma(line: &str, length: usize, from: usize) -> (at: usize)
    requires
        length == line@.len(),
        from <= length,
    ensures
        at == from + first_comma(line@.skip(from as int)),
        from <= at <= length,
{
    let mut at: usize = from;
    while at < length
        invariant
            from <= at <= length,
            length == line@.len(),
            first_comma(line@.skip(from as int)) == (at - from) + first_comma(
                line@.skip(at as int),
            ),
        decreases length - at,
    {
        let c = line.get_char(at);
        proof {
            let here = line@.skip(at as int);
            assert(here.drop_first() =~= line@.skip(at + 1));
        }
        if c == ',' {
            return at;
        }
        at += 1;
    }
    at
}

/// Takes a line apart. Gives the name and the value where the line has
/// exactly three fields and the first of them is `tag`.
pub fn parse_tagged_line(line: &str, tag: &str) -> (fields: Option<(String, String)>)
    ensures
        match fields {
            Some((name, value)) => tagged_fields(line@, tag@) == Some((name@, value@)),
            None => tagged_fields(line@, tag@) is None,
        },
{
    let length = line.unicode_len();
    let first = find_comma(line, length, 0);
    assert(line@.skip(0) =~= line@);
    if first == length {
        return None;
    }
    let second = find_comma(line, length, first + 1);
    let ghost rest = line@.skip(first + 1);
    if second == length {
        return None;
    }
    let third = find_comma(line, length, second + 1);
    let ghost tail = rest.skip(second - first);
    assert(tail =~= line@.skip(second + 1));
    if third < length {
        return None;
    }
    let head = line.substring_char(0, first);
    if !str_equal(head, tag) {
        return None;
    }
    let name = line.substring_char(first + 1, second);
    let value = line.substring_char(second + 1, length);
    Some((String::from_str(name), String::from_str(value)))
}

/// For each name the value of the last of the lines that are tagged with
/// `tag` and carry that name.
pub open spec fn latest_values(lines: Seq<Seq<char>>, tag: Seq<char>) -> Map<Seq<char>, Seq<char>>
    decreases lines.len(),
{
    if lines.len() == 0 {
        Map::empty()
    } else {
        let before = latest_values(lines.drop_last(), tag);
        match tagged_fields(lines.last(), tag) {
            Some((name, value)) => before.insert(name, value),
            None => before,
        }
    }
}

/// Whether a pair is one for `name`.
pub open spec fn is_for(name: Seq<char>) -> spec_fn((Seq<char>, Seq<char>)) -> bool {
    |pair: (Seq<char>, Seq<char>)| pair.0 == name
}

/// The pairs with `value` for `name`: in place of the value that the name
/// had, or as a new pair at the end.
pub open spec fn with_value(
    pairs: Seq<(Seq<char>, Seq<char>)>,
    name: Seq<char>,
    value: Seq<char>,
) -> Seq<(Seq<char>, Seq<char>)> {
    match first_position(pairs, is_for(name)) {
        Some(i) => pairs.update(i, (name, value)),
        None => pairs.push((name, value)),
    }
}

/// The names that the lines tagged with `tag` carry, in the order in which
/// they first occur, each with the value of the last line that carries
/// it.
pub open spec fn latest_pairs(lines: Seq<Seq<char>>, tag: Seq<char>) -> Seq<(Seq<char>, Seq<char>)>
    decreases lines.len(),
{
    if lines.len() == 0 {
        Seq::empty()
    } else {
        let before = latest_pairs(lines.drop_last(), tag);
        match tagged_fields(lines.last(), tag) {
            Some((name, value)) => with_value(before, name, value),
            None => before,
        }
    }
}

/// Whether the pairs hold each name once, and hold exactly the names and
/// values of `values`.
pub open spec fn lists(pairs: Seq<(Seq<char>, Seq<char>)>, values: Map<Seq<char>, Seq<char>>) -> bool {
    &&& forall|i: int, j: int| 0 <= i < j < pairs.len() ==> pairs[i].0 != pairs[j].0
    &&& forall|i: int|
        0 <= i < pairs.len() ==> values.dom().contains((#[trigger] pairs[i]).0) && values[pairs[i].0]
            == pairs[i].1
    &&& forall|name: Seq<char>| #[trigger]
        values.dom().contains(name) ==> exists|i: int|
            0 <= i < pairs.len() && (#[trigger] pairs[i]).0 == name
}

/// Pairs that list some values list, with a value for a name, the values
/// with that value for that name too.
pub proof fn lemma_with_value_lists(
    pairs: Seq<(Seq<char>, Seq<char>)>,
    values: Map<Seq<char>, Seq<char>>,
    name: Seq<char>,
    value: Seq<char>,
)
    requires
        lists(pairs, values),
    ensures
        lists(with_value(pairs, name, value), values.insert(name, value)),
{
    let after = with_value(pairs, name, value);
    lemma_first_position(pairs, is_for(name));
    let at = match first_position(pairs, is_for(name)) {
        Some(i) => i,
        None => pairs.len() as int,
    };
    assert forall|n: Seq<char>| #[trigger]
        values.insert(name, value).dom().contains(n) implies exists|i: int|
        0 <= i < after.len() && (#[trigger] after[i]).0 == n by {
        if n == name {
            assert(after[at].0 == n);
        } else {
            let i = choose|i: int| 0 <= i < pairs.len() && (#[trigger] pairs[i]).0 == n;
            assert(after[i].0 == n);
        }
    }
}

/// The latest pairs hold each name once, and hold exactly the latest
/// values.
pub proof fn lemma_latest_pairs_list_latest_values(lines: Seq<Seq<char>>, tag: Seq<char>)
    ensures
        lists(latest_pairs(lines, tag), latest_values(lines, tag)),
    decreases lines.len(),
{
    if lines.len() > 0 {
        lemma_latest_pairs_list_latest_values(lines.drop_last(), tag);
        match tagged_fields(lines.last(), tag) {
            Some((name, value)) => {
                lemma_with_value_lists(
                    latest_pairs(lines.drop_last(), tag),
                    latest_values(lines.drop_last(), tag),
                    name,
                    value,
                );
            },
            None => {},
        }
    }
}

/// The texts of the lines.
pub open spec fn texts(lines: Seq<String>) -> Seq<Seq<char>> {
    Seq::new(lines.len(), |i: int| lines[i]@)
}

/// The texts of the pairs.
pub open spec fn pair_texts(pairs: Seq<(String, String)>) -> Seq<(Seq<char>, Seq<char>)> {
    Seq::new(pairs.len(), |i: int| (pairs[i].0@, pairs[i].1@))
}

/// Puts `value` for `name` into the pairs.
fn put_value(pairs: &mut Vec<(String, String)>, name: String, value: String)
    ensures
        pair_texts(final(pairs)@) == with_value(pair_texts(old(pairs)@), name@, value@),
{
    let ghost before = pair_texts(pairs@);
    let ghost wanted = is_for(name@);
    let mut i: usize = 0;
    while i < pairs.len()
        invariant
            i <= pairs.len(),
            pairs@ == old(pairs)@,
            before == pair_texts(pairs@),
            wanted == is_for(name@),
            forall|j: int| 0 <= j < i ==> !wanted(#[trigger] before[j]),
        decreases pairs.len() - i,
    {
        if str_equal(pairs[i].0.as_str(), name.as_str()) {
            proof {
                lemma_first_position_found(before, wanted, i as int);
            }
            pairs.set(i, (name, value));
            return ;
        }
        i += 1;
    }
    proof {
        lemma_first_position_none(before, wanted);
    }
    pairs.push((name, value));
}

/// Reads the lines in their order and keeps, for each name, the value of
/// the last line that is tagged with `tag` and carries that name. Lines
/// that are not of that form are passed over. The names come in the order
/// in which they first occur.
pub fn latest_tagged_values(lines: &Vec<String>, tag: &str) -> (pairs: Vec<(String, String)>)
    ensures
        pair_texts(pairs@) == latest_pairs(texts(lines@), tag@),
{
    let ghost all = texts(lines@);
    let mut pairs: Vec<(String, String)> = Vec::new();
    let mut k: usize = 0;
    while k < lines.len()
        invariant
            k <= lines.len(),
            all == texts(lines@),
            pair_texts(pairs@) == latest_pairs(all.take(k as int), tag@),
        decreases lines.len() - k,
    {
        proof {
            assert(all.take(k + 1).drop_last() =~= all.take(k as int));
        }
        match parse_tagged_line(lines[k].as_str(), tag) {
            Some((name, value)) => {
                put_value(&mut pairs, name, value);
            },
            None => {},
        }
        k += 1;
    }
    assert(all.take(lines.len() as int) =~= all);
    pairs
}

/// Puts a line together from a tag, a name and a value.
pub fn tagged_line_of(tag: &str, name: &str, value: &str) -> (line: String)
    ensures
        line@ == tagged_line(tag@, name@, value@),
{
    proof {
        reveal_strlit(",");
    }
    let mut line = String::from_str(tag);
    line.append(",");
    line.append(name);
    line.append(",");
    line.append(value);
    line
}

} // verus!

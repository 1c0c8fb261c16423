//! What holds of JSON values, of texts and of counts.

use vstd::prelude::*;
use crate::codec::{document_view, number_as_u64};
use crate::counts::{ascending, count_of, count_text, counts_text, entry_of, kept, total};
use crate::failure::{in_context, Failure};
use crate::json::{
    array_of, bool_member, bool_of, list_view, members_view, option_view, str_view, text_of,
    u64_member, u64_of, Json, JsonView,
};
use crate::nodes::refs_view;
use crate::protocol::payload_view;
use crate::text::{
    bool_text, decimal, digit, hexadecimal, hexadecimal_eight, joined, padded, parts_below,
    text_below, text_below_irreflexive,
};

verus! {

/// A value has exactly the members that it holds as an object, and no other value has members.
pub proof fn members_are_held_by_objects(value: JsonView, name: Seq<char>, found: JsonView)
    ensures
        value.member(name) == Some(found) <==> (value matches JsonView::Object(members)
            && members.contains_pair(name, found)),
{
}

/// A member of a member is reached through the outer one, and in no other way.
pub proof fn members_are_reached_one_by_one(
    value: JsonView,
    outer: Seq<char>,
    inner: Seq<char>,
    found: JsonView,
)
    ensures
        value.member_of_member(outer, inner) == Some(found) <==> (value.member(
            outer,
        ) matches Some(between) && between.member(inner) == Some(found)),
{
}

/// Each kind of value is told apart from every other kind.
pub proof fn kinds_are_told_apart(
    value: Option<JsonView>,
    b: bool,
    n: u64,
    text: Seq<char>,
    items: Seq<JsonView>,
)
    ensures
        bool_of(value) == Some(b) <==> value == Some(JsonView::Bool(b)),
        u64_of(value) == Some(n) <==> value == Some(JsonView::Unsigned(n)),
        text_of(value) == Some(text) <==> value == Some(JsonView::Text(text)),
        array_of(value) == Some(items) <==> value == Some(JsonView::Array(items)),
{
}

/// A member counts as true if and only if it is the truth value `true`.
pub proof fn only_true_is_true(value: JsonView, name: Seq<char>)
    ensures
        bool_member(value, name) <==> value.member(name) == Some(JsonView::Bool(true)),
{
}

/// A member counts as a number other than zero if and only if it is that number.
pub proof fn only_numbers_count(value: JsonView, name: Seq<char>, n: u64)
    requires
        n != 0,
    ensures
        u64_member(value, name) == n <==> value.member(name) == Some(JsonView::Unsigned(n)),
{
}

/// A value stands for what it holds, and a list for what its items stand for, in their order.
pub proof fn values_stand_for_what_they_hold(json: Json)
    ensures
        match json {
            Json::Null => json@ == JsonView::Null,
            Json::Bool(b) => json@ == JsonView::Bool(b),
            Json::Unsigned(n) => json@ == JsonView::Unsigned(n),
            Json::Number(number) => match number_as_u64(number) {
                Some(n) => json@ == JsonView::Unsigned(n),
                None => json@ == JsonView::Number(number),
            },
            Json::Text(text) => json@ == JsonView::Text(text@),
            Json::Array(items) => json@ matches JsonView::Array(views) && views.len()
                == items@.len() && forall|i: int|
                0 <= i < views.len() ==> #[trigger] views[i] == items@[i]@,
            Json::Object(members) => json@ == JsonView::Object(members_view(members@)),
        },
{
}

/// A list of values stands for what each of them stands for, in their order.
pub proof fn lists_stand_for_their_items(list: Seq<Json>, i: int)
    requires
        0 <= i < list.len(),
    ensures
        list_view(list).len() == list.len(),
        list_view(list)[i] == list[i]@,
{
}

/// What is there is seen through references and results as it is.
pub proof fn contents_are_seen_as_they_are(
    json: Json,
    text: &str,
    message: String,
    failure: Failure,
    list: Seq<&Json>,
    i: int,
)
    ensures
        option_view(Some(&json)) == Some(json@),
        option_view(None) is None,
        str_view(Some(text)) == Some(text@),
        str_view(None) is None,
        document_view(Ok(json)) == Ok::<JsonView, Seq<char>>(json@),
        document_view(Err(message)) == Err::<JsonView, Seq<char>>(message@),
        payload_view(Ok(json)) == Ok::<JsonView, Seq<Seq<char>>>(json@),
        payload_view(Err(failure)) == Err::<JsonView, Seq<Seq<char>>>(failure@),
        refs_view(list).len() == list.len(),
        0 <= i < list.len() ==> refs_view(list)[i] == list[i]@,
{
}

/// Of the members with one name the last one counts.
pub proof fn the_last_member_counts(members: Seq<(String, Json)>, i: int)
    requires
        0 <= i < members.len(),
        forall|j: int| i < j < members.len() ==> (#[trigger] members[j]).0@ != members[i].0@,
    ensures
        members_view(members).contains_pair(members[i].0@, members[i].1@),
    decreases members.len(),
{
    if i < members.len() - 1 {
        let shorter = members.drop_last();
        assert(members[members.len() - 1].0@ != members[i].0@);
        assert forall|j: int| i < j < shorter.len() implies (#[trigger] shorter[j]).0@
            != shorter[i].0@ by {
            assert(members[j].0@ != members[i].0@);
        }
        the_last_member_counts(shorter, i);
    }
}

/// An object has no member that was not given to it.
pub proof fn members_were_given(members: Seq<(String, Json)>, name: Seq<char>)
    requires
        members_view(members).contains_key(name),
    ensures
        exists|i: int| 0 <= i < members.len() && (#[trigger] members[i]).0@ == name,
    decreases members.len(),
{
    if members.len() > 0 {
        let last = members.len() - 1;
        if members[last].0@ != name {
            members_were_given(members.drop_last(), name);
            let i = choose|i: int|
                0 <= i < members.drop_last().len() && (#[trigger] members.drop_last()[i]).0@
                    == name;
            assert(members[i].0@ == name);
        }
    }
}

/// A failure is told by its message and then by its causes in their order, and seen from further
/// out it is the cause of what is told there.
pub proof fn failures_are_told_from_outside_in(
    failure: Failure,
    outer: Seq<char>,
    inner: Seq<Seq<char>>,
    i: int,
)
    ensures
        failure@.len() == failure.causes@.len() + 1,
        failure@[0] == failure.message@,
        0 <= i < failure.causes@.len() ==> failure@[i + 1] == failure.causes@[i]@,
        in_context(outer, inner).len() == inner.len() + 1,
        in_context(outer, inner).first() == outer,
        in_context(outer, inner).drop_first() == inner,
{
    assert(in_context(outer, inner).drop_first() =~= inner);
}

/// The digits are the ten figures and then the small letters from `a`.
pub proof fn digits_are_figures_and_letters(d: int)
    requires
        0 <= d < 16,
    ensures
        d < 10 ==> digit(d) as int == '0' as int + d,
        d >= 10 ==> digit(d) as int == 'a' as int + (d - 10),
{
    reveal_strlit("0123456789abcdef");
}

/// In decimal each digit weighs ten times the one after it.
pub proof fn decimal_goes_by_tens(n: nat, d: nat)
    requires
        d < 10,
    ensures
        decimal(d).len() == 1,
        decimal(d)[0] as int == '0' as int + d,
        n > 0 ==> decimal(10 * n + d).len() > 1,
        n > 0 ==> decimal(10 * n + d).drop_last() == decimal(n),
        n > 0 ==> decimal(10 * n + d).last() as int == '0' as int + d,
{
    digits_are_figures_and_letters(d as int);
    if n > 0 {
        let all = 10 * n + d;
        assert(all / 10 == n && all % 10 == d);
        assert(decimal(all) == decimal(n).push(digit(d as int)));
        assert(decimal(all).drop_last() =~= decimal(n));
        assert(decimal(n).len() > 0);
    }
}

/// In hexadecimal each digit weighs sixteen times the one after it.
pub proof fn hexadecimal_goes_by_sixteens(n: nat, d: nat)
    requires
        d < 16,
    ensures
        hexadecimal(d).len() == 1,
        d < 10 ==> hexadecimal(d)[0] as int == '0' as int + d,
        d >= 10 ==> hexadecimal(d)[0] as int == 'a' as int + (d - 10),
        n > 0 ==> hexadecimal(16 * n + d) == hexadecimal(n) + hexadecimal(d),
{
    digits_are_figures_and_letters(d as int);
    if n > 0 {
        let all = 16 * n + d;
        assert(all / 16 == n && all % 16 == d);
        assert(hexadecimal(all) =~= hexadecimal(n) + hexadecimal(d));
    }
}

/// A home id is its number in hexadecimal behind as many zeros as make eight digits.
pub proof fn home_ids_are_filled_with_zeros(n: nat, i: int)
    ensures
        hexadecimal_eight(n).len() == if hexadecimal(n).len() < 8 {
            8
        } else {
            hexadecimal(n).len()
        },
        hexadecimal_eight(n).skip(hexadecimal_eight(n).len() - hexadecimal(n).len())
            == hexadecimal(n),
        0 <= i < hexadecimal_eight(n).len() - hexadecimal(n).len() ==> hexadecimal_eight(n)[i]
            == '0',
{
    assert(hexadecimal_eight(n).skip(hexadecimal_eight(n).len() - hexadecimal(n).len())
        =~= hexadecimal(n));
}

/// A column begins with its text, is as wide as was asked unless the text is wider, and is filled
/// up with spaces.
pub proof fn columns_are_filled_with_spaces(text: Seq<char>, width: nat, i: int)
    ensures
        padded(text, width).len() == if text.len() < width {
            width
        } else {
            text.len()
        },
        padded(text, width).take(text.len() as int) == text,
        text.len() <= i < padded(text, width).len() ==> padded(text, width)[i] == ' ',
{
    assert(padded(text, width).take(text.len() as int) =~= text);
}

/// Truth values are told in the words for them.
pub proof fn truth_is_told_in_words(b: bool)
    ensures
        b ==> bool_text(b) == "true"@,
        !b ==> bool_text(b) == "false"@,
{
}

/// Texts are joined in their order, with one separator between neighbours and none elsewhere.
pub proof fn separators_stand_between(a: Seq<Seq<char>>, b: Seq<Seq<char>>, separator: Seq<char>)
    ensures
        joined(Seq::empty(), separator) == Seq::<char>::empty(),
        a.len() == 1 ==> joined(a, separator) == a[0],
        a.len() > 0 && b.len() > 0 ==> joined(a + b, separator) == joined(a, separator)
            + separator + joined(b, separator),
    decreases b.len(),
{
    if a.len() > 0 && b.len() == 1 {
        assert((a + b).drop_last() =~= a);
    } else if a.len() > 0 && b.len() > 1 {
        separators_stand_between(a, b.drop_last(), separator);
        assert((a + b).drop_last() =~= a + b.drop_last());
        assert(joined(a + b, separator) =~= joined(a, separator) + separator + joined(
            b,
            separator,
        ));
    }
}

/// The first difference between two texts decides on their order, by code point.
pub proof fn the_first_difference_decides(
    common: Seq<char>,
    x: char,
    y: char,
    rest: Seq<char>,
    other: Seq<char>,
)
    requires
        x != y,
    ensures
        text_below(common + seq![x] + rest, common + seq![y] + other) <==> (x as u32) < (
        y as u32),
{
    let a = common + seq![x] + rest;
    let b = common + seq![y] + other;
    let n = common.len() as int;
    assert(a[n] == x && b[n] == y);
    if (x as u32) < (y as u32) {
        assert(parts_below(a, b, n));
    } else if text_below(a, b) {
        let k = choose|k: int| parts_below(a, b, k);
        if k > n {
            assert(a[n] == b[n]);
        } else if k < n {
            assert(a[k] == common[k] && b[k] == common[k]);
        }
    }
}

/// A text comes before every longer text that begins with it.
pub proof fn the_beginning_comes_first(text: Seq<char>, rest: Seq<char>)
    requires
        rest.len() > 0,
    ensures
        text_below(text, text + rest),
        !text_below(text + rest, text),
{
    assert(parts_below(text, text + rest, text.len() as int));
    if text_below(text + rest, text) {
        let k = choose|k: int| parts_below(text + rest, text, k);
        assert((text + rest)[k] == text[k]);
    }
}

/// In entries in order a name has a count if and only if it stands with that count.
pub proof fn counts_are_found_under_their_names(
    entries: Seq<(Seq<char>, usize)>,
    name: Seq<char>,
    count: usize,
)
    requires
        ascending(entries),
    ensures
        entry_of(entries, name) == Some(count) <==> entries.contains((name, count)),
    decreases entries.len(),
{
    if entries.len() > 0 {
        let shorter = entries.drop_last();
        let last = entries.len() - 1;
        assert(ascending(shorter));
        counts_are_found_under_their_names(shorter, name, count);
        if entries.contains((name, count)) {
            let i = choose|i: int| 0 <= i < entries.len() && entries[i] == (name, count);
            if i < last {
                assert(shorter[i] == (name, count));
                assert(text_below(entries[i].0, entries[last].0));
                text_below_irreflexive(name);
            }
        }
        if entry_of(entries, name) == Some(count) {
            if entries[last].0 == name {
                assert(entries[last] == (name, count));
            } else {
                let i = choose|i: int| 0 <= i < shorter.len() && shorter[i] == (name, count);
                assert(entries[i] == (name, count));
            }
        }
    }
}

/// Entries in order have each name once, below all names behind it. What each counts, and what all
/// count together, is the sum over the entries.
pub proof fn entries_in_order(
    entries: Seq<(Seq<char>, usize)>,
    entry: (Seq<char>, usize),
    i: int,
    j: int,
)
    ensures
        ascending(entries) && 0 <= i < j < entries.len() ==> text_below(
            entries[i].0,
            entries[j].0,
        ) && entries[i].0 != entries[j].0,
        kept(entries) ==> ascending(entries),
        kept(entries) && 0 <= i < entries.len() ==> entries[i].1 > 0,
        entry_of(entries, entry.0) == Some(entry.1) ==> count_of(entries, entry.0) == entry.1,
        entry_of(entries, entry.0) is None ==> count_of(entries, entry.0) == 0,
        total(Seq::empty()) == 0,
        total(entries.push(entry)) == total(entries) + entry.1,
{
    if ascending(entries) && 0 <= i < j < entries.len() {
        assert(text_below(entries[i].0, entries[j].0));
        text_below_irreflexive(entries[i].0);
    }
    assert(entries.push(entry).drop_last() =~= entries);
}

/// Counts are shown as `name=count`, one after the other with a space between any two.
pub proof fn counts_are_shown_in_their_order(
    before: Seq<(Seq<char>, usize)>,
    entry: (Seq<char>, usize),
)
    ensures
        count_text(entry) == entry.0 + "="@ + decimal(entry.1 as nat),
        counts_text(Seq::empty()) == Seq::<char>::empty(),
        counts_text(seq![entry]) == entry.0 + "="@ + decimal(entry.1 as nat),
        before.len() > 0 ==> counts_text(before.push(entry)) == counts_text(before) + " "@
            + entry.0 + "="@ + decimal(entry.1 as nat),
{
    let shown = |entry: (Seq<char>, usize)| count_text(entry);
    assert(Seq::<(Seq<char>, usize)>::empty().map_values(shown) =~= Seq::empty());
    assert(seq![entry].map_values(shown) =~= seq![count_text(entry)]);
    assert(before.push(entry).map_values(shown) =~= before.map_values(shown) + seq![
        count_text(entry),
    ]);
    separators_stand_between(before.map_values(shown), seq![count_text(entry)], " "@);
    separators_stand_between(seq![count_text(entry)], before.map_values(shown), " "@);
    assert(before.len() > 0 ==> counts_text(before.push(entry)) =~= counts_text(before) + " "@
        + entry.0 + "="@ + decimal(entry.1 as nat));
}

} // verus!

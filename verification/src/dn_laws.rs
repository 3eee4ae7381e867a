use crate::collect::{all_or_first_error, lemma_all_ok, lemma_first_error};
use crate::dn::{
    dn_element, dn_pair, group_dn, group_id_in_dn, name_in_unit, parse_dn, user_dn, user_id_in_dn,
};
use crate::error::ErrorView;
use crate::text::{join_with, law_join_then_split, law_split_then_join, split_on};
use vstd::prelude::*;

verus! {

/// `text` can stand as a name or a value in a distinguished name.
pub open spec fn is_plain(text: Seq<char>) -> bool {
    !text.contains(',') && !text.contains('=')
}

/// One element of a distinguished name.
pub open spec fn format_element(pair: (Seq<char>, Seq<char>)) -> Seq<char> {
    pair.0.push('=') + pair.1
}

/// The distinguished name with the given names and values.
pub open spec fn format_dn(parts: Seq<(Seq<char>, Seq<char>)>) -> Seq<char> {
    join_with(parts.map_values(|pair: (Seq<char>, Seq<char>)| format_element(pair)), ',')
}

/// There is at least one element, and every name and value is plain.
pub open spec fn plain_parts(parts: Seq<(Seq<char>, Seq<char>)>) -> bool {
    &&& parts.len() > 0
    &&& forall|i: int|
        0 <= i < parts.len() ==> is_plain((#[trigger] parts[i]).0) && is_plain(parts[i].1)
}

proof fn lemma_element_parses(pair: (Seq<char>, Seq<char>))
    requires
        is_plain(pair.0),
        is_plain(pair.1),
    ensures
        dn_element(format_element(pair)) == Ok::<_, ErrorView>(pair),
        !format_element(pair).contains(','),
{
    let pieces = seq![pair.0, pair.1];
    let element = format_element(pair);
    assert(pieces.drop_last() =~= seq![pair.0]);
    assert(join_with(pieces, '=') =~= element) by {
        reveal_with_fuel(join_with, 2);
    }
    law_join_then_split(pieces, '=');
    if element.contains(',') {
        let k = choose|k: int| 0 <= k < element.len() && element[k] == ',';
        if k < pair.0.len() {
            assert(pair.0[k] == ',');
        } else {
            assert(k != pair.0.len());
            assert(pair.1[k - pair.0.len() - 1] == ',');
        }
    }
}

proof fn lemma_parsed_element(element: Seq<char>, pair: (Seq<char>, Seq<char>))
    requires
        dn_element(element) == Ok::<_, ErrorView>(pair),
        !element.contains(','),
    ensures
        element == format_element(pair),
        is_plain(pair.0),
        is_plain(pair.1),
{
    let pieces = split_on(element, '=');
    law_split_then_join(element, '=');
    assert(pieces.drop_last() =~= seq![pair.0]);
    assert(join_with(pieces, '=') =~= format_element(pair)) by {
        reveal_with_fuel(join_with, 2);
    }
    assert(!pieces[0].contains('=') && !pieces[1].contains('='));
    if pair.0.contains(',') {
        let k = choose|k: int| 0 <= k < pair.0.len() && pair.0[k] == ',';
        assert(element[k] == ',');
    }
    if pair.1.contains(',') {
        let k = choose|k: int| 0 <= k < pair.1.len() && pair.1[k] == ',';
        assert(element[pair.0.len() + 1 + k] == ',');
    }
}

/// A distinguished name that can be parsed is the one that its names and values give, and those
/// are plain.
pub proof fn law_parse_then_format(dn: Seq<char>)
    requires
        parse_dn(dn) is Ok,
    ensures
        plain_parts(parse_dn(dn)->Ok_0),
        format_dn(parse_dn(dn)->Ok_0) == dn,
{
    let elements = split_on(dn, ',');
    let results = elements.map_values(|element: Seq<char>| dn_element(element));
    let parts = parse_dn(dn)->Ok_0;
    law_split_then_join(dn, ',');
    lemma_all_ok(results);
    assert forall|i: int| 0 <= i < parts.len() implies elements[i] == format_element(
        #[trigger] parts[i],
    ) && is_plain(parts[i].0) && is_plain(parts[i].1) by {
        assert(results[i] == Ok::<_, ErrorView>(parts[i]));
        lemma_parsed_element(elements[i], parts[i]);
    }
    assert(parts.map_values(|pair: (Seq<char>, Seq<char>)| format_element(pair)) =~= elements);
}

/// Plain names and values come back from parsing the distinguished name that they give.
pub proof fn law_format_then_parse(parts: Seq<(Seq<char>, Seq<char>)>)
    requires
        plain_parts(parts),
    ensures
        parse_dn(format_dn(parts)) == Ok::<_, ErrorView>(parts),
{
    let elements = parts.map_values(|pair: (Seq<char>, Seq<char>)| format_element(pair));
    assert forall|i: int| 0 <= i < elements.len() implies !(#[trigger] elements[i]).contains(
        ',',
    ) by {
        lemma_element_parses(parts[i]);
    }
    law_join_then_split(elements, ',');
    let results = elements.map_values(|element: Seq<char>| dn_element(element));
    assert forall|i: int| 0 <= i < results.len() implies #[trigger] results[i] == Ok::<
        _,
        ErrorView,
    >(parts[i]) by {
        lemma_element_parses(parts[i]);
    }
    lemma_all_ok(results);
    let values = all_or_first_error(results)->Ok_0;
    assert forall|i: int| 0 <= i < parts.len() implies values[i] == #[trigger] parts[i] by {
        assert(results[i] == Ok::<_, ErrorView>(values[i]));
    }
    assert(values =~= parts);
}

proof fn lemma_join_concat(left: Seq<Seq<char>>, right: Seq<Seq<char>>, sep: char)
    requires
        left.len() > 0,
        right.len() > 0,
    ensures
        join_with(left + right, sep) == join_with(left, sep).push(sep) + join_with(right, sep),
    decreases right.len(),
{
    let whole = left + right;
    if right.len() == 1 {
        assert(whole.drop_last() =~= left);
    } else {
        lemma_join_concat(left, right.drop_last(), sep);
        assert(whole.drop_last() =~= left + right.drop_last());
        assert(join_with(whole, sep) =~= join_with(left, sep).push(sep) + join_with(right, sep));
    }
}

/// The distinguished name of the entry `name` in the unit `unit` below a base.
spec fn unit_dn(name: Seq<char>, unit: Seq<char>, base_dn: Seq<char>) -> Seq<char> {
    format_element(("cn"@, name)).push(',') + (format_element(("ou"@, unit)).push(',') + base_dn)
}

proof fn lemma_unit_dn_is_formatted(
    name: Seq<char>,
    unit: Seq<char>,
    base_tree: Seq<(Seq<char>, Seq<char>)>,
    base_dn: Seq<char>,
)
    requires
        parse_dn(base_dn) == Ok::<_, ErrorView>(base_tree),
    ensures
        format_dn(seq![("cn"@, name), ("ou"@, unit)] + base_tree) == unit_dn(name, unit, base_dn),
{
    law_parse_then_format(base_dn);
    let form = |pair: (Seq<char>, Seq<char>)| format_element(pair);
    let first = seq![format_element(("cn"@, name))];
    let second = seq![format_element(("ou"@, unit))];
    let rest = base_tree.map_values(form);
    let parts = seq![("cn"@, name), ("ou"@, unit)] + base_tree;
    assert(parts.map_values(form) =~= first + (second + rest));
    lemma_join_concat(second, rest, ',');
    lemma_join_concat(first, second + rest, ',');
}

proof fn lemma_name_in_unit(
    dn: Seq<char>,
    name: Seq<char>,
    unit: Seq<char>,
    base_tree: Seq<(Seq<char>, Seq<char>)>,
    base_dn: Seq<char>,
    unexpected: ErrorView,
)
    requires
        parse_dn(base_dn) == Ok::<_, ErrorView>(base_tree),
        is_plain(unit),
    ensures
        name_in_unit(dn, base_tree, unit, unexpected) == Ok::<_, ErrorView>(name) <==> dn
            == unit_dn(name, unit, base_dn) && is_plain(name),
{
    let expected = seq![("cn"@, name), ("ou"@, unit)] + base_tree;
    lemma_unit_dn_is_formatted(name, unit, base_tree, base_dn);
    law_parse_then_format(base_dn);
    if name_in_unit(dn, base_tree, unit, unexpected) == Ok::<_, ErrorView>(name) {
        law_parse_then_format(dn);
        let parts = parse_dn(dn)->Ok_0;
        assert(parts[0] == ("cn"@, name));
        assert(parts.subrange(2, parts.len() as int) =~= base_tree);
        assert forall|i: int| 0 <= i < parts.len() implies parts[i] == expected[i] by {
            if i >= 2 {
                assert(parts.subrange(2, parts.len() as int)[i - 2] == base_tree[i - 2]);
            }
        }
        assert(parts =~= expected);
    }
    if dn == unit_dn(name, unit, base_dn) && is_plain(name) {
        reveal_strlit("cn");
        reveal_strlit("ou");
        assert(is_plain("cn"@));
        assert(is_plain("ou"@));
        assert forall|i: int| 0 <= i < expected.len() implies is_plain(
            (#[trigger] expected[i]).0,
        ) && is_plain(expected[i].1) by {
            if i >= 2 {
                assert(expected[i] == base_tree[i - 2]);
            }
        }
        law_format_then_parse(expected);
        assert(base_tree =~= expected.subrange(2, expected.len() as int));
    }
}

/// Below a base that can be parsed, the distinguished names that name a user are exactly those
/// of the users with a plain id, and each names its own user.
pub proof fn law_user_dn(
    dn: Seq<char>,
    user_id: Seq<char>,
    base_tree: Seq<(Seq<char>, Seq<char>)>,
    base_dn: Seq<char>,
)
    requires
        parse_dn(base_dn) == Ok::<_, ErrorView>(base_tree),
    ensures
        user_id_in_dn(dn, base_tree, base_dn) == Ok::<_, ErrorView>(user_id) <==> dn == user_dn(
            user_id,
            base_dn,
        ) && is_plain(user_id),
{
    reveal_strlit("people");
    reveal_strlit("cn");
    reveal_strlit("ou");
    reveal_strlit("cn=");
    reveal_strlit(",ou=people,");
    assert(is_plain("people"@));
    assert(unit_dn(user_id, "people"@, base_dn) =~= user_dn(user_id, base_dn));
    lemma_name_in_unit(
        dn,
        user_id,
        "people"@,
        base_tree,
        base_dn,
        ErrorView::UnexpectedUserDn { dn, base_dn },
    );
}

/// Below a base that can be parsed, the distinguished names that name a group are exactly those
/// of the groups with a plain name, and each names its own group.
pub proof fn law_group_dn(
    dn: Seq<char>,
    name: Seq<char>,
    base_tree: Seq<(Seq<char>, Seq<char>)>,
    base_dn: Seq<char>,
)
    requires
        parse_dn(base_dn) == Ok::<_, ErrorView>(base_tree),
    ensures
        group_id_in_dn(dn, base_tree, base_dn) == Ok::<_, ErrorView>(name) <==> dn == group_dn(
            name,
            base_dn,
        ) && is_plain(name),
{
    reveal_strlit("groups");
    reveal_strlit("cn");
    reveal_strlit("ou");
    reveal_strlit("cn=");
    reveal_strlit(",ou=groups,");
    assert(is_plain("groups"@));
    assert(unit_dn(name, "groups"@, base_dn) =~= group_dn(name, base_dn));
    lemma_name_in_unit(
        dn,
        name,
        "groups"@,
        base_tree,
        base_dn,
        ErrorView::UnexpectedGroupDn { dn, base_dn },
    );
}

/// The text of the distinguished name of the entry `name` in the unit `unit` below a base.
pub open spec fn entry_dn(name: Seq<char>, unit: Seq<char>, base_dn: Seq<char>) -> Seq<char> {
    join_with(seq!["cn="@ + name, "ou="@ + unit, base_dn], ',')
}

/// The distinguished names of users and groups are the texts with the entry, its unit and the
/// base one after the other, whatever the base is.
pub proof fn law_entry_dn_text(name: Seq<char>, base_dn: Seq<char>)
    ensures
        user_dn(name, base_dn) == entry_dn(name, "people"@, base_dn),
        group_dn(name, base_dn) == entry_dn(name, "groups"@, base_dn),
{
    reveal_strlit("cn=");
    reveal_strlit("ou=");
    reveal_strlit("people");
    reveal_strlit("groups");
    reveal_strlit(",ou=people,");
    reveal_strlit(",ou=groups,");
    lemma_join_of_three("cn="@ + name, "ou="@ + "people"@, base_dn);
    lemma_join_of_three("cn="@ + name, "ou="@ + "groups"@, base_dn);
    assert(user_dn(name, base_dn) =~= entry_dn(name, "people"@, base_dn));
    assert(group_dn(name, base_dn) =~= entry_dn(name, "groups"@, base_dn));
}

proof fn lemma_join_of_three(first: Seq<char>, second: Seq<char>, third: Seq<char>)
    ensures
        join_with(seq![first, second, third], ',') == (first.push(',') + second).push(',') + third,
{
    reveal_with_fuel(join_with, 3);
    assert(seq![first, second, third].drop_last() =~= seq![first, second]);
    assert(seq![first, second].drop_last() =~= seq![first]);
}

/// Below a base that can be parsed, the texts that name the user `user_id` are exactly the text
/// of that user's distinguished name, and none where the id holds a separator.
pub proof fn law_user_dn_text(
    dn: Seq<char>,
    user_id: Seq<char>,
    base_tree: Seq<(Seq<char>, Seq<char>)>,
    base_dn: Seq<char>,
)
    requires
        parse_dn(base_dn) == Ok::<_, ErrorView>(base_tree),
    ensures
        user_id_in_dn(dn, base_tree, base_dn) == Ok::<_, ErrorView>(user_id) <==> dn == entry_dn(
            user_id,
            "people"@,
            base_dn,
        ) && is_plain(user_id),
{
    law_user_dn(dn, user_id, base_tree, base_dn);
    law_entry_dn_text(user_id, base_dn);
}

/// Below a base that can be parsed, the texts that name the group `name` are exactly the text of
/// that group's distinguished name, and none where the name holds a separator.
pub proof fn law_group_dn_text(
    dn: Seq<char>,
    name: Seq<char>,
    base_tree: Seq<(Seq<char>, Seq<char>)>,
    base_dn: Seq<char>,
)
    requires
        parse_dn(base_dn) == Ok::<_, ErrorView>(base_tree),
    ensures
        group_id_in_dn(dn, base_tree, base_dn) == Ok::<_, ErrorView>(name) <==> dn == entry_dn(
            name,
            "groups"@,
            base_dn,
        ) && is_plain(name),
{
    law_group_dn(dn, name, base_tree, base_dn);
    law_entry_dn_text(name, base_dn);
}

/// A distinguished name is one of the user, or of the group, exactly when its elements are the
/// entry, its unit and then those of the base, whatever they are.
pub proof fn law_elements_name_the_entry(
    dn: Seq<char>,
    name: Seq<char>,
    base_tree: Seq<(Seq<char>, Seq<char>)>,
    base_dn: Seq<char>,
)
    ensures
        user_id_in_dn(dn, base_tree, base_dn) == Ok::<_, ErrorView>(name) <==> parse_dn(dn) == Ok::<
            _,
            ErrorView,
        >(seq![("cn"@, name), ("ou"@, "people"@)] + base_tree),
        group_id_in_dn(dn, base_tree, base_dn) == Ok::<_, ErrorView>(name) <==> parse_dn(dn)
            == Ok::<_, ErrorView>(seq![("cn"@, name), ("ou"@, "groups"@)] + base_tree),
{
    let of_user = seq![("cn"@, name), ("ou"@, "people"@)] + base_tree;
    let of_group = seq![("cn"@, name), ("ou"@, "groups"@)] + base_tree;
    assert(of_user[0] == ("cn"@, name) && of_user[1] == ("ou"@, "people"@));
    assert(of_group[0] == ("cn"@, name) && of_group[1] == ("ou"@, "groups"@));
    assert(of_user.subrange(2, of_user.len() as int) =~= base_tree);
    assert(of_group.subrange(2, of_group.len() as int) =~= base_tree);
    if let Ok(parts) = parse_dn(dn) {
        if base_tree.is_suffix_of(parts) && parts.len() == base_tree.len() + 2 {
            assert(parts =~= seq![parts[0], parts[1]] + base_tree);
        }
    }
}

/// A distinguished name is refused for what is wrong with its text, else for not ending with the
/// elements of the base, else for not naming an entry of the unit.
pub proof fn law_dn_errors(
    dn: Seq<char>,
    base_tree: Seq<(Seq<char>, Seq<char>)>,
    base_dn: Seq<char>,
)
    ensures
        parse_dn(dn) matches Err(error) ==> user_id_in_dn(dn, base_tree, base_dn) == Err::<
            Seq<char>,
            _,
        >(error) && group_id_in_dn(dn, base_tree, base_dn) == Err::<Seq<char>, _>(error),
        parse_dn(dn) matches Ok(parts) && !ends_with(parts, base_tree) ==> user_id_in_dn(
            dn,
            base_tree,
            base_dn,
        ) == Err::<Seq<char>, _>(ErrorView::NotASubtree) && group_id_in_dn(
            dn,
            base_tree,
            base_dn,
        ) == Err::<Seq<char>, _>(ErrorView::NotASubtree),
        parse_dn(dn) matches Ok(parts) && ends_with(parts, base_tree) ==> {
            &&& user_id_in_dn(dn, base_tree, base_dn) matches Err(error) ==> error
                == ErrorView::UnexpectedUserDn { dn, base_dn }
            &&& group_id_in_dn(dn, base_tree, base_dn) matches Err(error) ==> error
                == ErrorView::UnexpectedGroupDn { dn, base_dn }
        },
{
    if let Ok(parts) = parse_dn(dn) {
        lemma_ends_with(parts, base_tree);
    }
}

/// `parts` are some elements and then those of `base_tree`.
pub open spec fn ends_with(
    parts: Seq<(Seq<char>, Seq<char>)>,
    base_tree: Seq<(Seq<char>, Seq<char>)>,
) -> bool {
    exists|before: Seq<(Seq<char>, Seq<char>)>| parts == #[trigger] (before + base_tree)
}

pub proof fn lemma_ends_with(
    parts: Seq<(Seq<char>, Seq<char>)>,
    base_tree: Seq<(Seq<char>, Seq<char>)>,
)
    ensures
        base_tree.is_suffix_of(parts) <==> ends_with(parts, base_tree),
{
    if base_tree.is_suffix_of(parts) {
        let before = parts.take(parts.len() - base_tree.len());
        assert(parts =~= before + base_tree);
    }
    if ends_with(parts, base_tree) {
        let before = choose|before: Seq<(Seq<char>, Seq<char>)>|
            parts == #[trigger] (before + base_tree);
        assert(parts.subrange(before.len() as int, parts.len() as int) =~= base_tree);
    }
}

/// A text is refused for its first element that is not one name and one value: a value is
/// missing where the element is a single part, and there are too many where it is three or more.
pub proof fn law_first_bad_element_is_reported(
    pairs: Seq<(Seq<char>, Seq<char>)>,
    bad: Seq<Seq<char>>,
    rest: Seq<Seq<char>>,
)
    requires
        forall|i: int|
            0 <= i < pairs.len() ==> is_plain((#[trigger] pairs[i]).0) && is_plain(pairs[i].1),
        bad.len() > 0,
        bad.len() != 2,
        forall|i: int| 0 <= i < bad.len() ==> is_plain(#[trigger] bad[i]),
        forall|i: int| 0 <= i < rest.len() ==> !(#[trigger] rest[i]).contains(','),
    ensures
        parse_dn(
            join_with(
                pairs.map_values(|pair: (Seq<char>, Seq<char>)| format_element(pair)) + seq![
                    join_with(bad, '='),
                ] + rest,
                ',',
            ),
        ) == Err::<Seq<(Seq<char>, Seq<char>)>, _>(
            if bad.len() == 1 {
                ErrorView::MissingDnValue
            } else {
                ErrorView::TooManyDnElements(bad[0], bad[1], bad[2])
            },
        ),
{
    let form = |pair: (Seq<char>, Seq<char>)| format_element(pair);
    let elements = pairs.map_values(form) + seq![join_with(bad, '=')] + rest;
    let n = pairs.len() as int;
    law_join_then_split(bad, '=');
    lemma_join_holds_no(bad, '=', ',');
    assert(elements[n] == join_with(bad, '='));
    assert forall|i: int| 0 <= i < elements.len() implies !(#[trigger] elements[i]).contains(
        ',',
    ) by {
        if i < n {
            lemma_element_parses(pairs[i]);
            assert(elements[i] == format_element(pairs[i]));
        } else if i > n {
            assert(elements[i] == rest[i - n - 1]);
        }
    }
    law_join_then_split(elements, ',');
    let results = elements.map_values(|element: Seq<char>| dn_element(element));
    assert forall|i: int| 0 <= i < n implies (#[trigger] results.take(n)[i]) is Ok by {
        lemma_element_parses(pairs[i]);
        assert(elements[i] == format_element(pairs[i]));
    }
    lemma_all_ok(results.take(n));
    lemma_first_error(
        results,
        n,
        if bad.len() == 1 {
            ErrorView::MissingDnValue
        } else {
            ErrorView::TooManyDnElements(bad[0], bad[1], bad[2])
        },
    );
}

proof fn lemma_join_holds_no(pieces: Seq<Seq<char>>, sep: char, c: char)
    requires
        sep != c,
        forall|i: int| 0 <= i < pieces.len() ==> !(#[trigger] pieces[i]).contains(c),
    ensures
        !join_with(pieces, sep).contains(c),
    decreases pieces.len(),
{
    if pieces.len() > 1 {
        let shorter = pieces.drop_last();
        assert forall|i: int| 0 <= i < shorter.len() implies !(#[trigger] shorter[i]).contains(
            c,
        ) by {
            assert(shorter[i] == pieces[i]);
        }
        lemma_join_holds_no(shorter, sep, c);
        let head = join_with(shorter, sep);
        let whole = join_with(pieces, sep);
        let tail = pieces[pieces.len() - 1];
        assert(!tail.contains(c));
        if whole.contains(c) {
            let k = choose|k: int| 0 <= k < whole.len() && whole[k] == c;
            if k < head.len() {
                assert(head[k] == c);
            } else if k > head.len() {
                assert(tail[k - head.len() - 1] == c);
            }
        }
    }
}

/// The parts of an element are a name and a value where there are two of them; otherwise the
/// element is empty, lacks its value, or has too many parts.
pub proof fn law_dn_pair(elements: Seq<Seq<char>>)
    ensures
        forall|name: Seq<char>, value: Seq<char>|
            dn_pair(elements) == Ok::<_, ErrorView>((name, value)) <==> elements == #[trigger] seq![
                name,
                value,
            ],
        elements.len() == 0 ==> dn_pair(elements) == Err::<(Seq<char>, Seq<char>), _>(
            ErrorView::EmptyDnElement,
        ),
        elements.len() == 1 ==> dn_pair(elements) == Err::<(Seq<char>, Seq<char>), _>(
            ErrorView::MissingDnValue,
        ),
        elements.len() > 2 ==> dn_pair(elements) == Err::<(Seq<char>, Seq<char>), _>(
            ErrorView::TooManyDnElements(elements[0], elements[1], elements[2]),
        ),
{
    assert forall|name: Seq<char>, value: Seq<char>|
        dn_pair(elements) == Ok::<_, ErrorView>((name, value)) <==> elements == #[trigger] seq![
            name,
            value,
        ] by {
        if dn_pair(elements) == Ok::<_, ErrorView>((name, value)) {
            assert(elements =~= seq![name, value]);
        }
    }
}

/// The distinguished name of a unit below a base has the elements of the base after its own.
pub proof fn law_unit_dn(
    unit: Seq<char>,
    base_tree: Seq<(Seq<char>, Seq<char>)>,
    base_dn: Seq<char>,
)
    requires
        parse_dn(base_dn) == Ok::<_, ErrorView>(base_tree),
        is_plain(unit),
    ensures
        parse_dn("ou="@ + unit + ","@ + base_dn) == Ok::<_, ErrorView>(
            seq![("ou"@, unit)] + base_tree,
        ),
{
    law_parse_then_format(base_dn);
    reveal_strlit("ou");
    reveal_strlit("ou=");
    reveal_strlit(",");
    let form = |pair: (Seq<char>, Seq<char>)| format_element(pair);
    let parts = seq![("ou"@, unit)] + base_tree;
    let first = seq![format_element(("ou"@, unit))];
    assert(parts.map_values(form) =~= first + base_tree.map_values(form));
    lemma_join_concat(first, base_tree.map_values(form), ',');
    assert(format_dn(parts) =~= "ou="@ + unit + ","@ + base_dn);
    assert(is_plain("ou"@));
    assert forall|i: int| 0 <= i < parts.len() implies is_plain((#[trigger] parts[i]).0)
        && is_plain(parts[i].1) by {
        if i >= 1 {
            assert(parts[i] == base_tree[i - 1]);
        }
    }
    law_format_then_parse(parts);
}

/// Different users below one base have different distinguished names.
pub proof fn law_user_dn_injective(first: Seq<char>, second: Seq<char>, base_dn: Seq<char>)
    requires
        user_dn(first, base_dn) == user_dn(second, base_dn),
    ensures
        first == second,
{
    let dn = user_dn(first, base_dn);
    let head = "cn="@.len() as int;
    let around = "cn="@.len() + ",ou=people,"@.len() + base_dn.len();
    assert(dn.len() == around + first.len());
    assert(user_dn(second, base_dn).len() == around + second.len());
    assert(dn.subrange(head, head + first.len()) =~= first);
    assert(user_dn(second, base_dn).subrange(head, head + second.len()) =~= second);
}

} // verus!

//! What filters mean: a client's filter and the condition that the directory is asked for pick
//! the same people.
use crate::collect::{all_or_first_error, lemma_all_ok, lemma_first_error};
use crate::dn::{group_id_in_dn, parse_dn, user_id_in_dn};
use crate::dn_laws::{entry_dn, is_plain, law_group_dn_text, law_user_dn_text};
use crate::domain::{GroupId, RequestFilterView};
use crate::error::ErrorView;
use crate::filter::{directory_field, group_filter, user_filter, user_filters};
use crate::message::{FilterView, SubstringFilterView};
use vstd::prelude::*;

verus! {

/// What is known of a person: the texts of the fields, and the groups by name and by id.
pub struct Person {
    pub user_id: Seq<char>,
    pub email: Seq<char>,
    pub display_name: Seq<char>,
    pub first_name: Seq<char>,
    pub last_name: Seq<char>,
    pub avatar: Seq<char>,
    pub creation_date: Seq<char>,
    pub groups: Set<Seq<char>>,
    pub group_ids: Set<GroupId>,
}

/// The text that a client means by a field of a person.
pub open spec fn client_value(person: Person, field: Seq<char>) -> Option<Seq<char>> {
    if field == "uid"@ {
        Some(person.user_id)
    } else if field == "mail"@ {
        Some(person.email)
    } else if field == "cn"@ || field == "displayName"@ {
        Some(person.display_name)
    } else if field == "givenName"@ {
        Some(person.first_name)
    } else if field == "sn"@ {
        Some(person.last_name)
    } else if field == "avatar"@ {
        Some(person.avatar)
    } else if field == "creationDate"@ {
        Some(person.creation_date)
    } else {
        None
    }
}

/// The text that the directory means by a field of a person.
pub open spec fn directory_value(person: Person, name: Seq<char>) -> Option<Seq<char>> {
    if name == "user_id"@ {
        Some(person.user_id)
    } else if name == "email"@ {
        Some(person.email)
    } else if name == "display_name"@ {
        Some(person.display_name)
    } else if name == "first_name"@ {
        Some(person.first_name)
    } else if name == "last_name"@ {
        Some(person.last_name)
    } else if name == "avatar"@ {
        Some(person.avatar)
    } else if name == "creation_date"@ {
        Some(person.creation_date)
    } else {
        None
    }
}

/// Whether people are of the object class `class`.
pub open spec fn is_class_of_people(class: Seq<char>) -> bool {
    class == "person"@ || class == "inetOrgPerson"@ || class == "posixAccount"@ || class
        == "mailAccount"@
}

/// Whether a client that sends `filter` wants `person`, below the base `base_dn`.
pub open spec fn is_wanted(person: Person, filter: FilterView, base_dn: Seq<char>) -> bool
    decreases filter,
{
    match filter {
        FilterView::And(filters) => forall|i: int|
            0 <= i < filters.len() ==> is_wanted(person, #[trigger] filters[i], base_dn),
        FilterView::Or(filters) => exists|i: int|
            0 <= i < filters.len() && is_wanted(person, #[trigger] filters[i], base_dn),
        FilterView::Not(inner) => !is_wanted(person, *inner, base_dn),
        FilterView::Equality(field, value) => if field == "memberOf"@ {
            exists|name: Seq<char>| #[trigger]
                person.groups.contains(name) && is_plain(name) && value == entry_dn(
                    name,
                    "groups"@,
                    base_dn,
                )
        } else if field == "objectClass"@ {
            is_class_of_people(value)
        } else {
            client_value(person, field) == Some(value)
        },
        FilterView::Present(field) => field == "objectClass"@ || client_value(person, field)
            is Some,
        FilterView::Substring(..) => false,
    }
}

/// Whether the directory lists `person` when it is asked for `condition`.
pub open spec fn is_listed(person: Person, condition: RequestFilterView) -> bool
    decreases condition,
{
    match condition {
        RequestFilterView::And(parts) => forall|i: int|
            0 <= i < parts.len() ==> is_listed(person, #[trigger] parts[i]),
        RequestFilterView::Or(parts) => exists|i: int|
            0 <= i < parts.len() && is_listed(person, #[trigger] parts[i]),
        RequestFilterView::Not(part) => !is_listed(person, *part),
        RequestFilterView::Equality(name, value) => directory_value(person, name) == Some(value),
        RequestFilterView::MemberOf(group) => person.groups.contains(group),
        RequestFilterView::MemberOfId(id) => person.group_ids.contains(id),
    }
}

proof fn lemma_field_names()
    ensures
        "user_id"@.len() == 7,
        "email"@.len() == 5,
        "display_name"@.len() == 12,
        "first_name"@.len() == 10,
        "last_name"@.len() == 9,
        "avatar"@.len() == 6,
        "creation_date"@.len() == 13,
{
    reveal_strlit("user_id");
    reveal_strlit("email");
    reveal_strlit("display_name");
    reveal_strlit("first_name");
    reveal_strlit("last_name");
    reveal_strlit("avatar");
    reveal_strlit("creation_date");
}

/// The directory's name for a field stands for the same text of a person as the client's, and
/// there is one exactly for the fields that a client can mean.
pub proof fn law_fields_stand_for_the_same_text(person: Person, field: Seq<char>)
    ensures
        directory_field(field) is Ok <==> client_value(person, field) is Some,
        directory_field(field) matches Ok(name) ==> directory_value(person, name) == client_value(
            person,
            field,
        ),
        directory_field(field) matches Err(error) ==> error == ErrorView::UnknownField(field),
{
    lemma_field_names();
}

proof fn lemma_listed_by_lists(person: Person, parts: Seq<RequestFilterView>)
    ensures
        is_listed(person, RequestFilterView::And(parts)) <==> forall|i: int|
            0 <= i < parts.len() ==> is_listed(person, #[trigger] parts[i]),
        is_listed(person, RequestFilterView::Or(parts)) <==> exists|i: int|
            0 <= i < parts.len() && is_listed(person, #[trigger] parts[i]),
{
    let all = RequestFilterView::And(parts);
    assert(all->And_0 == parts);
    let some = RequestFilterView::Or(parts);
    assert(some->Or_0 == parts);
}

proof fn lemma_everyone_and_nobody(person: Person)
    ensures
        is_listed(person, RequestFilterView::And(Seq::empty())),
        !is_listed(
            person,
            RequestFilterView::Not(Box::new(RequestFilterView::And(Seq::empty()))),
        ),
{
    reveal_with_fuel(is_listed, 2);
}

/// The directory lists exactly the people that the client wants, whatever the filter, as long as
/// it can be served.
pub proof fn law_filter_keeps_its_meaning(
    person: Person,
    filter: FilterView,
    base_tree: Seq<(Seq<char>, Seq<char>)>,
    base_dn: Seq<char>,
    condition: RequestFilterView,
)
    requires
        parse_dn(base_dn) == Ok::<_, ErrorView>(base_tree),
        user_filter(filter, base_tree, base_dn) == Ok::<_, ErrorView>(condition),
    ensures
        is_listed(person, condition) <==> is_wanted(person, filter, base_dn),
    decreases filter,
{
    lemma_everyone_and_nobody(person);
    match filter {
        FilterView::And(filters) => {
            let parts = all_or_first_error(user_filters(filters, base_tree, base_dn))->Ok_0;
            lemma_list_keeps_its_meaning(person, filters, base_tree, base_dn);
            lemma_listed_by_lists(person, parts);
        },
        FilterView::Or(filters) => {
            let parts = all_or_first_error(user_filters(filters, base_tree, base_dn))->Ok_0;
            lemma_list_keeps_its_meaning(person, filters, base_tree, base_dn);
            lemma_listed_by_lists(person, parts);
            if is_wanted(person, filter, base_dn) {
                let i = choose|i: int|
                    0 <= i < filters.len() && is_wanted(person, #[trigger] filters[i], base_dn);
                assert(is_listed(person, parts[i]));
            }
            if is_listed(person, condition) {
                let i = choose|i: int|
                    0 <= i < parts.len() && is_listed(person, #[trigger] parts[i]);
                assert(is_wanted(person, filters[i], base_dn));
            }
        },
        FilterView::Not(inner) => {
            let part = user_filter(*inner, base_tree, base_dn)->Ok_0;
            law_filter_keeps_its_meaning(person, *inner, base_tree, base_dn, part);
        },
        FilterView::Equality(field, value) => {
            law_fields_stand_for_the_same_text(person, field);
            if field == "memberOf"@ {
                let group = condition->MemberOf_0;
                law_group_dn_text(value, group, base_tree, base_dn);
                assert forall|name: Seq<char>| #[trigger]
                    person.groups.contains(name) && is_plain(name) && value == entry_dn(
                        name,
                        "groups"@,
                        base_dn,
                    ) implies name == group by {
                    law_group_dn_text(value, name, base_tree, base_dn);
                }
            }
        },
        FilterView::Present(field) => {
            law_fields_stand_for_the_same_text(person, field);
        },
        FilterView::Substring(..) => {},
    }
}

proof fn lemma_list_keeps_its_meaning(
    person: Person,
    filters: Seq<FilterView>,
    base_tree: Seq<(Seq<char>, Seq<char>)>,
    base_dn: Seq<char>,
)
    requires
        parse_dn(base_dn) == Ok::<_, ErrorView>(base_tree),
        all_or_first_error(user_filters(filters, base_tree, base_dn)) is Ok,
    ensures
        ({
            let parts = all_or_first_error(user_filters(filters, base_tree, base_dn))->Ok_0;
            &&& parts.len() == filters.len()
            &&& forall|i: int|
                0 <= i < parts.len() ==> (is_listed(person, #[trigger] parts[i]) <==> is_wanted(
                    person,
                    filters[i],
                    base_dn,
                ))
            &&& forall|i: int|
                0 <= i < parts.len() ==> (is_listed(person, parts[i]) <==> is_wanted(
                    person,
                    #[trigger] filters[i],
                    base_dn,
                ))
        }),
    decreases filters,
{
    let results = user_filters(filters, base_tree, base_dn);
    let parts = all_or_first_error(results)->Ok_0;
    lemma_all_ok(results);
    assert forall|i: int| 0 <= i < parts.len() implies (is_listed(person, #[trigger] parts[i])
        <==> is_wanted(person, filters[i], base_dn)) by {
        assert(results[i] == Ok::<_, ErrorView>(parts[i]));
        law_filter_keeps_its_meaning(person, filters[i], base_tree, base_dn, parts[i]);
    }
}

/// A conjunction, a disjunction or a negation is converted into one of the converted parts, in
/// their order; what cannot be served in the first part that cannot be is reported.
pub proof fn law_filter_keeps_its_shape(
    filters: Seq<FilterView>,
    base_tree: Seq<(Seq<char>, Seq<char>)>,
    base_dn: Seq<char>,
    parts: Seq<RequestFilterView>,
)
    requires
        parts.len() == filters.len(),
        forall|i: int|
            0 <= i < filters.len() ==> user_filter(#[trigger] filters[i], base_tree, base_dn)
                == Ok::<_, ErrorView>(parts[i]),
    ensures
        user_filter(FilterView::And(filters), base_tree, base_dn) == Ok::<_, ErrorView>(
            RequestFilterView::And(parts),
        ),
        user_filter(FilterView::Or(filters), base_tree, base_dn) == Ok::<_, ErrorView>(
            RequestFilterView::Or(parts),
        ),
        filters.len() == 1 ==> user_filter(
            FilterView::Not(Box::new(filters[0])),
            base_tree,
            base_dn,
        ) == Ok::<_, ErrorView>(RequestFilterView::Not(Box::new(parts[0]))),
{
    let results = user_filters(filters, base_tree, base_dn);
    assert forall|i: int| 0 <= i < results.len() implies #[trigger] results[i] == Ok::<
        _,
        ErrorView,
    >(parts[i]) by {
        assert(user_filter(filters[i], base_tree, base_dn) == Ok::<_, ErrorView>(parts[i]));
    }
    lemma_all_ok(results);
    let found = all_or_first_error(results)->Ok_0;
    assert forall|i: int| 0 <= i < parts.len() implies found[i] == #[trigger] parts[i] by {
        assert(results[i] == Ok::<_, ErrorView>(found[i]));
    }
    assert(found =~= parts);
}

/// Whom the directory lists for a conjunction is listed for every one of its parts, and whom it
/// lists for a disjunction is listed for some part; for a negation it lists everyone else.
pub proof fn law_parts_decide_who_is_listed(
    person: Person,
    filters: Seq<FilterView>,
    inner: FilterView,
    base_tree: Seq<(Seq<char>, Seq<char>)>,
    base_dn: Seq<char>,
)
    requires
        forall|i: int|
            0 <= i < filters.len() ==> user_filter(#[trigger] filters[i], base_tree, base_dn) is Ok,
        user_filter(inner, base_tree, base_dn) is Ok,
    ensures
        user_filter(FilterView::And(filters), base_tree, base_dn) matches Ok(condition) && (
        is_listed(person, condition) <==> forall|i: int|
            0 <= i < filters.len() ==> is_listed(
                person,
                user_filter(#[trigger] filters[i], base_tree, base_dn)->Ok_0,
            )),
        user_filter(FilterView::Or(filters), base_tree, base_dn) matches Ok(condition) && (
        is_listed(person, condition) <==> exists|i: int|
            0 <= i < filters.len() && is_listed(
                person,
                user_filter(#[trigger] filters[i], base_tree, base_dn)->Ok_0,
            )),
        user_filter(FilterView::Not(Box::new(inner)), base_tree, base_dn) matches Ok(condition)
            && (is_listed(person, condition) <==> !is_listed(
            person,
            user_filter(inner, base_tree, base_dn)->Ok_0,
        )),
{
    let parts = Seq::new(
        filters.len(),
        |i: int| user_filter(filters[i], base_tree, base_dn)->Ok_0,
    );
    law_filter_keeps_its_shape(filters, base_tree, base_dn, parts);
    lemma_listed_by_lists(person, parts);
    if forall|i: int|
        0 <= i < filters.len() ==> is_listed(
            person,
            user_filter(#[trigger] filters[i], base_tree, base_dn)->Ok_0,
        ) {
        assert forall|i: int| 0 <= i < parts.len() implies is_listed(
            person,
            #[trigger] parts[i],
        ) by {
            assert(user_filter(filters[i], base_tree, base_dn) is Ok);
        }
    }
    if is_listed(person, RequestFilterView::And(parts)) {
        assert forall|i: int| 0 <= i < filters.len() implies is_listed(
            person,
            user_filter(#[trigger] filters[i], base_tree, base_dn)->Ok_0,
        ) by {
            assert(is_listed(person, parts[i]));
        }
    }
    if is_listed(person, RequestFilterView::Or(parts)) {
        let i = choose|i: int| 0 <= i < parts.len() && is_listed(person, #[trigger] parts[i]);
        assert(is_listed(person, user_filter(filters[i], base_tree, base_dn)->Ok_0));
    }
    if exists|i: int|
        0 <= i < filters.len() && is_listed(
            person,
            user_filter(#[trigger] filters[i], base_tree, base_dn)->Ok_0,
        ) {
        let i = choose|i: int|
            0 <= i < filters.len() && is_listed(
                person,
                user_filter(#[trigger] filters[i], base_tree, base_dn)->Ok_0,
            );
        assert(is_listed(person, parts[i]));
    }
}

/// What is wrong with the first part that cannot be served is what is wrong with the whole.
pub proof fn law_first_unserved_part_is_reported(
    filters: Seq<FilterView>,
    n: int,
    base_tree: Seq<(Seq<char>, Seq<char>)>,
    base_dn: Seq<char>,
    error: ErrorView,
)
    requires
        0 <= n < filters.len(),
        forall|i: int|
            0 <= i < n ==> user_filter(#[trigger] filters[i], base_tree, base_dn) is Ok,
        user_filter(filters[n], base_tree, base_dn) == Err::<RequestFilterView, _>(error),
    ensures
        user_filter(FilterView::And(filters), base_tree, base_dn) == Err::<RequestFilterView, _>(
            error,
        ),
        user_filter(FilterView::Or(filters), base_tree, base_dn) == Err::<RequestFilterView, _>(
            error,
        ),
        user_filter(FilterView::Not(Box::new(filters[n])), base_tree, base_dn) == Err::<
            RequestFilterView,
            _,
        >(error),
{
    let results = user_filters(filters, base_tree, base_dn);
    lemma_all_ok(results.take(n));
    assert forall|i: int| 0 <= i < n implies (#[trigger] results.take(n)[i]) is Ok by {
        assert(user_filter(filters[i], base_tree, base_dn) is Ok);
    }
    lemma_first_error(results, n, error);
}

/// What becomes of a single comparison: the name of a group, every or no user for an object
/// class or a presence, a comparison with the directory's field, or what is wrong with it.
pub proof fn law_single_comparisons(
    field: Seq<char>,
    value: Seq<char>,
    substring: SubstringFilterView,
    base_tree: Seq<(Seq<char>, Seq<char>)>,
    base_dn: Seq<char>,
)
    ensures
        ({
            let every = RequestFilterView::And(Seq::empty());
            let none = RequestFilterView::Not(Box::new(RequestFilterView::And(Seq::empty())));
            let converted = user_filter(FilterView::Equality(field, value), base_tree, base_dn);
            let present = user_filter(FilterView::Present(field), base_tree, base_dn);
            let substring = FilterView::Substring(field, substring);
            &&& field == "memberOf"@ ==> match group_id_in_dn(value, base_tree, base_dn) {
                Ok(name) => converted == Ok::<_, ErrorView>(RequestFilterView::MemberOf(name)),
                Err(error) => converted == Err::<RequestFilterView, _>(error),
            }
            &&& field == "objectClass"@ ==> converted == Ok::<_, ErrorView>(
                if is_class_of_people(value) {
                    every
                } else {
                    none
                },
            )
            &&& field != "memberOf"@ && field != "objectClass"@ ==> match directory_field(field) {
                Ok(name) => converted == Ok::<_, ErrorView>(
                    RequestFilterView::Equality(name, value),
                ),
                Err(error) => converted == Err::<RequestFilterView, _>(error),
            }
            &&& present == Ok::<_, ErrorView>(
                if field == "objectClass"@ || directory_field(field) is Ok {
                    every
                } else {
                    none
                },
            )
            &&& user_filter(substring, base_tree, base_dn) == Err::<RequestFilterView, _>(
                ErrorView::UnsupportedUserFilter(substring),
            )
        }),
{
    reveal_strlit("memberOf");
    reveal_strlit("objectClass");
    assert("memberOf"@.len() != "objectClass"@.len());
}

/// A search for groups is one for the groups of `user_id` exactly when it compares `member` or
/// `uniqueMember` with the distinguished name of that user, and one for all groups exactly when
/// it compares `objectClass` with `groupOfUniqueNames`.
pub proof fn law_group_filter_names_the_user(
    filter: FilterView,
    user_id: Seq<char>,
    base_tree: Seq<(Seq<char>, Seq<char>)>,
    base_dn: Seq<char>,
)
    requires
        parse_dn(base_dn) == Ok::<_, ErrorView>(base_tree),
    ensures
        group_filter(filter, base_tree, base_dn) == Ok::<_, ErrorView>(Some(user_id)) <==> {
            &&& filter == FilterView::Equality(
                "member"@,
                entry_dn(user_id, "people"@, base_dn),
            ) || filter == FilterView::Equality(
                "uniqueMember"@,
                entry_dn(user_id, "people"@, base_dn),
            )
            &&& is_plain(user_id)
        },
        group_filter(filter, base_tree, base_dn) == Ok::<Option<Seq<char>>, ErrorView>(None)
            <==> filter == FilterView::Equality("objectClass"@, "groupOfUniqueNames"@),
{
    reveal_strlit("member");
    reveal_strlit("uniqueMember");
    reveal_strlit("objectClass");
    assert("member"@.len() == 6);
    assert("uniqueMember"@.len() == 12);
    assert("objectClass"@.len() == 11);
    match filter {
        FilterView::Equality(_, value) => {
            law_user_dn_text(value, user_id, base_tree, base_dn);
        },
        _ => {},
    }
}

/// Under either name for the field, a comparison with a member wants the groups of the user that
/// the value names, whatever the base is.
pub proof fn law_member_comparisons_read_the_dn(
    value: Seq<char>,
    base_tree: Seq<(Seq<char>, Seq<char>)>,
    base_dn: Seq<char>,
)
    ensures
        match user_id_in_dn(value, base_tree, base_dn) {
            Ok(user_id) => {
                &&& group_filter(FilterView::Equality("member"@, value), base_tree, base_dn)
                    == Ok::<_, ErrorView>(Some(user_id))
                &&& group_filter(FilterView::Equality("uniqueMember"@, value), base_tree, base_dn)
                    == Ok::<_, ErrorView>(Some(user_id))
            },
            Err(error) => {
                &&& group_filter(FilterView::Equality("member"@, value), base_tree, base_dn)
                    == Err::<Option<Seq<char>>, _>(error)
                &&& group_filter(FilterView::Equality("uniqueMember"@, value), base_tree, base_dn)
                    == Err::<Option<Seq<char>>, _>(error)
            },
        },
{
}

/// What is wrong with a filter on groups: what is wrong with the distinguished name of the
/// member, or else the filter itself.
pub proof fn law_group_filter_errors(
    filter: FilterView,
    base_tree: Seq<(Seq<char>, Seq<char>)>,
    base_dn: Seq<char>,
)
    ensures
        group_filter(filter, base_tree, base_dn) matches Err(error) ==> {
            ||| error == ErrorView::UnsupportedGroupFilter(filter) && !(filter matches
                FilterView::Equality(field, _) && (field == "member"@ || field
                == "uniqueMember"@))
            ||| filter matches FilterView::Equality(field, value) && (field == "member"@ || field
                == "uniqueMember"@) && user_id_in_dn(value, base_tree, base_dn) == Err::<
                Seq<char>,
                _,
            >(error)
        },
{
}

} // verus!

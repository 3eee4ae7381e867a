//! What the entries of users and groups tell.
use crate::collect::{all_or_first_error, lemma_all_ok};
use crate::dn::user_dn;
use crate::dn_laws::{entry_dn, law_entry_dn_text};
use crate::domain::{GroupIdAndNameView, GroupView, UserView};
use crate::entry::{
    group_attribute, group_attributes, group_entry, user_attribute, user_attributes, user_entry,
};
use crate::error::ErrorView;
use crate::filter_laws::{is_wanted, Person};
use crate::message::{EntryView, FilterView};
use crate::search_laws::{
    first_are_group_attributes, first_are_user_attributes, is_group_attribute, is_user_attribute,
};
use crate::step::group_with_members;
use vstd::prelude::*;

verus! {

/// `vals` are the values of the attribute of a user whose distinguished name is `dn`.
pub open spec fn are_values_of_user(
    vals: Seq<Seq<char>>,
    user: UserView,
    attribute: Seq<char>,
    dn: Seq<char>,
) -> bool {
    &&& attribute == "objectClass"@ ==> vals == seq![
        "inetOrgPerson"@,
        "posixAccount"@,
        "mailAccount"@,
        "person"@,
    ]
    &&& attribute == "dn"@ ==> vals == seq![dn]
    &&& attribute == "uid"@ ==> vals == seq![user.user_id]
    &&& attribute == "mail"@ ==> vals == seq![user.email]
    &&& attribute == "givenName"@ ==> vals == seq![user.first_name]
    &&& attribute == "sn"@ ==> vals == seq![user.last_name]
    &&& attribute == "cn"@ ==> vals == seq![user.display_name]
    &&& attribute == "displayName"@ ==> vals == seq![user.display_name]
    &&& attribute == "supportedExtension"@ ==> vals.len() == 0
}

/// `vals` are the values of the attribute of a group below the base `base_dn`.
pub open spec fn are_values_of_group(
    vals: Seq<Seq<char>>,
    group: GroupView,
    attribute: Seq<char>,
    base_dn: Seq<char>,
) -> bool {
    &&& attribute == "objectClass"@ ==> vals == seq!["groupOfUniqueNames"@]
    &&& attribute == "cn"@ ==> vals == seq![group.display_name]
    &&& attribute == "uniqueMember"@ ==> {
        &&& vals.len() == group.users.len()
        &&& forall|i: int|
            0 <= i < vals.len() ==> #[trigger] vals[i] == entry_dn(
                group.users[i],
                "people"@,
                base_dn,
            )
    }
    &&& attribute == "supportedExtension"@ ==> vals.len() == 0
}

proof fn lemma_attribute_names()
    ensures
        "objectClass"@.len() == 11,
        "objectClass"@[0] == 'o',
        "dn"@.len() == 2,
        "dn"@[0] == 'd',
        "uid"@.len() == 3,
        "mail"@.len() == 4,
        "givenName"@.len() == 9,
        "sn"@.len() == 2,
        "sn"@[0] == 's',
        "cn"@.len() == 2,
        "cn"@[0] == 'c',
        "displayName"@.len() == 11,
        "displayName"@[0] == 'd',
        "supportedExtension"@.len() == 18,
        "uniqueMember"@.len() == 12,
        "memberOf"@.len() == 8,
{
    reveal_strlit("objectClass");
    reveal_strlit("dn");
    reveal_strlit("uid");
    reveal_strlit("mail");
    reveal_strlit("givenName");
    reveal_strlit("sn");
    reveal_strlit("cn");
    reveal_strlit("displayName");
    reveal_strlit("supportedExtension");
    reveal_strlit("uniqueMember");
    reveal_strlit("memberOf");
}

/// An attribute has values for a user exactly when it is one of those that users have; they are
/// the user's own. Any other attribute is refused by its name.
pub proof fn law_user_attribute_values(user: UserView, attribute: Seq<char>, dn: Seq<char>)
    ensures
        user_attribute(user, attribute, dn) is Ok <==> is_user_attribute(attribute),
        user_attribute(user, attribute, dn) matches Ok(vals) ==> are_values_of_user(
            vals,
            user,
            attribute,
            dn,
        ),
        user_attribute(user, attribute, dn) matches Err(error) ==> error
            == ErrorView::UnsupportedUserAttribute(attribute),
{
    lemma_attribute_names();
}

/// An attribute has values for a group exactly when it is one of those that groups have; they are
/// the group's own, and its members are told by their distinguished names. Any other attribute is
/// refused by its name.
pub proof fn law_group_attribute_values(
    group: GroupView,
    base_dn: Seq<char>,
    attribute: Seq<char>,
)
    ensures
        group_attribute(group, base_dn, attribute) is Ok <==> is_group_attribute(attribute),
        group_attribute(group, base_dn, attribute) matches Ok(vals) ==> are_values_of_group(
            vals,
            group,
            attribute,
            base_dn,
        ),
        group_attribute(group, base_dn, attribute) matches Err(error) ==> error
            == ErrorView::UnsupportedGroupAttribute(attribute),
{
    lemma_attribute_names();
    if let Ok(vals) = group_attribute(group, base_dn, attribute) {
        if attribute == "uniqueMember"@ {
            assert forall|i: int| 0 <= i < vals.len() implies #[trigger] vals[i] == entry_dn(
                group.users[i],
                "people"@,
                base_dn,
            ) by {
                law_entry_dn_text(group.users[i], base_dn);
            }
        }
    }
}

/// The entry tells of the user, under the user's distinguished name, each attribute that was asked
/// for, in that order.
pub open spec fn tells_of_user(
    entry: EntryView,
    user: UserView,
    base_dn: Seq<char>,
    attributes: Seq<Seq<char>>,
) -> bool {
    &&& entry.dn == entry_dn(user.user_id, "people"@, base_dn)
    &&& entry.attributes.len() == attributes.len()
    &&& forall|i: int|
        0 <= i < attributes.len() ==> {
            &&& (#[trigger] entry.attributes[i]).atype == attributes[i]
            &&& are_values_of_user(entry.attributes[i].vals, user, attributes[i], entry.dn)
        }
}

/// The entry tells of the group, under the group's distinguished name, each attribute that was
/// asked for, in that order.
pub open spec fn tells_of_group(
    entry: EntryView,
    group: GroupView,
    base_dn: Seq<char>,
    attributes: Seq<Seq<char>>,
) -> bool {
    &&& entry.dn == entry_dn(group.display_name, "groups"@, base_dn)
    &&& entry.attributes.len() == attributes.len()
    &&& forall|i: int|
        0 <= i < attributes.len() ==> {
            &&& (#[trigger] entry.attributes[i]).atype == attributes[i]
            &&& are_values_of_group(entry.attributes[i].vals, group, attributes[i], base_dn)
        }
}

/// There is an entry of a user exactly when users have every attribute that is asked for, and it
/// then tells all of them.
pub proof fn law_user_entry_tells_of_the_user(
    user: UserView,
    base_dn: Seq<char>,
    attributes: Seq<Seq<char>>,
)
    ensures
        user_entry(user, base_dn, attributes) is Ok <==> first_are_user_attributes(
            attributes,
            attributes.len() as int,
        ),
        user_entry(user, base_dn, attributes) matches Ok(entry) ==> tells_of_user(
            entry,
            user,
            base_dn,
            attributes,
        ),
{
    let dn = user_dn(user.user_id, base_dn);
    law_entry_dn_text(user.user_id, base_dn);
    let results = user_attributes(user, base_dn, attributes);
    lemma_all_ok(results);
    assert forall|i: int| 0 <= i < results.len() implies ((#[trigger] results[i]) is Ok
        <==> is_user_attribute(attributes[i])) by {
        law_user_attribute_values(user, attributes[i], dn);
    }
    if all_or_first_error(results) is Ok {
        let found = all_or_first_error(results)->Ok_0;
        assert forall|i: int| 0 <= i < attributes.len() implies is_user_attribute(
            #[trigger] attributes[i],
        ) by {
            assert(results[i] is Ok);
        }
        assert forall|i: int| 0 <= i < attributes.len() implies (#[trigger] found[i]).atype
            == attributes[i] && are_values_of_user(found[i].vals, user, attributes[i], dn) by {
            assert(results[i] == Ok::<_, ErrorView>(found[i]));
            law_user_attribute_values(user, attributes[i], dn);
        }
    }
}

/// There is an entry of a group exactly when groups have every attribute that is asked for, and it
/// then tells all of them.
pub proof fn law_group_entry_tells_of_the_group(
    group: GroupView,
    base_dn: Seq<char>,
    attributes: Seq<Seq<char>>,
)
    ensures
        group_entry(group, base_dn, attributes) is Ok <==> first_are_group_attributes(
            attributes,
            attributes.len() as int,
        ),
        group_entry(group, base_dn, attributes) matches Ok(entry) ==> tells_of_group(
            entry,
            group,
            base_dn,
            attributes,
        ),
{
    law_entry_dn_text(group.display_name, base_dn);
    let results = group_attributes(group, base_dn, attributes);
    lemma_all_ok(results);
    assert forall|i: int| 0 <= i < results.len() implies ((#[trigger] results[i]) is Ok
        <==> is_group_attribute(attributes[i])) by {
        law_group_attribute_values(group, base_dn, attributes[i]);
    }
    if all_or_first_error(results) is Ok {
        let found = all_or_first_error(results)->Ok_0;
        assert forall|i: int| 0 <= i < attributes.len() implies is_group_attribute(
            #[trigger] attributes[i],
        ) by {
            assert(results[i] is Ok);
        }
        assert forall|i: int| 0 <= i < attributes.len() implies (#[trigger] found[i]).atype
            == attributes[i] && are_values_of_group(
            found[i].vals,
            group,
            attributes[i],
            base_dn,
        ) by {
            assert(results[i] == Ok::<_, ErrorView>(found[i]));
            law_group_attribute_values(group, base_dn, attributes[i]);
        }
    }
}

/// The person has the fields of the user.
pub open spec fn is_person_of(person: Person, user: UserView) -> bool {
    &&& person.user_id == user.user_id
    &&& person.email == user.email
    &&& person.display_name == user.display_name
    &&& person.first_name == user.first_name
    &&& person.last_name == user.last_name
}

/// A user is among those that a client wants by comparing an attribute with a value that the
/// user's own entry tells for it. (A distinguished name cannot be compared with.)
pub proof fn law_entry_values_find_the_user(
    person: Person,
    user: UserView,
    attribute: Seq<char>,
    dn: Seq<char>,
    base_dn: Seq<char>,
    i: int,
)
    requires
        is_person_of(person, user),
        attribute != "dn"@,
        user_attribute(user, attribute, dn) is Ok,
        0 <= i < user_attribute(user, attribute, dn)->Ok_0.len(),
    ensures
        is_wanted(
            person,
            FilterView::Equality(attribute, user_attribute(user, attribute, dn)->Ok_0[i]),
            base_dn,
        ),
{
    lemma_attribute_names();
}

/// A group has as many members as users were listed for it, each by the id of the user in that
/// place, and keeps its own id and name.
pub proof fn law_members_are_the_listed_users(group: GroupIdAndNameView, users: Seq<UserView>)
    ensures
        group_with_members(group, users).id == group.id,
        group_with_members(group, users).display_name == group.display_name,
        group_with_members(group, users).users.len() == users.len(),
        forall|i: int|
            0 <= i < users.len() ==> #[trigger] group_with_members(group, users).users[i]
                == users[i].user_id,
{
}

/// The members that a group's entry tells are the distinguished names of the entries of the users
/// that were listed for the group, in that order.
pub proof fn law_members_have_their_own_entries(
    group: GroupIdAndNameView,
    users: Seq<UserView>,
    base_dn: Seq<char>,
    attributes: Seq<Seq<char>>,
)
    requires
        first_are_user_attributes(attributes, attributes.len() as int),
    ensures
        group_attribute(group_with_members(group, users), base_dn, "uniqueMember"@) is Ok,
        ({
            let whole = group_with_members(group, users);
            let members = group_attribute(whole, base_dn, "uniqueMember"@)->Ok_0;
            &&& members.len() == users.len()
            &&& forall|i: int|
                0 <= i < users.len() ==> user_entry(#[trigger] users[i], base_dn, attributes) is Ok
                    && user_entry(users[i], base_dn, attributes)->Ok_0.dn == members[i]
        }),
{
    let whole = group_with_members(group, users);
    law_group_attribute_values(whole, base_dn, "uniqueMember"@);
    law_members_are_the_listed_users(group, users);
    let members = group_attribute(whole, base_dn, "uniqueMember"@)->Ok_0;
    assert forall|i: int| 0 <= i < users.len() implies user_entry(
        #[trigger] users[i],
        base_dn,
        attributes,
    ) is Ok && user_entry(users[i], base_dn, attributes)->Ok_0.dn == members[i] by {
        law_user_entry_tells_of_the_user(users[i], base_dn, attributes);
        assert(whole.users[i] == users[i].user_id);
    }
}

} // verus!

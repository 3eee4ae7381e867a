//! What holds of whole searches.
use crate::collect::{all_or_first_error, lemma_all_ok, lemma_first_error, lemma_next_ok};
use crate::dn::{group_dn, user_dn};
use crate::dn_laws::{is_plain, law_group_dn, law_user_dn};
use crate::domain::{BindRequestView, GroupIdAndNameView, GroupView, RequestFilterView, UserView};
use crate::entry::{
    group_attribute, group_attributes, group_entry, user_attribute, user_attributes, user_entry,
};
use crate::error::ErrorView;
use crate::filter::{group_filter, user_filter};
use crate::message::{
    search_done, search_entry, search_success, BindView, EntryView, FilterView, LdapResultCode,
    MsgView, SearchView,
};
use crate::step::{
    bind_step, entries_answer, group_entries, group_with_members, groups_list_answer, members_step,
    next_members_step, serves, user_entries, user_groups_failure, user_groups_step,
    user_list_answer, BindStepView, HandlerView, SearchStepView,
};
use vstd::prelude::*;

verus! {

/// Whether users have the attribute.
pub open spec fn is_user_attribute(attribute: Seq<char>) -> bool {
    ||| attribute == "objectClass"@
    ||| attribute == "dn"@
    ||| attribute == "uid"@
    ||| attribute == "mail"@
    ||| attribute == "givenName"@
    ||| attribute == "sn"@
    ||| attribute == "cn"@
    ||| attribute == "displayName"@
    ||| attribute == "supportedExtension"@
}

/// Whether groups have the attribute.
pub open spec fn is_group_attribute(attribute: Seq<char>) -> bool {
    ||| attribute == "objectClass"@
    ||| attribute == "cn"@
    ||| attribute == "uniqueMember"@
    ||| attribute == "supportedExtension"@
}

/// Every one of the first `n` attributes is one that users have.
pub open spec fn first_are_user_attributes(attributes: Seq<Seq<char>>, n: int) -> bool {
    forall|i: int| 0 <= i < n ==> is_user_attribute(#[trigger] attributes[i])
}

/// Every one of the first `n` attributes is one that groups have.
pub open spec fn first_are_group_attributes(attributes: Seq<Seq<char>>, n: int) -> bool {
    forall|i: int| 0 <= i < n ==> is_group_attribute(#[trigger] attributes[i])
}

/// The entry holds the attributes that were asked for, in that order, with the values that the
/// user has for them, under the user's distinguished name.
pub open spec fn is_entry_of_user(
    entry: EntryView,
    user: UserView,
    base_dn: Seq<char>,
    attributes: Seq<Seq<char>>,
) -> bool {
    &&& entry.dn == user_dn(user.user_id, base_dn)
    &&& entry.attributes.len() == attributes.len()
    &&& forall|i: int|
        0 <= i < attributes.len() ==> {
            &&& (#[trigger] entry.attributes[i]).atype == attributes[i]
            &&& user_attribute(user, attributes[i], entry.dn) == Ok::<_, ErrorView>(
                entry.attributes[i].vals,
            )
        }
}

/// The entry holds the attributes that were asked for, in that order, with the values that the
/// group has for them, under the group's distinguished name.
pub open spec fn is_entry_of_group(
    entry: EntryView,
    group: GroupView,
    base_dn: Seq<char>,
    attributes: Seq<Seq<char>>,
) -> bool {
    &&& entry.dn == group_dn(group.display_name, base_dn)
    &&& entry.attributes.len() == attributes.len()
    &&& forall|i: int|
        0 <= i < attributes.len() ==> {
            &&& (#[trigger] entry.attributes[i]).atype == attributes[i]
            &&& group_attribute(group, base_dn, attributes[i]) == Ok::<_, ErrorView>(
                entry.attributes[i].vals,
            )
        }
}

proof fn lemma_user_entry(user: UserView, base_dn: Seq<char>, attributes: Seq<Seq<char>>)
    requires
        first_are_user_attributes(attributes, attributes.len() as int),
    ensures
        user_entry(user, base_dn, attributes) matches Ok(entry) && is_entry_of_user(
            entry,
            user,
            base_dn,
            attributes,
        ),
{
    let results = user_attributes(user, base_dn, attributes);
    lemma_all_ok(results);
    assert forall|i: int| 0 <= i < results.len() implies (#[trigger] results[i]) is Ok by {
        assert(is_user_attribute(attributes[i]));
    }
    let found = all_or_first_error(results)->Ok_0;
    assert forall|i: int| 0 <= i < attributes.len() implies (#[trigger] found[i]).atype
        == attributes[i] && user_attribute(user, attributes[i], user_dn(user.user_id, base_dn))
        == Ok::<_, ErrorView>(found[i].vals) by {
        assert(results[i] == Ok::<_, ErrorView>(found[i]));
    }
}

proof fn lemma_no_user_entry(
    user: UserView,
    base_dn: Seq<char>,
    attributes: Seq<Seq<char>>,
    n: int,
)
    requires
        0 <= n < attributes.len(),
        first_are_user_attributes(attributes, n),
        !is_user_attribute(attributes[n]),
    ensures
        user_entry(user, base_dn, attributes) == Err::<EntryView, _>(
            ErrorView::UnsupportedUserAttribute(attributes[n]),
        ),
{
    let results = user_attributes(user, base_dn, attributes);
    lemma_all_ok(results.take(n));
    assert forall|i: int| 0 <= i < n implies (#[trigger] results.take(n)[i]) is Ok by {
        assert(is_user_attribute(attributes[i]));
    }
    lemma_first_error(results, n, ErrorView::UnsupportedUserAttribute(attributes[n]));
}

proof fn lemma_group_entry(group: GroupView, base_dn: Seq<char>, attributes: Seq<Seq<char>>)
    requires
        first_are_group_attributes(attributes, attributes.len() as int),
    ensures
        group_entry(group, base_dn, attributes) matches Ok(entry) && is_entry_of_group(
            entry,
            group,
            base_dn,
            attributes,
        ),
{
    let results = group_attributes(group, base_dn, attributes);
    lemma_all_ok(results);
    assert forall|i: int| 0 <= i < results.len() implies (#[trigger] results[i]) is Ok by {
        assert(is_group_attribute(attributes[i]));
    }
    let found = all_or_first_error(results)->Ok_0;
    assert forall|i: int| 0 <= i < attributes.len() implies (#[trigger] found[i]).atype
        == attributes[i] && group_attribute(group, base_dn, attributes[i]) == Ok::<_, ErrorView>(
        found[i].vals,
    ) by {
        assert(results[i] == Ok::<_, ErrorView>(found[i]));
    }
}

proof fn lemma_no_group_entry(
    group: GroupView,
    base_dn: Seq<char>,
    attributes: Seq<Seq<char>>,
    n: int,
)
    requires
        0 <= n < attributes.len(),
        first_are_group_attributes(attributes, n),
        !is_group_attribute(attributes[n]),
    ensures
        group_entry(group, base_dn, attributes) == Err::<EntryView, _>(
            ErrorView::UnsupportedGroupAttribute(attributes[n]),
        ),
{
    let results = group_attributes(group, base_dn, attributes);
    lemma_all_ok(results.take(n));
    assert forall|i: int| 0 <= i < n implies (#[trigger] results.take(n)[i]) is Ok by {
        assert(is_group_attribute(attributes[i]));
    }
    lemma_first_error(results, n, ErrorView::UnsupportedGroupAttribute(attributes[n]));
}

proof fn lemma_all_entries(msgid: i32, entries: Seq<Result<EntryView, ErrorView>>)
    requires
        forall|i: int| 0 <= i < entries.len() ==> (#[trigger] entries[i]) is Ok,
    ensures
        entries_answer(msgid, entries).len() == entries.len() + 1,
        forall|i: int|
            0 <= i < entries.len() ==> #[trigger] entries_answer(msgid, entries)[i]
                == search_entry(msgid, entries[i]->Ok_0),
        entries_answer(msgid, entries).last() == search_success(msgid),
{
    lemma_all_ok(entries);
    let made = all_or_first_error(entries)->Ok_0;
    assert forall|i: int| 0 <= i < entries.len() implies #[trigger] entries_answer(
        msgid,
        entries,
    )[i] == search_entry(msgid, entries[i]->Ok_0) by {
        assert(entries[i] == Ok::<_, ErrorView>(made[i]));
    }
}

/// A search for users that asks for attributes that users have is answered with one entry for
/// each user that the directory listed, in its order, and then a success.
pub proof fn law_user_search_returns_everyone(
    h: HandlerView,
    lsr: SearchView,
    users: Seq<UserView>,
)
    requires
        first_are_user_attributes(lsr.attrs, lsr.attrs.len() as int),
    ensures
        ({
            let msgs = user_list_answer(h, lsr, Ok(users));
            &&& msgs.len() == users.len() + 1
            &&& msgs.last() == search_success(lsr.msgid)
            &&& forall|i: int|
                0 <= i < users.len() ==> exists|entry: EntryView|
                    #[trigger] msgs[i] == search_entry(lsr.msgid, entry) && is_entry_of_user(
                        entry,
                        users[i],
                        h.base_dn,
                        lsr.attrs,
                    )
        }),
{
    let entries = user_entries(h, lsr, users);
    let msgs = user_list_answer(h, lsr, Ok(users));
    assert forall|i: int| 0 <= i < entries.len() implies (#[trigger] entries[i]) is Ok by {
        lemma_user_entry(users[i], h.base_dn, lsr.attrs);
    }
    lemma_all_entries(lsr.msgid, entries);
    assert forall|i: int| 0 <= i < users.len() implies exists|entry: EntryView|
        #[trigger] msgs[i] == search_entry(lsr.msgid, entry) && is_entry_of_user(
            entry,
            users[i],
            h.base_dn,
            lsr.attrs,
        ) by {
        lemma_user_entry(users[i], h.base_dn, lsr.attrs);
        let entry = entries[i]->Ok_0;
        assert(msgs[i] == search_entry(lsr.msgid, entry));
    }
}

/// A search for users that asks for an attribute that users do not have is answered with an
/// error about the first such attribute and nothing else; where there are no users it succeeds.
pub proof fn law_user_search_of_unknown_attribute(
    h: HandlerView,
    lsr: SearchView,
    users: Seq<UserView>,
    n: int,
)
    requires
        0 <= n < lsr.attrs.len(),
        first_are_user_attributes(lsr.attrs, n),
        !is_user_attribute(lsr.attrs[n]),
    ensures
        user_list_answer(h, lsr, Ok(users)) == if users.len() == 0 {
            seq![search_success(lsr.msgid)]
        } else {
            seq![
                search_done(
                    lsr.msgid,
                    LdapResultCode::NoSuchAttribute,
                    "Unsupported user attribute: "@ + lsr.attrs[n],
                ),
            ]
        },
{
    let entries = user_entries(h, lsr, users);
    if users.len() == 0 {
        assert(user_list_answer(h, lsr, Ok(users)) =~= seq![search_success(lsr.msgid)]);
    } else {
        lemma_no_user_entry(users[0], h.base_dn, lsr.attrs, n);
        assert(entries.take(0) =~= Seq::empty());
        lemma_first_error(entries, 0, ErrorView::UnsupportedUserAttribute(lsr.attrs[n]));
    }
}

/// A search for groups that asks for attributes that groups have is answered with one entry for
/// each group that the directory listed, in its order, and then a success.
pub proof fn law_group_search_returns_every_group(
    h: HandlerView,
    lsr: SearchView,
    groups: Seq<GroupView>,
)
    requires
        first_are_group_attributes(lsr.attrs, lsr.attrs.len() as int),
    ensures
        ({
            let msgs = groups_list_answer(h, lsr, Ok(groups));
            &&& msgs.len() == groups.len() + 1
            &&& msgs.last() == search_success(lsr.msgid)
            &&& forall|i: int|
                0 <= i < groups.len() ==> exists|entry: EntryView|
                    #[trigger] msgs[i] == search_entry(lsr.msgid, entry) && is_entry_of_group(
                        entry,
                        groups[i],
                        h.base_dn,
                        lsr.attrs,
                    )
        }),
{
    let entries = group_entries(h, lsr, groups);
    let msgs = groups_list_answer(h, lsr, Ok(groups));
    assert forall|i: int| 0 <= i < entries.len() implies (#[trigger] entries[i]) is Ok by {
        lemma_group_entry(groups[i], h.base_dn, lsr.attrs);
    }
    lemma_all_entries(lsr.msgid, entries);
    assert forall|i: int| 0 <= i < groups.len() implies exists|entry: EntryView|
        #[trigger] msgs[i] == search_entry(lsr.msgid, entry) && is_entry_of_group(
            entry,
            groups[i],
            h.base_dn,
            lsr.attrs,
        ) by {
        lemma_group_entry(groups[i], h.base_dn, lsr.attrs);
        let entry = entries[i]->Ok_0;
        assert(msgs[i] == search_entry(lsr.msgid, entry));
    }
}

/// A search for groups that asks for an attribute that groups do not have is answered with an
/// error about the first such attribute and nothing else; where there are no groups it succeeds.
pub proof fn law_group_search_of_unknown_attribute(
    h: HandlerView,
    lsr: SearchView,
    groups: Seq<GroupView>,
    n: int,
)
    requires
        0 <= n < lsr.attrs.len(),
        first_are_group_attributes(lsr.attrs, n),
        !is_group_attribute(lsr.attrs[n]),
    ensures
        groups_list_answer(h, lsr, Ok(groups)) == if groups.len() == 0 {
            seq![search_success(lsr.msgid)]
        } else {
            seq![
                search_done(
                    lsr.msgid,
                    LdapResultCode::NoSuchAttribute,
                    "Unsupported group attribute: "@ + lsr.attrs[n],
                ),
            ]
        },
{
    let entries = group_entries(h, lsr, groups);
    if groups.len() == 0 {
        assert(groups_list_answer(h, lsr, Ok(groups)) =~= seq![search_success(lsr.msgid)]);
    } else {
        lemma_no_group_entry(groups[0], h.base_dn, lsr.attrs, n);
        assert(entries.take(0) =~= Seq::empty());
        lemma_first_error(entries, 0, ErrorView::UnsupportedGroupAttribute(lsr.attrs[n]));
    }
}

/// A client can bind as a user with the distinguished name of the user's entry, where the id
/// holds no separator.
pub proof fn law_user_entry_can_bind(
    h: HandlerView,
    base_dn: Seq<char>,
    ldap_user: Seq<char>,
    user: UserView,
    attributes: Seq<Seq<char>>,
    msgid: i32,
    pw: Seq<char>,
)
    requires
        serves(h, base_dn, ldap_user),
        is_plain(user.user_id),
        user_entry(user, base_dn, attributes) is Ok,
    ensures
        bind_step(h, BindView { msgid, dn: user_entry(user, base_dn, attributes)->Ok_0.dn, pw })
            == BindStepView::Authenticate(BindRequestView { name: user.user_id, password: pw }),
{
    law_user_dn(user_dn(user.user_id, base_dn), user.user_id, h.base_tree, base_dn);
}

/// The distinguished name of a group's entry selects the members of that group, where its name
/// holds no separator.
pub proof fn law_group_entry_selects_members(
    h: HandlerView,
    base_dn: Seq<char>,
    ldap_user: Seq<char>,
    group: GroupView,
    attributes: Seq<Seq<char>>,
)
    requires
        serves(h, base_dn, ldap_user),
        is_plain(group.display_name),
        group_entry(group, base_dn, attributes) is Ok,
    ensures
        user_filter(
            FilterView::Equality(
                "memberOf"@,
                group_entry(group, base_dn, attributes)->Ok_0.dn,
            ),
            h.base_tree,
            h.base_dn,
        ) == Ok::<_, ErrorView>(RequestFilterView::MemberOf(group.display_name)),
{
    law_group_dn(group_dn(group.display_name, base_dn), group.display_name, h.base_tree, base_dn);
}

/// Each member that a group's entry tells selects the groups of that user, under either name for
/// the field, where the user's id holds no separator.
pub proof fn law_members_select_their_groups(
    h: HandlerView,
    base_dn: Seq<char>,
    ldap_user: Seq<char>,
    group: GroupView,
    i: int,
)
    requires
        serves(h, base_dn, ldap_user),
        0 <= i < group.users.len(),
        is_plain(group.users[i]),
    ensures
        group_attribute(group, base_dn, "uniqueMember"@) matches Ok(members) && {
            &&& members.len() == group.users.len()
            &&& group_filter(
                FilterView::Equality("uniqueMember"@, members[i]),
                h.base_tree,
                h.base_dn,
            ) == Ok::<_, ErrorView>(Some(group.users[i]))
            &&& group_filter(
                FilterView::Equality("member"@, members[i]),
                h.base_tree,
                h.base_dn,
            ) == Ok::<_, ErrorView>(Some(group.users[i]))
        },
{
    reveal_strlit("uniqueMember");
    reveal_strlit("objectClass");
    reveal_strlit("cn");
    assert("uniqueMember"@.len() == 12);
    assert("objectClass"@.len() == 11);
    assert("cn"@.len() == 2);
    law_user_dn(user_dn(group.users[i], base_dn), group.users[i], h.base_tree, base_dn);
}

/// A directory that answers the same question in the same way each time.
pub struct Directory {
    pub list_users: spec_fn(Option<RequestFilterView>) -> Result<Seq<UserView>, Seq<char>>,
    pub get_user_groups: spec_fn(Seq<char>) -> Result<Seq<GroupIdAndNameView>, Seq<char>>,
    pub list_groups: Result<Seq<GroupView>, Seq<char>>,
}

/// The messages that a search ends with, where it goes on with `step` and `directory` answers.
pub open spec fn search_outcome(
    h: HandlerView,
    lsr: SearchView,
    step: SearchStepView,
    directory: Directory,
) -> Seq<MsgView>
    decreases
            (if step is GetUserGroups {
                1int
            } else {
                0int
            }),
            (if step is ListMembers {
                step->ListMembers_1.rest.len() + 1
            } else {
                0
            }),
{
    match step {
        SearchStepView::Reply(msgs) => msgs,
        SearchStepView::ListUsers(filter) => user_list_answer(
            h,
            lsr,
            (directory.list_users)(filter),
        ),
        SearchStepView::GetUserGroups(user_id) => search_outcome(
            h,
            lsr,
            user_groups_step(h, lsr, (directory.get_user_groups)(user_id)),
            directory,
        ),
        SearchStepView::ListMembers(filter, listing) => search_outcome(
            h,
            lsr,
            members_step(h, lsr, listing, (directory.list_users)(filter)),
            directory,
        ),
        SearchStepView::ListGroups => groups_list_answer(h, lsr, directory.list_groups),
    }
}

/// The group with the members that the directory lists for it.
pub open spec fn listed_group(directory: Directory, group: GroupIdAndNameView) -> Result<
    GroupView,
    Seq<char>,
> {
    match (directory.list_users)(Some(RequestFilterView::MemberOfId(group.id))) {
        Ok(users) => Ok(group_with_members(group, users)),
        Err(text) => Err(text),
    }
}

/// The groups with the members that the directory lists for them.
pub open spec fn listed_groups(directory: Directory, groups: Seq<GroupIdAndNameView>) -> Seq<
    Result<GroupView, Seq<char>>,
> {
    groups.map_values(|group: GroupIdAndNameView| listed_group(directory, group))
}

proof fn lemma_members_are_listed_in_turn(
    h: HandlerView,
    lsr: SearchView,
    directory: Directory,
    groups: Seq<GroupIdAndNameView>,
    n: int,
    known: Seq<GroupView>,
)
    requires
        0 <= n <= groups.len(),
        all_or_first_error(listed_groups(directory, groups).take(n)) == Ok::<_, Seq<char>>(known),
    ensures
        search_outcome(h, lsr, next_members_step(h, lsr, groups.skip(n), known), directory)
            == match all_or_first_error(listed_groups(directory, groups)) {
            Ok(groups) => groups_list_answer(h, lsr, Ok(groups)),
            Err(text) => user_groups_failure(lsr, text)->Reply_0,
        },
    decreases groups.len() - n,
{
    reveal_with_fuel(search_outcome, 2);
    let results = listed_groups(directory, groups);
    if n == groups.len() {
        assert(results.take(n) =~= results);
    } else {
        let rest = groups.skip(n);
        assert(rest[0] == groups[n]);
        assert(rest.skip(1) =~= groups.skip(n + 1));
        match listed_group(directory, groups[n]) {
            Ok(group) => {
                lemma_next_ok(results, n, known, group);
                lemma_members_are_listed_in_turn(
                    h,
                    lsr,
                    directory,
                    groups,
                    n + 1,
                    known.push(group),
                );
            },
            Err(text) => {
                lemma_first_error(results, n, text);
            },
        }
    }
}

/// A search for the groups of a user is answered with the groups that the directory has for the
/// user, in its order, each with the members that the directory lists for it; the first question
/// that the directory fails to answer ends the search with its error.
pub proof fn law_groups_of_a_user(
    h: HandlerView,
    lsr: SearchView,
    directory: Directory,
    user_id: Seq<char>,
)
    ensures
        search_outcome(h, lsr, SearchStepView::GetUserGroups(user_id), directory)
            == match (directory.get_user_groups)(user_id) {
            Ok(groups) => match all_or_first_error(listed_groups(directory, groups)) {
                Ok(groups) => groups_list_answer(h, lsr, Ok(groups)),
                Err(text) => user_groups_failure(lsr, text)->Reply_0,
            },
            Err(text) => user_groups_failure(lsr, text)->Reply_0,
        },
{
    reveal_with_fuel(search_outcome, 2);
    match (directory.get_user_groups)(user_id) {
        Ok(groups) => {
            assert(groups.skip(0) =~= groups);
            assert(listed_groups(directory, groups).take(0) =~= Seq::empty());
            lemma_members_are_listed_in_turn(h, lsr, directory, groups, 0, Seq::empty());
        },
        Err(_) => {},
    }
}

} // verus!

use crate::collect::{all_or_first_error, lemma_first_error, lemma_next_ok};
use crate::dn::{format_group_dn, format_user_dn, group_dn, user_dn};
use crate::domain::{Group, GroupView, User, UserView};
use crate::error::{outcome_view, Error, ErrorView};
use crate::message::{AttributeView, EntryView, LdapPartialAttribute, LdapSearchResultEntry};
use crate::text::same_text;
use vstd::prelude::*;

verus! {

/// The values of an attribute of a user whose distinguished name is `dn`.
pub open spec fn user_attribute(user: UserView, attribute: Seq<char>, dn: Seq<char>) -> Result<
    Seq<Seq<char>>,
    ErrorView,
> {
    if attribute == "objectClass"@ {
        Ok(seq!["inetOrgPerson"@, "posixAccount"@, "mailAccount"@, "person"@])
    } else if attribute == "dn"@ {
        Ok(seq![dn])
    } else if attribute == "uid"@ {
        Ok(seq![user.user_id])
    } else if attribute == "mail"@ {
        Ok(seq![user.email])
    } else if attribute == "givenName"@ {
        Ok(seq![user.first_name])
    } else if attribute == "sn"@ {
        Ok(seq![user.last_name])
    } else if attribute == "cn"@ || attribute == "displayName"@ {
        Ok(seq![user.display_name])
    } else if attribute == "supportedExtension"@ {
        Ok(seq![])
    } else {
        Err(ErrorView::UnsupportedUserAttribute(attribute))
    }
}

/// The values of an attribute of a group below the base `base_dn`.
pub open spec fn group_attribute(
    group: GroupView,
    base_dn: Seq<char>,
    attribute: Seq<char>,
) -> Result<Seq<Seq<char>>, ErrorView> {
    if attribute == "objectClass"@ {
        Ok(seq!["groupOfUniqueNames"@])
    } else if attribute == "cn"@ {
        Ok(seq![group.display_name])
    } else if attribute == "uniqueMember"@ {
        Ok(group.users.map_values(|user_id: Seq<char>| user_dn(user_id, base_dn)))
    } else if attribute == "supportedExtension"@ {
        Ok(seq![])
    } else {
        Err(ErrorView::UnsupportedGroupAttribute(attribute))
    }
}

/// An attribute of an entry, once its values are known.
pub open spec fn named_attribute(
    atype: Seq<char>,
    vals: Result<Seq<Seq<char>>, ErrorView>,
) -> Result<AttributeView, ErrorView> {
    match vals {
        Ok(vals) => Ok(AttributeView { atype, vals }),
        Err(error) => Err(error),
    }
}

/// An entry with the distinguished name `dn`, once its attributes are known.
pub open spec fn named_entry(
    dn: Seq<char>,
    attributes: Seq<Result<AttributeView, ErrorView>>,
) -> Result<EntryView, ErrorView> {
    match all_or_first_error(attributes) {
        Ok(attributes) => Ok(EntryView { dn, attributes }),
        Err(error) => Err(error),
    }
}

/// The requested attributes of a user.
pub open spec fn user_attributes(
    user: UserView,
    base_dn: Seq<char>,
    attributes: Seq<Seq<char>>,
) -> Seq<Result<AttributeView, ErrorView>> {
    attributes.map_values(
        |a: Seq<char>| named_attribute(a, user_attribute(user, a, user_dn(user.user_id, base_dn))),
    )
}

/// The requested attributes of a group.
pub open spec fn group_attributes(
    group: GroupView,
    base_dn: Seq<char>,
    attributes: Seq<Seq<char>>,
) -> Seq<Result<AttributeView, ErrorView>> {
    attributes.map_values(
        |a: Seq<char>| named_attribute(a, group_attribute(group, base_dn, a)),
    )
}

/// The entry of a user with the requested attributes in the requested order, or the error of
/// the first attribute that is not supported.
pub open spec fn user_entry(
    user: UserView,
    base_dn: Seq<char>,
    attributes: Seq<Seq<char>>,
) -> Result<EntryView, ErrorView> {
    named_entry(user_dn(user.user_id, base_dn), user_attributes(user, base_dn, attributes))
}

/// The entry of a group with the requested attributes in the requested order, or the error of
/// the first attribute that is not supported.
pub open spec fn group_entry(
    group: GroupView,
    base_dn: Seq<char>,
    attributes: Seq<Seq<char>>,
) -> Result<EntryView, ErrorView> {
    named_entry(group_dn(group.display_name, base_dn), group_attributes(group, base_dn, attributes))
}

fn single(value: String) -> (vals: Vec<String>)
    ensures
        vals.deep_view() == seq![value@],
{
    let mut vals: Vec<String> = Vec::new();
    vals.push(value);
    assert(vals.deep_view() =~= seq![value@]);
    vals
}

fn none() -> (vals: Vec<String>)
    ensures
        vals.deep_view() == Seq::<Seq<char>>::empty(),
{
    let vals: Vec<String> = Vec::new();
    assert(vals.deep_view() =~= Seq::empty());
    vals
}

fn user_object_classes() -> (vals: Vec<String>)
    ensures
        vals.deep_view() == seq!["inetOrgPerson"@, "posixAccount"@, "mailAccount"@, "person"@],
{
    let mut vals: Vec<String> = Vec::new();
    vals.push("inetOrgPerson".to_owned());
    vals.push("posixAccount".to_owned());
    vals.push("mailAccount".to_owned());
    vals.push("person".to_owned());
    assert(vals.deep_view() =~= seq![
        "inetOrgPerson"@,
        "posixAccount"@,
        "mailAccount"@,
        "person"@,
    ]);
    vals
}

/// The values of an attribute of a user whose distinguished name is `dn`.
pub fn get_user_attribute(user: &User, attribute: &str, dn: &str) -> (res: Result<
    Vec<String>,
    Error,
>)
    ensures
        outcome_view(res) == user_attribute(user.deep_view(), attribute@, dn@),
{
    if same_text(attribute, "objectClass") {
        Ok(user_object_classes())
    } else if same_text(attribute, "dn") {
        Ok(single(dn.to_owned()))
    } else if same_text(attribute, "uid") {
        Ok(single(user.user_id.clone()))
    } else if same_text(attribute, "mail") {
        Ok(single(user.email.clone()))
    } else if same_text(attribute, "givenName") {
        Ok(single(user.first_name.clone()))
    } else if same_text(attribute, "sn") {
        Ok(single(user.last_name.clone()))
    } else if same_text(attribute, "cn") || same_text(attribute, "displayName") {
        Ok(single(user.display_name.clone()))
    } else if same_text(attribute, "supportedExtension") {
        Ok(none())
    } else {
        Err(Error::UnsupportedUserAttribute(attribute.to_owned()))
    }
}

fn member_dns(users: &Vec<String>, base_dn_str: &str) -> (dns: Vec<String>)
    ensures
        dns.deep_view() == users.deep_view().map_values(
            |user_id: Seq<char>| user_dn(user_id, base_dn_str@),
        ),
{
    let ghost all = users.deep_view().map_values(
        |user_id: Seq<char>| user_dn(user_id, base_dn_str@),
    );
    let mut dns: Vec<String> = Vec::new();
    for i in 0..users.len()
        invariant
            all == users.deep_view().map_values(
                |user_id: Seq<char>| user_dn(user_id, base_dn_str@),
            ),
            dns.deep_view() == all.take(i as int),
    {
        let ghost before = dns.deep_view();
        dns.push(format_user_dn(&users[i], base_dn_str));
        assert(users.deep_view()[i as int] == users[i as int]@);
        assert(dns.deep_view() =~= before.push(all[i as int]));
        assert(all.take(i + 1) =~= before.push(all[i as int]));
    }
    assert(all.take(users@.len() as int) =~= all);
    dns
}

/// The values of an attribute of a group.
pub fn get_group_attribute(group: &Group, base_dn_str: &str, attribute: &str) -> (res: Result<
    Vec<String>,
    Error,
>)
    ensures
        outcome_view(res) == group_attribute(group.deep_view(), base_dn_str@, attribute@),
{
    if same_text(attribute, "objectClass") {
        Ok(single("groupOfUniqueNames".to_owned()))
    } else if same_text(attribute, "cn") {
        Ok(single(group.display_name.clone()))
    } else if same_text(attribute, "uniqueMember") {
        Ok(member_dns(&group.users, base_dn_str))
    } else if same_text(attribute, "supportedExtension") {
        Ok(none())
    } else {
        Err(Error::UnsupportedGroupAttribute(attribute.to_owned()))
    }
}

/// The entry that a search returns for a user.
pub fn make_ldap_search_user_result_entry(
    user: &User,
    base_dn_str: &str,
    attributes: &[String],
) -> (res: Result<LdapSearchResultEntry, Error>)
    ensures
        outcome_view(res) == user_entry(user.deep_view(), base_dn_str@, attributes.deep_view()),
{
    let dn = format_user_dn(&user.user_id, base_dn_str);
    let ghost results = user_attributes(user.deep_view(), base_dn_str@, attributes.deep_view());
    let mut found: Vec<LdapPartialAttribute> = Vec::new();
    assert(found.deep_view() =~= Seq::empty());
    assert(results.take(0) =~= Seq::empty());
    for i in 0..attributes.len()
        invariant
            dn@ == user_dn(user.user_id@, base_dn_str@),
            results == user_attributes(user.deep_view(), base_dn_str@, attributes.deep_view()),
            all_or_first_error(results.take(i as int)) == Ok::<Seq<AttributeView>, ErrorView>(
                found.deep_view(),
            ),
    {
        assert(attributes.deep_view()[i as int] == attributes[i as int]@);
        match get_user_attribute(user, &attributes[i], &dn) {
            Ok(vals) => {
                let ghost before = found.deep_view();
                let attribute = LdapPartialAttribute { atype: attributes[i].clone(), vals };
                proof {
                    lemma_next_ok(results, i as int, before, attribute.deep_view());
                }
                found.push(attribute);
                assert(found.deep_view() =~= before.push(attribute.deep_view()));
            },
            Err(error) => {
                proof {
                    lemma_first_error(results, i as int, error.deep_view());
                }
                return Err(error);
            },
        }
    }
    assert(results.take(attributes@.len() as int) =~= results);
    Ok(LdapSearchResultEntry { dn, attributes: found })
}

/// The entry that a search returns for a group.
pub fn make_ldap_search_group_result_entry(
    group: &Group,
    base_dn_str: &str,
    attributes: &[String],
) -> (res: Result<LdapSearchResultEntry, Error>)
    ensures
        outcome_view(res) == group_entry(group.deep_view(), base_dn_str@, attributes.deep_view()),
{
    let ghost results = group_attributes(group.deep_view(), base_dn_str@, attributes.deep_view());
    let mut found: Vec<LdapPartialAttribute> = Vec::new();
    assert(found.deep_view() =~= Seq::empty());
    assert(results.take(0) =~= Seq::empty());
    for i in 0..attributes.len()
        invariant
            results == group_attributes(group.deep_view(), base_dn_str@, attributes.deep_view()),
            all_or_first_error(results.take(i as int)) == Ok::<Seq<AttributeView>, ErrorView>(
                found.deep_view(),
            ),
    {
        assert(attributes.deep_view()[i as int] == attributes[i as int]@);
        match get_group_attribute(group, base_dn_str, &attributes[i]) {
            Ok(vals) => {
                let ghost before = found.deep_view();
                let attribute = LdapPartialAttribute { atype: attributes[i].clone(), vals };
                proof {
                    lemma_next_ok(results, i as int, before, attribute.deep_view());
                }
                found.push(attribute);
                assert(found.deep_view() =~= before.push(attribute.deep_view()));
            },
            Err(error) => {
                proof {
                    lemma_first_error(results, i as int, error.deep_view());
                }
                return Err(error);
            },
        }
    }
    assert(results.take(attributes@.len() as int) =~= results);
    Ok(
        LdapSearchResultEntry {
            dn: format_group_dn(&group.display_name, base_dn_str),
            attributes: found,
        },
    )
}

} // verus!

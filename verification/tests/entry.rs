use ldap_handler::domain::{Group, GroupId, User};
use ldap_handler::entry::{
    get_group_attribute, get_user_attribute, make_ldap_search_group_result_entry,
    make_ldap_search_user_result_entry,
};
use ldap_handler::error::Error;
use ldap_handler::filter::map_field;
use ldap_handler::message::{LdapPartialAttribute, LdapSearchResultEntry};

fn user() -> User {
    User {
        user_id: "bob_1".to_string(),
        email: "bob@bobmail.bob".to_string(),
        display_name: "Bôb Böbberson".to_string(),
        first_name: "Bôb".to_string(),
        last_name: "Böbberson".to_string(),
    }
}

fn group() -> Group {
    Group {
        id: GroupId(3),
        display_name: "rockstars".to_string(),
        users: vec!["bob_1".to_string(), "jim".to_string()],
    }
}

#[test]
fn user_attributes() {
    let user = user();
    let get = |attribute: &str| get_user_attribute(&user, attribute, "the dn");
    assert_eq!(
        get("objectClass").unwrap(),
        ["inetOrgPerson", "posixAccount", "mailAccount", "person"]
    );
    assert_eq!(get("dn").unwrap(), ["the dn"]);
    assert_eq!(get("uid").unwrap(), ["bob_1"]);
    assert_eq!(get("mail").unwrap(), ["bob@bobmail.bob"]);
    assert_eq!(get("givenName").unwrap(), ["Bôb"]);
    assert_eq!(get("sn").unwrap(), ["Böbberson"]);
    assert_eq!(get("cn").unwrap(), ["Bôb Böbberson"]);
    assert_eq!(get("displayName").unwrap(), ["Bôb Böbberson"]);
    assert_eq!(get("supportedExtension").unwrap(), Vec::<String>::new());
    assert_eq!(
        get("UID"),
        Err(Error::UnsupportedUserAttribute("UID".to_string()))
    );
}

#[test]
fn group_attributes() {
    let group = group();
    let get = |attribute: &str| get_group_attribute(&group, "dc=b", attribute);
    assert_eq!(get("objectClass").unwrap(), ["groupOfUniqueNames"]);
    assert_eq!(get("cn").unwrap(), ["rockstars"]);
    assert_eq!(
        get("uniqueMember").unwrap(),
        ["cn=bob_1,ou=people,dc=b", "cn=jim,ou=people,dc=b"]
    );
    assert_eq!(get("supportedExtension").unwrap(), Vec::<String>::new());
    assert_eq!(
        get("dn"),
        Err(Error::UnsupportedGroupAttribute("dn".to_string()))
    );
}

#[test]
fn entries_hold_the_attributes_in_the_requested_order() {
    assert_eq!(
        make_ldap_search_user_result_entry(
            &user(),
            "dc=b",
            &["uid".to_string(), "dn".to_string(), "uid".to_string()]
        ),
        Ok(LdapSearchResultEntry {
            dn: "cn=bob_1,ou=people,dc=b".to_string(),
            attributes: vec![
                LdapPartialAttribute {
                    atype: "uid".to_string(),
                    vals: vec!["bob_1".to_string()],
                },
                LdapPartialAttribute {
                    atype: "dn".to_string(),
                    vals: vec!["cn=bob_1,ou=people,dc=b".to_string()],
                },
                LdapPartialAttribute {
                    atype: "uid".to_string(),
                    vals: vec!["bob_1".to_string()],
                },
            ],
        })
    );
    assert_eq!(
        make_ldap_search_group_result_entry(&group(), "dc=b", &[]),
        Ok(LdapSearchResultEntry {
            dn: "cn=rockstars,ou=groups,dc=b".to_string(),
            attributes: vec![],
        })
    );
}

#[test]
fn entries_report_the_first_unknown_attribute() {
    let attributes = ["cn".to_string(), "b".to_string(), "c".to_string()];
    assert_eq!(
        make_ldap_search_user_result_entry(&user(), "dc=b", &attributes),
        Err(Error::UnsupportedUserAttribute("b".to_string()))
    );
    assert_eq!(
        make_ldap_search_group_result_entry(&group(), "dc=b", &attributes),
        Err(Error::UnsupportedGroupAttribute("b".to_string()))
    );
}

#[test]
fn directory_fields() {
    for (field, name) in [
        ("uid", "user_id"),
        ("mail", "email"),
        ("cn", "display_name"),
        ("displayName", "display_name"),
        ("givenName", "first_name"),
        ("sn", "last_name"),
        ("avatar", "avatar"),
        ("creationDate", "creation_date"),
    ] {
        assert_eq!(map_field(field), Ok(name.to_string()));
    }
    assert_eq!(
        map_field("user_id"),
        Err(Error::UnknownField("user_id".to_string()))
    );
}

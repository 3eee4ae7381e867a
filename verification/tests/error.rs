use ldap_handler::error::{
    too_many_elements_message, unsupported_group_filter_message, unsupported_user_filter_message,
    Error,
};
use ldap_handler::message::{LdapFilter, LdapSubstringFilter};
use ldap_handler::render::debug_filter;

#[test]
fn messages_of_errors() {
    let text = |error: Error| error.to_string();
    assert_eq!(text(Error::EmptyDnElement), "Empty DN element");
    assert_eq!(text(Error::MissingDnValue), "Missing DN value");
    assert_eq!(
        text(Error::TooManyDnElements(
            "a\"b".to_string(),
            "ü".to_string(),
            "\n".to_string()
        )),
        r#"Too many elements in distinguished name: ""a\"b"", ""ü"", ""\n"""#
    );
    assert_eq!(text(Error::NotASubtree), "Not a subtree of the base tree");
    assert_eq!(
        text(Error::UnexpectedGroupDn {
            dn: "cn=a,dc=b".to_string(),
            base_dn: "dc=b".to_string()
        }),
        r#"Unexpected group DN format. Got "cn=a,dc=b", expected: "cn=groupname,ou=groups,dc=b""#
    );
    assert_eq!(
        text(Error::UnexpectedUserDn {
            dn: "cn=a,dc=b".to_string(),
            base_dn: "dc=b".to_string()
        }),
        r#"Unexpected user DN format. Got "cn=a,dc=b", expected: "cn=username,ou=people,dc=b""#
    );
    assert_eq!(
        text(Error::UnsupportedUserAttribute("shoe".to_string())),
        "Unsupported user attribute: shoe"
    );
    assert_eq!(
        text(Error::UnsupportedGroupAttribute("shoe".to_string())),
        "Unsupported group attribute: shoe"
    );
    assert_eq!(
        text(Error::UnknownField("shoe".to_string())),
        "Unknown field: shoe"
    );
    assert_eq!(
        text(Error::UnsupportedUserFilter(LdapFilter::Present(
            "cn".to_string()
        ))),
        r#"Unsupported user filter: Present("cn")"#
    );
    assert_eq!(
        text(Error::UnsupportedGroupFilter(LdapFilter::And(vec![]))),
        "Unsupported group filter: And([])"
    );
}

#[test]
fn messages_of_shown_values() {
    assert_eq!(
        too_many_elements_message("\"a\"", "\"b\"", "\"c\""),
        r#"Too many elements in distinguished name: ""a"", ""b"", ""c"""#
    );
    assert_eq!(
        unsupported_user_filter_message("F"),
        "Unsupported user filter: F"
    );
    assert_eq!(
        unsupported_group_filter_message("F"),
        "Unsupported group filter: F"
    );
}

#[test]
fn filters_are_shown_as_the_protocol_crate_shows_them() {
    let filter = LdapFilter::Or(vec![
        LdapFilter::And(vec![LdapFilter::Present("a".to_string())]),
        LdapFilter::Not(Box::new(LdapFilter::Equality(
            "b".to_string(),
            "\"".to_string(),
        ))),
        LdapFilter::Substring(
            "c".to_string(),
            LdapSubstringFilter {
                initial: Some("d".to_string()),
                any: vec!["e".to_string(), "f".to_string()],
                final_: None,
            },
        ),
    ]);
    let expected = ldap3_proto::proto::LdapFilter::Or(vec![
        ldap3_proto::proto::LdapFilter::And(vec![ldap3_proto::proto::LdapFilter::Present(
            "a".to_string(),
        )]),
        ldap3_proto::proto::LdapFilter::Not(Box::new(ldap3_proto::proto::LdapFilter::Equality(
            "b".to_string(),
            "\"".to_string(),
        ))),
        ldap3_proto::proto::LdapFilter::Substring(
            "c".to_string(),
            ldap3_proto::proto::LdapSubstringFilter {
                initial: Some("d".to_string()),
                any: vec!["e".to_string(), "f".to_string()],
                final_: None,
            },
        ),
    ]);
    assert_eq!(debug_filter(&filter), format!("{:?}", expected));
    assert_eq!(
        debug_filter(&filter),
        r#"Or([And([Present("a")]), Not(Equality("b", "\"")), Substring("c", LdapSubstringFilter { initial: Some("d"), any: ["e", "f"], final_: None })])"#
    );
    // Showing a filter leaves it as it was, and so does copying it.
    assert_eq!(filter.clone(), filter);
}

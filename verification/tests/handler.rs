use ldap_handler::domain::{
    BindRequest, Group, GroupId, GroupIdAndName, RequestFilter, User,
};
use ldap_handler::error::Error;
use ldap_handler::handler::{get_users_for_group, LdapHandler};
use ldap_handler::message::{
    LdapFilter, LdapMsg, LdapPartialAttribute, LdapResultCode, LdapSearchResultEntry,
    LdapSearchScope, LdapSubstringFilter, SearchRequest, ServerOps, SimpleBindRequest,
    UnbindRequest, WhoamiRequest,
};
use ldap_handler::step::{BindStep, MemberListing, MessageStep, SearchStep};

/// Binds, where the directory is expected to be asked for `expected` and answers `answer`.
fn bind(
    handler: &mut LdapHandler,
    request: &SimpleBindRequest,
    expected: BindRequest,
    answer: Result<(), String>,
) -> LdapMsg {
    assert_eq!(
        handler.do_bind(request),
        BindStep::Authenticate(expected)
    );
    handler.finish_bind(request, answer)
}

fn new_handler(ldap_user: &str) -> LdapHandler {
    LdapHandler::new("dc=example,dc=com".to_string(), ldap_user.to_string())
}

fn setup_bound_handler() -> LdapHandler {
    let mut ldap_handler = new_handler("test");
    let request = SimpleBindRequest {
        msgid: 1,
        dn: "cn=test,ou=people,dc=example,dc=com".to_string(),
        pw: "pass".to_string(),
    };
    assert_eq!(
        bind(
            &mut ldap_handler,
            &request,
            BindRequest {
                name: "test".to_string(),
                password: "pass".to_string(),
            },
            Ok(())
        ),
        request.gen_success()
    );
    ldap_handler
}

fn search(base: &str, filter: LdapFilter, attrs: &[&str]) -> SearchRequest {
    SearchRequest {
        msgid: 2,
        base: base.to_string(),
        scope: LdapSearchScope::Base,
        filter,
        attrs: attrs.iter().map(|a| a.to_string()).collect(),
    }
}

fn equality(field: &str, value: &str) -> LdapFilter {
    LdapFilter::Equality(field.to_string(), value.to_string())
}

fn everyone() -> RequestFilter {
    RequestFilter::And(vec![])
}

fn nobody() -> RequestFilter {
    RequestFilter::Not(Box::new(RequestFilter::And(vec![])))
}

fn named_user(user_id: &str) -> User {
    User {
        user_id: user_id.to_string(),
        ..User::default()
    }
}

#[test]
fn test_bind() {
    let mut ldap_handler =
        LdapHandler::new("dc=example,dc=com".to_string(), "test".to_string());

    let request = WhoamiRequest { msgid: 1 };
    assert_eq!(
        ldap_handler.do_whoami(&request),
        request.gen_operror("Unauthenticated")
    );

    let request = SimpleBindRequest {
        msgid: 2,
        dn: "cn=bob,ou=people,dc=example,dc=com".to_string(),
        pw: "pass".to_string(),
    };
    assert_eq!(
        bind(
            &mut ldap_handler,
            &request,
            BindRequest {
                name: "bob".to_string(),
                password: "pass".to_string(),
            },
            Ok(())
        ),
        request.gen_success()
    );

    let request = WhoamiRequest { msgid: 3 };
    assert_eq!(
        ldap_handler.do_whoami(&request),
        request.gen_success("dn: cn=bob,ou=people,dc=example,dc=com")
    );
}

#[test]
fn test_admin_bind() {
    let mut ldap_handler =
        LdapHandler::new("dc=example,dc=com".to_string(), "test".to_string());

    let request = WhoamiRequest { msgid: 1 };
    assert_eq!(
        ldap_handler.do_whoami(&request),
        request.gen_operror("Unauthenticated")
    );

    let request = SimpleBindRequest {
        msgid: 2,
        dn: "cn=test,ou=people,dc=example,dc=com".to_string(),
        pw: "pass".to_string(),
    };
    assert_eq!(
        bind(
            &mut ldap_handler,
            &request,
            BindRequest {
                name: "test".to_string(),
                password: "pass".to_string(),
            },
            Ok(())
        ),
        request.gen_success()
    );

    let request = WhoamiRequest { msgid: 3 };
    assert_eq!(
        ldap_handler.do_whoami(&request),
        request.gen_success("dn: cn=test,ou=people,dc=example,dc=com")
    );
}

#[test]
fn test_bind_invalid_credentials() {
    let mut ldap_handler =
        LdapHandler::new("dc=example,dc=com".to_string(), "admin".to_string());

    let request = WhoamiRequest { msgid: 1 };
    assert_eq!(
        ldap_handler.do_whoami(&request),
        request.gen_operror("Unauthenticated")
    );

    let request = SimpleBindRequest {
        msgid: 2,
        dn: "cn=test,ou=people,dc=example,dc=com".to_string(),
        pw: "pass".to_string(),
    };
    assert_eq!(
        bind(
            &mut ldap_handler,
            &request,
            BindRequest {
                name: "test".to_string(),
                password: "pass".to_string(),
            },
            Ok(())
        ),
        request.gen_success()
    );

    let request = WhoamiRequest { msgid: 3 };
    assert_eq!(
        ldap_handler.do_whoami(&request),
        request.gen_success("dn: cn=test,ou=people,dc=example,dc=com")
    );

    let request = SearchRequest {
        msgid: 2,
        base: "ou=people,dc=example,dc=com".to_string(),
        scope: LdapSearchScope::Base,
        filter: LdapFilter::And(vec![]),
        attrs: vec![],
    };
    assert_eq!(
        ldap_handler.do_search(&request),
        SearchStep::Reply(vec![request.gen_error(
            LdapResultCode::InsufficentAccessRights,
            r#"Current user `cn=test,ou=people,dc=example,dc=com` is not allowed to query LDAP, expected cn=admin,ou=people,dc=example,dc=com"#.to_string()
        )])
    );
}

#[test]
fn test_bind_invalid_dn() {
    let ldap_handler =
        LdapHandler::new("dc=example,dc=com".to_string(), "admin".to_string());

    let request = SimpleBindRequest {
        msgid: 2,
        dn: "cn=bob,dc=example,dc=com".to_string(),
        pw: "pass".to_string(),
    };
    assert_eq!(
        ldap_handler.do_bind(&request),
        BindStep::Reply(request.gen_error(
            LdapResultCode::NamingViolation,
            r#"Unexpected user DN format. Got "cn=bob,dc=example,dc=com", expected: "cn=username,ou=people,dc=example,dc=com""#.to_string()
        ))
    );
    let request = SimpleBindRequest {
        msgid: 2,
        dn: "cn=bob,ou=groups,dc=example,dc=com".to_string(),
        pw: "pass".to_string(),
    };
    assert_eq!(
        ldap_handler.do_bind(&request),
        BindStep::Reply(request.gen_error(
            LdapResultCode::NamingViolation,
            r#"Unexpected user DN format. Got "cn=bob,ou=groups,dc=example,dc=com", expected: "cn=username,ou=people,dc=example,dc=com""#
                .to_string()
        ))
    );
}

#[test]
fn test_search() {
    let ldap_handler = setup_bound_handler();
    let request = SearchRequest {
        msgid: 2,
        base: "ou=people,dc=example,dc=com".to_string(),
        scope: LdapSearchScope::Base,
        filter: LdapFilter::And(vec![]),
        attrs: vec![
            "objectClass".to_string(),
            "dn".to_string(),
            "uid".to_string(),
            "mail".to_string(),
            "givenName".to_string(),
            "sn".to_string(),
            "cn".to_string(),
        ],
    };
    assert_eq!(
        ldap_handler.do_search(&request),
        SearchStep::ListUsers(Some(RequestFilter::And(vec![])))
    );
    assert_eq!(
        ldap_handler.finish_user_list(
            &request,
            Ok(vec![
                User {
                    user_id: "bob_1".to_string(),
                    email: "bob@bobmail.bob".to_string(),
                    display_name: "Bôb Böbberson".to_string(),
                    first_name: "Bôb".to_string(),
                    last_name: "Böbberson".to_string(),
                },
                User {
                    user_id: "jim".to_string(),
                    email: "jim@cricket.jim".to_string(),
                    display_name: "Jimminy Cricket".to_string(),
                    first_name: "Jim".to_string(),
                    last_name: "Cricket".to_string(),
                },
            ])
        ),
        vec![
            request.gen_result_entry(LdapSearchResultEntry {
                dn: "cn=bob_1,ou=people,dc=example,dc=com".to_string(),
                attributes: vec![
                    LdapPartialAttribute {
                        atype: "objectClass".to_string(),
                        vals: vec![
                            "inetOrgPerson".to_string(),
                            "posixAccount".to_string(),
                            "mailAccount".to_string(),
                            "person".to_string()
                        ]
                    },
                    LdapPartialAttribute {
                        atype: "dn".to_string(),
                        vals: vec!["cn=bob_1,ou=people,dc=example,dc=com".to_string()]
                    },
                    LdapPartialAttribute {
                        atype: "uid".to_string(),
                        vals: vec!["bob_1".to_string()]
                    },
                    LdapPartialAttribute {
                        atype: "mail".to_string(),
                        vals: vec!["bob@bobmail.bob".to_string()]
                    },
                    LdapPartialAttribute {
                        atype: "givenName".to_string(),
                        vals: vec!["Bôb".to_string()]
                    },
                    LdapPartialAttribute {
                        atype: "sn".to_string(),
                        vals: vec!["Böbberson".to_string()]
                    },
                    LdapPartialAttribute {
                        atype: "cn".to_string(),
                        vals: vec!["Bôb Böbberson".to_string()]
                    }
                ],
            }),
            request.gen_result_entry(LdapSearchResultEntry {
                dn: "cn=jim,ou=people,dc=example,dc=com".to_string(),
                attributes: vec![
                    LdapPartialAttribute {
                        atype: "objectClass".to_string(),
                        vals: vec![
                            "inetOrgPerson".to_string(),
                            "posixAccount".to_string(),
                            "mailAccount".to_string(),
                            "person".to_string()
                        ]
                    },
                    LdapPartialAttribute {
                        atype: "dn".to_string(),
                        vals: vec!["cn=jim,ou=people,dc=example,dc=com".to_string()]
                    },
                    LdapPartialAttribute {
                        atype: "uid".to_string(),
                        vals: vec!["jim".to_string()]
                    },
                    LdapPartialAttribute {
                        atype: "mail".to_string(),
                        vals: vec!["jim@cricket.jim".to_string()]
                    },
                    LdapPartialAttribute {
                        atype: "givenName".to_string(),
                        vals: vec!["Jim".to_string()]
                    },
                    LdapPartialAttribute {
                        atype: "sn".to_string(),
                        vals: vec!["Cricket".to_string()]
                    },
                    LdapPartialAttribute {
                        atype: "cn".to_string(),
                        vals: vec!["Jimminy Cricket".to_string()]
                    }
                ],
            }),
            request.gen_success()
        ]
    );
}

#[test]
fn test_search_filters() {
    let ldap_handler = setup_bound_handler();
    let request = SearchRequest {
        msgid: 2,
        base: "ou=people,dc=example,dc=com".to_string(),
        scope: LdapSearchScope::Base,
        filter: LdapFilter::And(vec![LdapFilter::Or(vec![LdapFilter::Not(Box::new(
            LdapFilter::Equality("uid".to_string(), "bob".to_string()),
        ))])]),
        attrs: vec!["objectClass".to_string()],
    };
    assert_eq!(
        ldap_handler.do_search(&request),
        SearchStep::ListUsers(Some(RequestFilter::And(vec![RequestFilter::Or(vec![
            RequestFilter::Not(Box::new(RequestFilter::Equality(
                "user_id".to_string(),
                "bob".to_string(),
            ))),
        ])])))
    );
    assert_eq!(
        ldap_handler.finish_user_list(&request, Ok(vec![])),
        vec![request.gen_success()]
    );
}

#[test]
fn test_search_unsupported_filters() {
    let ldap_handler = setup_bound_handler();
    let request = SearchRequest {
        msgid: 2,
        base: "ou=people,dc=example,dc=com".to_string(),
        scope: LdapSearchScope::Base,
        filter: LdapFilter::Substring("uid".to_string(), LdapSubstringFilter::default()),
        attrs: vec!["objectClass".to_string()],
    };
    assert_eq!(
        ldap_handler.do_search(&request),
        SearchStep::Reply(vec![request.gen_error(
            LdapResultCode::UnwillingToPerform,
            "Unsupported user filter: Unsupported user filter: Substring(\"uid\", LdapSubstringFilter { initial: None, any: [], final_: None })".to_string()
        )])
    );
}

#[test]
fn new_keeps_the_elements_of_the_base() {
    assert_eq!(
        new_handler("test").base_dn,
        [
            ("dc".to_string(), "example".to_string()),
            ("dc".to_string(), "com".to_string())
        ]
    );
}

#[test]
fn rejected_bind_changes_nothing() {
    let mut ldap_handler = setup_bound_handler();
    let request = SimpleBindRequest {
        msgid: 4,
        dn: "cn=bob,ou=people,dc=example,dc=com".to_string(),
        pw: "wrong".to_string(),
    };
    assert_eq!(
        bind(
            &mut ldap_handler,
            &request,
            BindRequest {
                name: "bob".to_string(),
                password: "wrong".to_string(),
            },
            Err("no such user".to_string())
        ),
        request.gen_invalid_cred()
    );
    let request = WhoamiRequest { msgid: 5 };
    assert_eq!(
        ldap_handler.do_whoami(&request),
        request.gen_success("dn: cn=test,ou=people,dc=example,dc=com")
    );
    assert_eq!(
        ldap_handler.do_search(&search("", equality("uid", "bob"), &[])),
        SearchStep::ListUsers(Some(RequestFilter::Equality(
            "user_id".to_string(),
            "bob".to_string()
        )))
    );
}

#[test]
fn bind_with_a_malformed_name_is_refused() {
    let ldap_handler = new_handler("test");
    for (dn, message) in [
        ("", "Missing DN value"),
        ("Unauthenticated", "Missing DN value"),
        (
            "cn=bob=x,ou=people,dc=example,dc=com",
            r#"Too many elements in distinguished name: ""cn"", ""bob"", ""x"""#,
        ),
        (
            "cn=bob,ou=people,dc=example",
            "Not a subtree of the base tree",
        ),
    ] {
        let request = SimpleBindRequest {
            msgid: 6,
            dn: dn.to_string(),
            pw: "pass".to_string(),
        };
        assert_eq!(
            ldap_handler.do_bind(&request),
            BindStep::Reply(
                request.gen_error(LdapResultCode::NamingViolation, message.to_string())
            )
        );
    }
}

#[test]
fn client_that_has_not_bound_may_not_search() {
    let request = search("", LdapFilter::And(vec![]), &[]);
    assert_eq!(
        new_handler("test").do_search(&request),
        SearchStep::Reply(vec![request.gen_error(
            LdapResultCode::InsufficentAccessRights,
            "Current user `Unauthenticated` is not allowed to query LDAP, expected cn=test,ou=people,dc=example,dc=com".to_string()
        )])
    );
}

#[test]
fn place_decides_what_is_searched() {
    let ldap_handler = setup_bound_handler();
    let users = || LdapFilter::And(vec![]);
    for base in ["", "dc=example,dc=com", "ou=people,dc=example,dc=com"] {
        assert_eq!(
            ldap_handler.do_search(&search(base, users(), &[])),
            SearchStep::ListUsers(Some(everyone()))
        );
    }
    assert_eq!(
        ldap_handler.do_search(&search(
            "ou=groups,dc=example,dc=com",
            equality("objectClass", "groupOfUniqueNames"),
            &[]
        )),
        SearchStep::ListGroups
    );
    // Other places below the base are not answered at all.
    for base in [
        "ou=other,dc=example,dc=com",
        "cn=people,dc=example,dc=com",
        "cn=bob,ou=people,dc=example,dc=com",
    ] {
        assert_eq!(
            ldap_handler.do_search(&search(base, users(), &[])),
            SearchStep::Reply(vec![])
        );
    }
    for base in ["dc=com", "dc=example,dc=org", "ou=people,dc=com"] {
        let request = search(base, users(), &[]);
        assert_eq!(
            ldap_handler.do_search(&request),
            SearchStep::Reply(vec![request.gen_success()])
        );
    }
    let request = search("people", users(), &[]);
    assert_eq!(
        ldap_handler.do_search(&request),
        SearchStep::Reply(vec![request.gen_error(
            LdapResultCode::OperationsError,
            r#"Could not parse base DN: "people""#.to_string()
        )])
    );
}

#[test]
fn failing_directory_ends_a_search() {
    let ldap_handler = setup_bound_handler();
    let request = search("dc=example,dc=com", LdapFilter::And(vec![]), &[]);
    let other = |message: &str| {
        vec![request.gen_error(LdapResultCode::Other, message.to_string())]
    };
    assert_eq!(
        ldap_handler.finish_user_list(&request, Err("broken".to_string())),
        other(r#"Error during searching user "dc=example,dc=com": broken"#)
    );
    assert_eq!(
        ldap_handler.finish_groups_list(&request, Err("broken".to_string())),
        other(r#"Error while listing groups "dc=example,dc=com": broken"#)
    );
    assert_eq!(
        ldap_handler.resume_with_user_groups(&request, Err("broken".to_string())),
        SearchStep::Reply(other(
            r#"Error while listing user groups: "dc=example,dc=com": broken"#
        ))
    );
}

#[test]
fn unknown_attribute_replaces_all_entries() {
    let ldap_handler = setup_bound_handler();
    let request = search("", LdapFilter::And(vec![]), &["uid", "shoe", "hat"]);
    assert_eq!(
        ldap_handler.finish_user_list(&request, Ok(vec![named_user("bob"), named_user("jim")])),
        vec![request.gen_error(
            LdapResultCode::NoSuchAttribute,
            "Unsupported user attribute: shoe".to_string()
        )]
    );
    // Without users nobody asks for the attribute.
    assert_eq!(
        ldap_handler.finish_user_list(&request, Ok(vec![])),
        vec![request.gen_success()]
    );
    let request = search("", LdapFilter::And(vec![]), &["cn", "shoe"]);
    let group = Group {
        id: GroupId(1),
        display_name: "a".to_string(),
        users: vec![],
    };
    assert_eq!(
        ldap_handler.finish_groups_list(&request, Ok(vec![group])),
        vec![request.gen_error(
            LdapResultCode::NoSuchAttribute,
            "Unsupported group attribute: shoe".to_string()
        )]
    );
    assert_eq!(
        ldap_handler.finish_groups_list(&request, Ok(vec![])),
        vec![request.gen_success()]
    );
}

#[test]
fn user_filters() {
    let ldap_handler = setup_bound_handler();
    let convert = |filter: LdapFilter| ldap_handler.convert_user_filter(&filter);
    assert_eq!(convert(LdapFilter::Or(vec![])), Ok(RequestFilter::Or(vec![])));
    assert_eq!(
        convert(equality("memberOf", "cn=rockstars,ou=groups,dc=example,dc=com")),
        Ok(RequestFilter::MemberOf("rockstars".to_string()))
    );
    assert_eq!(
        convert(equality("memberOf", "cn=bob,ou=people,dc=example,dc=com")),
        Err(Error::UnexpectedGroupDn {
            dn: "cn=bob,ou=people,dc=example,dc=com".to_string(),
            base_dn: "dc=example,dc=com".to_string(),
        })
    );
    for class in ["person", "inetOrgPerson", "posixAccount", "mailAccount"] {
        assert_eq!(convert(equality("objectClass", class)), Ok(everyone()));
    }
    assert_eq!(convert(equality("objectClass", "group")), Ok(nobody()));
    assert_eq!(
        convert(equality("shoe", "44")),
        Err(Error::UnknownField("shoe".to_string()))
    );
    let present = |field: &str| convert(LdapFilter::Present(field.to_string()));
    assert_eq!(present("objectClass"), Ok(everyone()));
    assert_eq!(present("avatar"), Ok(everyone()));
    assert_eq!(present("memberOf"), Ok(nobody()));
    // The first part that cannot be served decides.
    assert_eq!(
        convert(LdapFilter::Or(vec![
            equality("cn", "a"),
            LdapFilter::Not(Box::new(equality("shoe", "44"))),
            equality("hat", "L"),
        ])),
        Err(Error::UnknownField("shoe".to_string()))
    );
    assert_eq!(
        convert(LdapFilter::And(vec![LdapFilter::Substring(
            "cn".to_string(),
            LdapSubstringFilter::default()
        )])),
        Err(Error::UnsupportedUserFilter(LdapFilter::Substring(
            "cn".to_string(),
            LdapSubstringFilter::default()
        )))
    );
}

#[test]
fn group_filters() {
    let ldap_handler = setup_bound_handler();
    let get = |filter: LdapFilter| ldap_handler.get_group_filter(&filter);
    assert_eq!(get(equality("objectClass", "groupOfUniqueNames")), Ok(None));
    for field in ["member", "uniqueMember"] {
        assert_eq!(
            get(equality(field, "cn=bob,ou=people,dc=example,dc=com")),
            Ok(Some("bob".to_string()))
        );
    }
    assert_eq!(
        get(equality("member", "bob")),
        Err(Error::MissingDnValue)
    );
    assert_eq!(
        get(equality("objectClass", "person")),
        Err(Error::UnsupportedGroupFilter(equality(
            "objectClass",
            "person"
        )))
    );
    let request = search(
        "ou=groups,dc=example,dc=com",
        LdapFilter::And(vec![equality("cn", "a")]),
        &[],
    );
    assert_eq!(
        ldap_handler.do_search(&request),
        SearchStep::Reply(vec![request.gen_error(
            LdapResultCode::UnwillingToPerform,
            r#"Unsupported group filter: Unsupported group filter: And([Equality("cn", "a")])"#
                .to_string()
        )])
    );
}

#[test]
fn all_groups() {
    let ldap_handler = setup_bound_handler();
    let request = search(
        "ou=groups,dc=example,dc=com",
        equality("objectClass", "groupOfUniqueNames"),
        &["cn", "uniqueMember"],
    );
    assert_eq!(ldap_handler.do_search(&request), SearchStep::ListGroups);
    assert_eq!(
        ldap_handler.finish_groups_list(
            &request,
            Ok(vec![Group {
                id: GroupId(1),
                display_name: "group_1".to_string(),
                users: vec!["bob".to_string(), "john".to_string()],
            }])
        ),
        vec![
            request.gen_result_entry(LdapSearchResultEntry {
                dn: "cn=group_1,ou=groups,dc=example,dc=com".to_string(),
                attributes: vec![
                    LdapPartialAttribute {
                        atype: "cn".to_string(),
                        vals: vec!["group_1".to_string()],
                    },
                    LdapPartialAttribute {
                        atype: "uniqueMember".to_string(),
                        vals: vec![
                            "cn=bob,ou=people,dc=example,dc=com".to_string(),
                            "cn=john,ou=people,dc=example,dc=com".to_string(),
                        ],
                    },
                ],
            }),
            request.gen_success(),
        ]
    );
}

fn group_name(id: i32, name: &str) -> GroupIdAndName {
    GroupIdAndName(GroupId(id), name.to_string())
}

fn group(id: i32, name: &str, users: &[&str]) -> Group {
    Group {
        id: GroupId(id),
        display_name: name.to_string(),
        users: users.iter().map(|u| u.to_string()).collect(),
    }
}

#[test]
fn groups_of_a_user_are_listed_one_after_the_other() {
    let ldap_handler = setup_bound_handler();
    let request = search(
        "ou=groups,dc=example,dc=com",
        equality("uniqueMember", "cn=bob,ou=people,dc=example,dc=com"),
        &["uniqueMember"],
    );
    assert_eq!(
        ldap_handler.do_search(&request),
        SearchStep::GetUserGroups("bob".to_string())
    );
    let first = ldap_handler
        .resume_with_user_groups(&request, Ok(vec![group_name(7, "a"), group_name(3, "b")]));
    assert_eq!(
        first,
        SearchStep::ListMembers(
            Some(RequestFilter::MemberOfId(GroupId(7))),
            MemberListing {
                current: group_name(7, "a"),
                rest: vec![group_name(3, "b")],
                groups: vec![],
            }
        )
    );
    let SearchStep::ListMembers(_, listing) = first else {
        unreachable!()
    };
    let second = ldap_handler.resume_with_members(
        &request,
        listing,
        Ok(vec![named_user("bob"), named_user("jim")]),
    );
    assert_eq!(
        second,
        SearchStep::ListMembers(
            Some(RequestFilter::MemberOfId(GroupId(3))),
            MemberListing {
                current: group_name(3, "b"),
                rest: vec![],
                groups: vec![group(7, "a", &["bob", "jim"])],
            }
        )
    );
    let SearchStep::ListMembers(_, listing) = second else {
        unreachable!()
    };
    let last = ldap_handler.resume_with_members(&request, listing, Ok(vec![named_user("bob")]));
    assert_eq!(
        last,
        SearchStep::Reply(ldap_handler.finish_groups_list(
            &request,
            Ok(vec![group(7, "a", &["bob", "jim"]), group(3, "b", &["bob"])])
        ))
    );
    let SearchStep::Reply(msgs) = last else {
        unreachable!()
    };
    assert_eq!(msgs.len(), 3);
    assert_eq!(
        msgs[1],
        request.gen_result_entry(LdapSearchResultEntry {
            dn: "cn=b,ou=groups,dc=example,dc=com".to_string(),
            attributes: vec![LdapPartialAttribute {
                atype: "uniqueMember".to_string(),
                vals: vec!["cn=bob,ou=people,dc=example,dc=com".to_string()],
            }],
        })
    );
    assert_eq!(msgs[2], request.gen_success());
}

#[test]
fn groups_of_a_user_without_groups() {
    let ldap_handler = setup_bound_handler();
    let request = search("ou=groups,dc=example,dc=com", LdapFilter::And(vec![]), &[]);
    assert_eq!(
        ldap_handler.resume_with_user_groups(&request, Ok(vec![])),
        SearchStep::Reply(vec![request.gen_success()])
    );
}

#[test]
fn failing_listing_of_members_ends_the_search() {
    let ldap_handler = setup_bound_handler();
    let request = search("ou=groups,dc=example,dc=com", LdapFilter::And(vec![]), &[]);
    let listing = MemberListing {
        current: group_name(7, "a"),
        rest: vec![group_name(3, "b")],
        groups: vec![],
    };
    assert_eq!(
        ldap_handler.resume_with_members(&request, listing, Err("broken".to_string())),
        SearchStep::Reply(vec![request.gen_error(
            LdapResultCode::Other,
            r#"Error while listing user groups: "ou=groups,dc=example,dc=com": broken"#.to_string()
        )])
    );
}

#[test]
fn group_gets_the_ids_of_its_members() {
    assert_eq!(
        get_users_for_group(group_name(7, "a"), vec![named_user("x"), named_user("y")]),
        group(7, "a", &["x", "y"])
    );
}

#[test]
fn entries_lead_back_to_their_users_and_groups() {
    let ldap_handler = setup_bound_handler();
    let request = search("", LdapFilter::And(vec![]), &["dn"]);
    let msgs = ldap_handler.finish_user_list(&request, Ok(vec![named_user("bob")]));
    assert_eq!(msgs.len(), 2);
    let ldap_handler::message::LdapOp::SearchResultEntry(entry) = &msgs[0].op else {
        unreachable!()
    };
    let request = SimpleBindRequest {
        msgid: 9,
        dn: entry.dn.clone(),
        pw: "pass".to_string(),
    };
    assert_eq!(
        ldap_handler.do_bind(&request),
        BindStep::Authenticate(BindRequest {
            name: "bob".to_string(),
            password: "pass".to_string(),
        })
    );
    let request = search("", LdapFilter::And(vec![]), &["uniqueMember"]);
    let msgs = ldap_handler.finish_groups_list(&request, Ok(vec![group(1, "g", &["bob"])]));
    let ldap_handler::message::LdapOp::SearchResultEntry(entry) = &msgs[0].op else {
        unreachable!()
    };
    assert_eq!(
        ldap_handler.convert_user_filter(&equality("memberOf", &entry.dn)),
        Ok(RequestFilter::MemberOf("g".to_string()))
    );
    for field in ["member", "uniqueMember"] {
        assert_eq!(
            ldap_handler.get_group_filter(&equality(field, &entry.attributes[0].vals[0])),
            Ok(Some("bob".to_string()))
        );
    }
}

#[test]
fn messages_are_served_by_kind() {
    let mut ldap_handler = new_handler("test");
    assert!(matches!(
        ldap_handler.handle_ldap_message(ServerOps::Unbind(UnbindRequest)),
        MessageStep::Reply(None)
    ));
    let request = WhoamiRequest { msgid: 1 };
    let expected = request.gen_operror("Unauthenticated");
    assert!(
        ldap_handler.handle_ldap_message(ServerOps::Whoami(request))
            == MessageStep::Reply(Some(vec![expected]))
    );
    let request = || SimpleBindRequest {
        msgid: 2,
        dn: "cn=test,ou=people,dc=example,dc=com".to_string(),
        pw: "pass".to_string(),
    };
    assert!(
        ldap_handler.handle_ldap_message(ServerOps::SimpleBind(request()))
            == MessageStep::Bind(
                request(),
                BindRequest {
                    name: "test".to_string(),
                    password: "pass".to_string(),
                }
            )
    );
    let refused = SimpleBindRequest {
        msgid: 3,
        dn: "test".to_string(),
        pw: "pass".to_string(),
    };
    let expected = refused.gen_error(
        LdapResultCode::NamingViolation,
        "Missing DN value".to_string(),
    );
    assert!(
        ldap_handler.handle_ldap_message(ServerOps::SimpleBind(refused))
            == MessageStep::Reply(Some(vec![expected]))
    );
    let lsr = || search("", LdapFilter::And(vec![]), &[]);
    assert!(matches!(
        ldap_handler.handle_ldap_message(ServerOps::Search(lsr())),
        MessageStep::Reply(Some(msgs)) if msgs.len() == 1
    ));
    ldap_handler.finish_bind(&request(), Ok(()));
    assert!(
        ldap_handler.handle_ldap_message(ServerOps::Search(lsr()))
            == MessageStep::Search(lsr(), SearchStep::ListUsers(Some(everyone())))
    );
}

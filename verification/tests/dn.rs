use ldap_handler::dn::{
    format_group_dn, format_user_dn, get_group_id_from_distinguished_name,
    get_user_id_from_distinguished_name, is_subtree, make_dn_pair, parse_distinguished_name,
};
use ldap_handler::error::Error;
use ldap_handler::text::{same_text, split};

fn pairs(parts: &[(&str, &str)]) -> Vec<(String, String)> {
    parts
        .iter()
        .map(|(name, value)| (name.to_string(), value.to_string()))
        .collect()
}

fn strings(parts: &[&str]) -> Vec<String> {
    parts.iter().map(|part| part.to_string()).collect()
}

#[test]
fn test_is_subtree() {
    let subtree1 = &[
        ("ou".to_string(), "people".to_string()),
        ("dc".to_string(), "example".to_string()),
        ("dc".to_string(), "com".to_string()),
    ];
    let root = &[
        ("dc".to_string(), "example".to_string()),
        ("dc".to_string(), "com".to_string()),
    ];
    assert!(is_subtree(subtree1, root));
    assert!(!is_subtree(&[], root));
}

#[test]
fn test_parse_distinguished_name() {
    let parsed_dn = &[
        ("ou".to_string(), "people".to_string()),
        ("dc".to_string(), "example".to_string()),
        ("dc".to_string(), "com".to_string()),
    ];
    assert_eq!(
        parse_distinguished_name("ou=people,dc=example,dc=com").expect("parsing failed"),
        parsed_dn
    );
}

#[test]
fn subtree_compares_names_and_values_from_the_end() {
    let root = pairs(&[("dc", "example"), ("dc", "com")]);
    assert!(is_subtree(&root, &root));
    assert!(is_subtree(&root, &[]));
    assert!(!is_subtree(&pairs(&[("dc", "com"), ("dc", "example")]), &root));
    assert!(!is_subtree(&pairs(&[("ou", "example"), ("dc", "com")]), &root));
    assert!(!is_subtree(
        &pairs(&[("dc", "example"), ("dc", "com"), ("ou", "people")]),
        &root
    ));
}

#[test]
fn split_keeps_empty_pieces() {
    assert_eq!(split("", ','), strings(&[""]));
    assert_eq!(split(",", ','), strings(&["", ""]));
    assert_eq!(split("a,,bé,", ','), strings(&["a", "", "bé", ""]));
    assert_eq!(split("ä=ö=ü", '='), strings(&["ä", "ö", "ü"]));
    assert_eq!(split("ä=ö=ü", '='), "ä=ö=ü".split('=').collect::<Vec<_>>());
}

#[test]
fn same_text_compares_characters() {
    assert!(same_text("Bôb", "Bôb"));
    assert!(same_text("", ""));
    assert!(!same_text("uid", "UID"));
    assert!(!same_text("uid", "uid "));
}

#[test]
fn dn_pairs() {
    assert_eq!(make_dn_pair(&vec![]), Err(Error::EmptyDnElement));
    assert_eq!(make_dn_pair(&strings(&["cn"])), Err(Error::MissingDnValue));
    assert_eq!(
        make_dn_pair(&strings(&["cn", "bob"])),
        Ok(("cn".to_string(), "bob".to_string()))
    );
    assert_eq!(
        make_dn_pair(&strings(&["cn", "bob", "x", "y"])),
        Err(Error::TooManyDnElements(
            "cn".to_string(),
            "bob".to_string(),
            "x".to_string()
        ))
    );
}

#[test]
fn parse_reports_the_first_error() {
    assert_eq!(parse_distinguished_name(""), Err(Error::MissingDnValue));
    assert_eq!(
        parse_distinguished_name("a=b,c=d=e,f"),
        Err(Error::TooManyDnElements(
            "c".to_string(),
            "d".to_string(),
            "e".to_string()
        ))
    );
    assert_eq!(
        parse_distinguished_name("=,a="),
        Ok(pairs(&[("", ""), ("a", "")]))
    );
}

#[test]
fn formatted_names_parse_back() {
    let base = parse_distinguished_name("dc=example,dc=com").unwrap();
    let dn = format_user_dn("Bôb", "dc=example,dc=com");
    assert_eq!(dn, "cn=Bôb,ou=people,dc=example,dc=com");
    assert_eq!(
        get_user_id_from_distinguished_name(&dn, &base, "dc=example,dc=com"),
        Ok("Bôb".to_string())
    );
    let dn = format_group_dn("rock stars", "dc=example,dc=com");
    assert_eq!(dn, "cn=rock stars,ou=groups,dc=example,dc=com");
    assert_eq!(
        get_group_id_from_distinguished_name(&dn, &base, "dc=example,dc=com"),
        Ok("rock stars".to_string())
    );
    // A separator in the id is not escaped, so the name does not come back.
    let dn = format_user_dn("bob,jim", "dc=example,dc=com");
    assert_eq!(
        get_user_id_from_distinguished_name(&dn, &base, "dc=example,dc=com"),
        Err(Error::MissingDnValue)
    );
}

#[test]
fn names_in_the_wrong_place_are_refused() {
    let base = parse_distinguished_name("dc=example,dc=com").unwrap();
    let user = |dn: &str| get_user_id_from_distinguished_name(dn, &base, "dc=example,dc=com");
    let group = |dn: &str| get_group_id_from_distinguished_name(dn, &base, "dc=example,dc=com");
    assert_eq!(user("cn=bob,ou=people,dc=other"), Err(Error::NotASubtree));
    assert_eq!(group("cn=bob,ou=groups,dc=other"), Err(Error::NotASubtree));
    for dn in [
        "dc=example,dc=com",
        "ou=people,dc=example,dc=com",
        "uid=bob,ou=people,dc=example,dc=com",
        "cn=bob,cn=people,dc=example,dc=com",
        "cn=bob,ou=groups,dc=example,dc=com",
        "cn=a,cn=bob,ou=people,dc=example,dc=com",
    ] {
        assert_eq!(
            user(dn),
            Err(Error::UnexpectedUserDn {
                dn: dn.to_string(),
                base_dn: "dc=example,dc=com".to_string()
            })
        );
    }
    assert_eq!(
        group("cn=bob,ou=people,dc=example,dc=com"),
        Err(Error::UnexpectedGroupDn {
            dn: "cn=bob,ou=people,dc=example,dc=com".to_string(),
            base_dn: "dc=example,dc=com".to_string()
        })
    );
}

use ldap3_proto::proto;
use ldap3_proto::simple;
use ldap_handler::message::{
    LdapBindResponse, LdapExtendedResponse, LdapFilter, LdapMsg, LdapOp, LdapPartialAttribute,
    LdapResult, LdapResultCode, LdapSearchResultEntry, LdapSearchScope, SearchRequest,
    SimpleBindRequest, WhoamiRequest,
};

fn code(code: &LdapResultCode) -> proto::LdapResultCode {
    match code {
        LdapResultCode::Success => proto::LdapResultCode::Success,
        LdapResultCode::OperationsError => proto::LdapResultCode::OperationsError,
        LdapResultCode::NoSuchAttribute => proto::LdapResultCode::NoSuchAttribute,
        LdapResultCode::InvalidCredentials => proto::LdapResultCode::InvalidCredentials,
        LdapResultCode::InsufficentAccessRights => proto::LdapResultCode::InsufficentAccessRights,
        LdapResultCode::UnwillingToPerform => proto::LdapResultCode::UnwillingToPerform,
        LdapResultCode::NamingViolation => proto::LdapResultCode::NamingViolation,
        LdapResultCode::Other => proto::LdapResultCode::Other,
    }
}

fn result(res: &LdapResult) -> proto::LdapResult {
    proto::LdapResult {
        code: code(&res.code),
        matcheddn: res.matcheddn.clone(),
        message: res.message.clone(),
        referral: res.referral.clone(),
    }
}

fn message(msg: &LdapMsg) -> proto::LdapMsg {
    proto::LdapMsg {
        msgid: msg.msgid,
        op: match &msg.op {
            LdapOp::BindResponse(LdapBindResponse { res, saslcreds }) => {
                proto::LdapOp::BindResponse(proto::LdapBindResponse {
                    res: result(res),
                    saslcreds: saslcreds.clone(),
                })
            }
            LdapOp::SearchResultEntry(entry) => {
                proto::LdapOp::SearchResultEntry(proto::LdapSearchResultEntry {
                    dn: entry.dn.clone(),
                    attributes: entry
                        .attributes
                        .iter()
                        .map(|a| proto::LdapPartialAttribute {
                            atype: a.atype.clone(),
                            vals: a.vals.clone(),
                        })
                        .collect(),
                })
            }
            LdapOp::SearchResultDone(res) => proto::LdapOp::SearchResultDone(result(res)),
            LdapOp::ExtendedResponse(LdapExtendedResponse { res, name, value }) => {
                proto::LdapOp::ExtendedResponse(proto::LdapExtendedResponse {
                    res: result(res),
                    name: name.clone(),
                    value: value.clone(),
                })
            }
        },
        ctrl: vec![],
    }
}

#[test]
fn search_messages_are_those_of_the_protocol_crate() {
    let ours = SearchRequest {
        msgid: 7,
        base: "dc=example".to_string(),
        scope: LdapSearchScope::Base,
        filter: LdapFilter::And(vec![]),
        attrs: vec![],
    };
    let theirs = simple::SearchRequest {
        msgid: 7,
        base: "dc=example".to_string(),
        scope: proto::LdapSearchScope::Base,
        filter: proto::LdapFilter::And(vec![]),
        attrs: vec![],
    };
    assert_eq!(message(&ours.gen_success()), theirs.gen_success());
    for rc in [
        LdapResultCode::OperationsError,
        LdapResultCode::NoSuchAttribute,
        LdapResultCode::InsufficentAccessRights,
        LdapResultCode::UnwillingToPerform,
        LdapResultCode::Other,
    ] {
        assert_eq!(
            message(&ours.gen_error(rc, "why".to_string())),
            theirs.gen_error(code(&rc), "why".to_string())
        );
    }
    assert_eq!(
        message(&ours.gen_result_entry(LdapSearchResultEntry {
            dn: "cn=a".to_string(),
            attributes: vec![LdapPartialAttribute {
                atype: "b".to_string(),
                vals: vec!["c".to_string()],
            }],
        })),
        theirs.gen_result_entry(proto::LdapSearchResultEntry {
            dn: "cn=a".to_string(),
            attributes: vec![proto::LdapPartialAttribute {
                atype: "b".to_string(),
                vals: vec!["c".to_string()],
            }],
        })
    );
}

#[test]
fn bind_messages_are_those_of_the_protocol_crate() {
    let ours = SimpleBindRequest {
        msgid: -3,
        dn: "cn=a".to_string(),
        pw: "b".to_string(),
    };
    let theirs = simple::SimpleBindRequest {
        msgid: -3,
        dn: "cn=a".to_string(),
        pw: "b".to_string(),
    };
    assert_eq!(message(&ours.gen_success()), theirs.gen_success());
    assert_eq!(message(&ours.gen_invalid_cred()), theirs.gen_invalid_cred());
    assert_eq!(
        message(&ours.gen_error(LdapResultCode::NamingViolation, "why".to_string())),
        theirs.gen_error(proto::LdapResultCode::NamingViolation, "why".to_string())
    );
}

#[test]
fn whoami_messages_are_those_of_the_protocol_crate() {
    let ours = WhoamiRequest { msgid: 5 };
    let theirs = simple::WhoamiRequest { msgid: 5 };
    assert_eq!(
        message(&ours.gen_success("dn: Bôb")),
        theirs.gen_success("dn: Bôb")
    );
    assert_eq!(
        message(&ours.gen_operror("why")),
        theirs.gen_operror("why")
    );
}

#[test]
fn whoami_success_holds_the_bytes_of_the_name() {
    assert_eq!(
        WhoamiRequest { msgid: 5 }.gen_success("dn: ô"),
        LdapMsg {
            msgid: 5,
            op: LdapOp::ExtendedResponse(LdapExtendedResponse {
                res: LdapResult {
                    code: LdapResultCode::Success,
                    matcheddn: "".to_string(),
                    message: "".to_string(),
                    referral: vec![],
                },
                name: None,
                value: Some(vec![100, 110, 58, 32, 195, 180]),
            }),
        }
    );
}

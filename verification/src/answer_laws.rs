//! What the answers to a client say, field by field.
use crate::collect::{all_or_first_error, lemma_all_ok};
use crate::dn::{parse_dn, user_dn, user_id_in_dn};
use crate::dn_laws::{
    ends_with, entry_dn, is_plain, law_entry_dn_text, law_user_dn_text, lemma_ends_with,
};
use crate::domain::{BindRequestView, GroupIdAndNameView, GroupView, RequestFilterView, UserView};
use crate::entry_laws::{
    law_group_entry_tells_of_the_group, law_user_entry_tells_of_the_user, tells_of_group,
    tells_of_user,
};
use crate::error::{
    error_text, too_many_elements_text, unexpected_group_dn_text, unexpected_user_dn_text,
    unsupported_group_filter_text, unsupported_user_filter_text, ErrorView,
};
use crate::filter::{group_filter, user_filter};
use crate::filter_laws::{
    is_listed, is_wanted, law_filter_keeps_its_meaning, law_group_filter_names_the_user, Person,
};
use crate::laws::after_messages;
use crate::message::{
    bind_response, plain_result, search_done, search_entry, search_success, whoami_error,
    whoami_success, BindView, EntryView, FilterView, LdapResultCode, MsgView, OpView, ResultView,
    SearchView, ServerOpsView,
};
use crate::render::{filter_debug, proto_filter, proto_filter_debug, text_debug};
use crate::search_laws::{
    first_are_group_attributes, first_are_user_attributes, is_group_attribute, is_user_attribute,
    law_group_search_of_unknown_attribute, law_user_search_of_unknown_attribute,
};
use crate::step::{
    bind_answer, bind_step, bound, entries_answer, fresh, group_entries, group_with_members,
    groups_list_answer, groups_list_step, members_step, message_step, search_step, user_entries,
    user_groups_step, user_list_answer, user_list_step, whoami_answer, BindStepView, HandlerView,
    ListingView, MessageStepView, SearchStepView,
};
use vstd::prelude::*;
use vstd::utf8::{decode_utf8, encode_utf8_decode_utf8, encode_utf8_valid_utf8, valid_utf8};

verus! {

/// The result has the code and the message, names no entry and refers nowhere.
pub open spec fn says(res: ResultView, code: LdapResultCode, message: Seq<char>) -> bool {
    &&& res.code == code
    &&& res.message == message
    &&& res.matcheddn.len() == 0
    &&& res.referral.len() == 0
}

/// The message ends the search `msgid` with the code and the message.
pub open spec fn ends_search(
    msg: MsgView,
    msgid: i32,
    code: LdapResultCode,
    message: Seq<char>,
) -> bool {
    &&& msg.msgid == msgid
    &&& msg.op matches OpView::SearchResultDone(res) && says(res, code, message)
}

/// The messages are one that ends the search `msgid` with the code and the message.
pub open spec fn only_end_search(
    msgs: Seq<MsgView>,
    msgid: i32,
    code: LdapResultCode,
    message: Seq<char>,
) -> bool {
    msgs.len() == 1 && ends_search(msgs[0], msgid, code, message)
}

/// The message answers the bind `msgid` with the code and the message.
pub open spec fn answers_bind(
    msg: MsgView,
    msgid: i32,
    code: LdapResultCode,
    message: Seq<char>,
) -> bool {
    &&& msg.msgid == msgid
    &&& msg.op matches OpView::BindResponse { res, saslcreds } && says(res, code, message)
        && saslcreds is None
}

/// The message tells the client of the whoami `msgid` the identity `identity`, in bytes that
/// decode to all of it.
pub open spec fn tells_identity(msg: MsgView, msgid: i32, identity: Seq<char>) -> bool {
    &&& msg.msgid == msgid
    &&& msg.op matches OpView::ExtendedResponse { res, name, value } && {
        &&& says(res, LdapResultCode::Success, Seq::empty())
        &&& name is None
        &&& value matches Some(bytes) && valid_utf8(bytes) && decode_utf8(bytes) == identity
    }
}

/// The message tells the client of the whoami `msgid` no identity, and `message`.
pub open spec fn refuses_identity(msg: MsgView, msgid: i32, message: Seq<char>) -> bool {
    &&& msg.msgid == msgid
    &&& msg.op matches OpView::ExtendedResponse { res, name, value } && {
        &&& says(res, LdapResultCode::OperationsError, message)
        &&& name is None
        &&& value is None
    }
}

/// Messages say what they are made of: the number, the code, the message and the entry, whole.
pub proof fn law_messages_say_what_they_are_made_of(
    msgid: i32,
    code: LdapResultCode,
    message: Seq<char>,
    entry: EntryView,
)
    ensures
        says(plain_result(code, message), code, message),
        ends_search(search_done(msgid, code, message), msgid, code, message),
        ends_search(search_success(msgid), msgid, LdapResultCode::Success, Seq::empty()),
        search_entry(msgid, entry).msgid == msgid,
        search_entry(msgid, entry).op matches OpView::SearchResultEntry(told) && {
            &&& told.dn == entry.dn
            &&& told.attributes.len() == entry.attributes.len()
            &&& forall|i: int|
                0 <= i < entry.attributes.len() ==> #[trigger] told.attributes[i]
                    == entry.attributes[i]
        },
        answers_bind(bind_response(msgid, code, message), msgid, code, message),
        tells_identity(whoami_success(msgid, message), msgid, message),
        refuses_identity(whoami_error(msgid, message), msgid, message),
{
    encode_utf8_valid_utf8(message);
    encode_utf8_decode_utf8(message);
}

/// Whatever the client sent, a bind that the directory has checked is answered with a success
/// exactly when the directory accepted it, and with invalid credentials otherwise.
pub proof fn law_bind_succeeds_as_the_directory_says(sbr: BindView, accepted: bool)
    ensures
        accepted ==> answers_bind(
            bind_answer(sbr, accepted),
            sbr.msgid,
            LdapResultCode::Success,
            Seq::empty(),
        ),
        !accepted ==> answers_bind(
            bind_answer(sbr, accepted),
            sbr.msgid,
            LdapResultCode::InvalidCredentials,
            Seq::empty(),
        ),
        bind_answer(sbr, accepted).op matches OpView::BindResponse { res, .. } && (res.code
            == LdapResultCode::Success <==> accepted),
{
}

/// After an accepted bind the client is bound as the whole name that it gave; after a rejected
/// one, as before. Nothing else changes.
pub proof fn law_bound_as_the_given_name(h: HandlerView, sbr: BindView, accepted: bool)
    ensures
        accepted ==> bound(h, sbr, accepted).dn == sbr.dn,
        !accepted ==> bound(h, sbr, accepted).dn == h.dn,
        bound(h, sbr, accepted).base_tree == h.base_tree,
        bound(h, sbr, accepted).base_dn == h.base_dn,
        bound(h, sbr, accepted).ldap_user_dn == h.ldap_user_dn,
{
}

/// A bind goes to the directory, with the name and the password that the client gave, exactly
/// when the client gave the distinguished name of a user below the base. Any other bind is
/// refused at once for what is wrong with the name.
pub proof fn law_bind_goes_to_the_directory(h: HandlerView, sbr: BindView, name: Seq<char>)
    requires
        parse_dn(h.base_dn) == Ok::<_, ErrorView>(h.base_tree),
    ensures
        bind_step(h, sbr) matches BindStepView::Authenticate(request) ==> request.password
            == sbr.pw && sbr.dn == entry_dn(request.name, "people"@, h.base_dn) && is_plain(
            request.name,
        ),
        sbr.dn == entry_dn(name, "people"@, h.base_dn) && is_plain(name) ==> bind_step(h, sbr)
            == BindStepView::Authenticate(BindRequestView { name, password: sbr.pw }),
        bind_step(h, sbr) matches BindStepView::Reply(msg) ==> (user_id_in_dn(
            sbr.dn,
            h.base_tree,
            h.base_dn,
        ) matches Err(error) && answers_bind(
            msg,
            sbr.msgid,
            LdapResultCode::NamingViolation,
            error_text(error),
        )),
{
    law_user_dn_text(sbr.dn, name, h.base_tree, h.base_dn);
    if let BindStepView::Authenticate(request) = bind_step(h, sbr) {
        law_user_dn_text(sbr.dn, request.name, h.base_tree, h.base_dn);
    }
}

/// A handler starts with a client that has not bound, and lets only the named user search.
pub proof fn law_fresh_handler(base_dn: Seq<char>, ldap_user: Seq<char>)
    requires
        parse_dn(base_dn) is Ok,
    ensures
        fresh(base_dn, ldap_user).dn == "Unauthenticated"@,
        fresh(base_dn, ldap_user).base_dn == base_dn,
        parse_dn(base_dn) == Ok::<_, ErrorView>(fresh(base_dn, ldap_user).base_tree),
        fresh(base_dn, ldap_user).ldap_user_dn == entry_dn(ldap_user, "people"@, base_dn),
{
    law_entry_dn_text(ldap_user, base_dn);
}

/// A client that is bound is told the whole distinguished name that it is bound as; any other is
/// told that it is not authenticated.
pub proof fn law_whoami_tells_the_bound_name(h: HandlerView, msgid: i32)
    ensures
        h.dn != "Unauthenticated"@ ==> tells_identity(
            whoami_answer(h, msgid),
            msgid,
            "dn: "@ + h.dn,
        ),
        h.dn == "Unauthenticated"@ ==> refuses_identity(
            whoami_answer(h, msgid),
            msgid,
            "Unauthenticated"@,
        ),
{
    law_messages_say_what_they_are_made_of(
        msgid,
        LdapResultCode::Success,
        "dn: "@ + h.dn,
        arbitrary(),
    );
}

/// After any messages at all, the base and who may search are as they were given, and the client
/// is not bound or bound as a user below the base.
pub proof fn law_state_after_any_messages(
    base_dn: Seq<char>,
    ldap_user: Seq<char>,
    messages: Seq<(ServerOpsView, bool)>,
)
    requires
        parse_dn(base_dn) is Ok,
    ensures
        ({
            let h = after_messages(fresh(base_dn, ldap_user), messages);
            &&& h.base_dn == base_dn
            &&& parse_dn(base_dn) == Ok::<_, ErrorView>(h.base_tree)
            &&& h.ldap_user_dn == entry_dn(ldap_user, "people"@, base_dn)
            &&& h.dn == "Unauthenticated"@ || exists|name: Seq<char>|
                is_plain(name) && h.dn == #[trigger] entry_dn(name, "people"@, base_dn)
        }),
    decreases messages.len(),
{
    law_fresh_handler(base_dn, ldap_user);
    if messages.len() > 0 {
        law_state_after_any_messages(base_dn, ldap_user, messages.drop_last());
        let before = after_messages(fresh(base_dn, ldap_user), messages.drop_last());
        let (op, accepted) = messages.last();
        if let ServerOpsView::SimpleBind(sbr) = op {
            law_bind_goes_to_the_directory(before, sbr, Seq::empty());
            law_bound_as_the_given_name(before, sbr, accepted);
        }
    }
}

/// Once the directory has accepted a bind, the client is told the whole name that it gave.
pub proof fn law_accepted_bind_shows_in_whoami(
    h: HandlerView,
    sbr: BindView,
    request: BindRequestView,
    msgid: i32,
)
    requires
        parse_dn(h.base_dn) == Ok::<_, ErrorView>(h.base_tree),
        bind_step(h, sbr) == BindStepView::Authenticate(request),
    ensures
        tells_identity(
            whoami_answer(bound(h, sbr, true), msgid),
            msgid,
            "dn: "@ + entry_dn(request.name, "people"@, h.base_dn),
        ),
{
    law_bind_goes_to_the_directory(h, sbr, request.name);
    law_whoami_tells_the_bound_name(bound(h, sbr, true), msgid);
    law_entry_dn_text(request.name, h.base_dn);
    reveal_strlit("cn=");
    reveal_strlit("Unauthenticated");
    assert(user_dn(request.name, h.base_dn)[0] == 'c');
    assert("Unauthenticated"@[0] == 'U');
}

/// The texts of errors say what went wrong, and with what.
pub proof fn law_error_texts(
    first: Seq<char>,
    second: Seq<char>,
    third: Seq<char>,
    filter: FilterView,
)
    ensures
        error_text(ErrorView::EmptyDnElement) == "Empty DN element"@,
        error_text(ErrorView::MissingDnValue) == "Missing DN value"@,
        error_text(ErrorView::NotASubtree) == "Not a subtree of the base tree"@,
        error_text(ErrorView::TooManyDnElements(first, second, third)) == too_many_elements_text(
            text_debug(first),
            text_debug(second),
            text_debug(third),
        ),
        too_many_elements_text(first, second, third)
            == "Too many elements in distinguished name: \""@ + first + "\", \""@ + second
            + "\", \""@ + third + "\""@,
        error_text((ErrorView::UnexpectedGroupDn { dn: first, base_dn: second }))
            == "Unexpected group DN format. Got \""@ + first
            + "\", expected: \"cn=groupname,ou=groups,"@ + second + "\""@,
        unexpected_group_dn_text(first, second) == error_text(
            (ErrorView::UnexpectedGroupDn { dn: first, base_dn: second }),
        ),
        error_text((ErrorView::UnexpectedUserDn { dn: first, base_dn: second }))
            == "Unexpected user DN format. Got \""@ + first
            + "\", expected: \"cn=username,ou=people,"@ + second + "\""@,
        unexpected_user_dn_text(first, second) == error_text(
            (ErrorView::UnexpectedUserDn { dn: first, base_dn: second }),
        ),
        error_text(ErrorView::UnsupportedUserAttribute(first)) == "Unsupported user attribute: "@
            + first,
        error_text(ErrorView::UnsupportedGroupAttribute(first)) == "Unsupported group attribute: "@
            + first,
        error_text(ErrorView::UnknownField(first)) == "Unknown field: "@ + first,
        filter_debug(filter) == proto_filter_debug(proto_filter(filter)),
        unsupported_user_filter_text(first) == "Unsupported user filter: "@ + first,
        error_text(ErrorView::UnsupportedUserFilter(filter)) == "Unsupported user filter: "@
            + proto_filter_debug(proto_filter(filter)),
        unsupported_group_filter_text(first) == "Unsupported group filter: "@ + first,
        error_text(ErrorView::UnsupportedGroupFilter(filter)) == "Unsupported group filter: "@
            + proto_filter_debug(proto_filter(filter)),
{
}

/// `step` looks for the users that the client wants: the directory is asked to list exactly
/// those, or the client is told at once why its filter cannot be served.
pub open spec fn looks_for_users(step: SearchStepView, h: HandlerView, lsr: SearchView) -> bool {
    match user_filter(lsr.filter, h.base_tree, h.base_dn) {
        Ok(_) => step matches SearchStepView::ListUsers(Some(condition)) && forall|
            person: Person,
        | #[trigger]
            is_listed(person, condition) <==> is_wanted(person, lsr.filter, h.base_dn),
        Err(error) => step matches SearchStepView::Reply(msgs) && only_end_search(
            msgs,
            lsr.msgid,
            LdapResultCode::UnwillingToPerform,
            "Unsupported user filter: "@ + error_text(error),
        ),
    }
}

/// `step` looks for the groups that the client wants: those of the member whose distinguished
/// name is compared with, or all; or the client is told at once why its filter cannot be served.
pub open spec fn looks_for_groups(step: SearchStepView, h: HandlerView, lsr: SearchView) -> bool {
    match step {
        SearchStepView::GetUserGroups(user_id) => is_plain(user_id) && (lsr.filter
            == FilterView::Equality("member"@, entry_dn(user_id, "people"@, h.base_dn))
            || lsr.filter == FilterView::Equality(
            "uniqueMember"@,
            entry_dn(user_id, "people"@, h.base_dn),
        )),
        SearchStepView::ListGroups => lsr.filter == FilterView::Equality(
            "objectClass"@,
            "groupOfUniqueNames"@,
        ),
        SearchStepView::Reply(msgs) => group_filter(lsr.filter, h.base_tree, h.base_dn) matches Err(
            error,
        ) && only_end_search(
            msgs,
            lsr.msgid,
            LdapResultCode::UnwillingToPerform,
            "Unsupported group filter: "@ + error_text(error),
        ),
        _ => false,
    }
}

/// A search for users looks for those that the client wants.
pub proof fn law_user_search_looks_for_users(h: HandlerView, lsr: SearchView)
    requires
        parse_dn(h.base_dn) == Ok::<_, ErrorView>(h.base_tree),
    ensures
        looks_for_users(user_list_step(h, lsr), h, lsr),
{
    if let Ok(condition) = user_filter(lsr.filter, h.base_tree, h.base_dn) {
        assert forall|person: Person| #[trigger] is_listed(person, condition) <==> is_wanted(
            person,
            lsr.filter,
            h.base_dn,
        ) by {
            law_filter_keeps_its_meaning(person, lsr.filter, h.base_tree, h.base_dn, condition);
        }
    }
}

/// A search for groups looks for those that the client wants.
pub proof fn law_group_search_looks_for_groups(h: HandlerView, lsr: SearchView)
    requires
        parse_dn(h.base_dn) == Ok::<_, ErrorView>(h.base_tree),
    ensures
        looks_for_groups(groups_list_step(h, lsr), h, lsr),
{
    let wanted = group_filter(lsr.filter, h.base_tree, h.base_dn);
    let user_id = match wanted {
        Ok(Some(user_id)) => user_id,
        _ => Seq::empty(),
    };
    law_group_filter_names_the_user(lsr.filter, user_id, h.base_tree, h.base_dn);
}

/// A client other than the one that may search is refused, and told who it is and who may.
pub proof fn law_others_may_not_search(h: HandlerView, lsr: SearchView)
    requires
        h.dn != h.ldap_user_dn,
    ensures
        search_step(h, lsr) matches SearchStepView::Reply(msgs) && only_end_search(
            msgs,
            lsr.msgid,
            LdapResultCode::InsufficentAccessRights,
            "Current user `"@ + h.dn + "` is not allowed to query LDAP, expected "@
                + h.ldap_user_dn,
        ),
{
}

/// A search in a place that cannot be parsed is answered with an error about the place.
pub proof fn law_search_in_no_place(h: HandlerView, lsr: SearchView)
    requires
        h.dn == h.ldap_user_dn,
        lsr.base.len() > 0,
        parse_dn(lsr.base) is Err,
    ensures
        search_step(h, lsr) matches SearchStepView::Reply(msgs) && only_end_search(
            msgs,
            lsr.msgid,
            LdapResultCode::OperationsError,
            "Could not parse base DN: \""@ + lsr.base + "\""@,
        ),
{
}

/// A search elsewhere than below the base succeeds at once and finds nothing.
pub proof fn law_search_elsewhere(
    h: HandlerView,
    lsr: SearchView,
    place: Seq<(Seq<char>, Seq<char>)>,
)
    requires
        h.dn == h.ldap_user_dn,
        lsr.base.len() > 0,
        parse_dn(lsr.base) == Ok::<_, ErrorView>(place),
        !ends_with(place, h.base_tree),
    ensures
        search_step(h, lsr) matches SearchStepView::Reply(msgs) && only_end_search(
            msgs,
            lsr.msgid,
            LdapResultCode::Success,
            Seq::empty(),
        ),
{
    lemma_ends_with(place, h.base_tree);
}

/// What a search below the base looks for depends on what stands before the base: users where
/// that is nothing or the unit `people`, groups where it is the unit `groups`. No message at all
/// is sent for any other place below the base.
pub proof fn law_search_below_the_base(
    h: HandlerView,
    lsr: SearchView,
    before: Seq<(Seq<char>, Seq<char>)>,
)
    requires
        parse_dn(h.base_dn) == Ok::<_, ErrorView>(h.base_tree),
        h.dn == h.ldap_user_dn,
        lsr.base.len() == 0 ==> before.len() == 0,
        lsr.base.len() > 0 ==> parse_dn(lsr.base) == Ok::<_, ErrorView>(before + h.base_tree),
    ensures
        before.len() == 0 || before == seq![("ou"@, "people"@)] ==> looks_for_users(
            search_step(h, lsr),
            h,
            lsr,
        ),
        before == seq![("ou"@, "groups"@)] ==> looks_for_groups(search_step(h, lsr), h, lsr),
        before.len() > 0 && before != seq![("ou"@, "people"@)] && before != seq![
            ("ou"@, "groups"@),
        ] ==> (search_step(h, lsr) matches SearchStepView::Reply(msgs) && msgs.len() == 0),
{
    let place = before + h.base_tree;
    if lsr.base.len() == 0 {
        assert(place =~= h.base_tree);
    }
    assert(ends_with(place, h.base_tree));
    lemma_ends_with(place, h.base_tree);
    law_user_search_looks_for_users(h, lsr);
    law_group_search_looks_for_groups(h, lsr);
    reveal_strlit("people");
    reveal_strlit("groups");
    assert("people"@[0] != "groups"@[0]);
    if before.len() == 1 {
        assert(place[0] == before[0]);
        if before[0] == ("ou"@, "people"@) {
            assert(before =~= seq![("ou"@, "people"@)]);
        }
        if before[0] == ("ou"@, "groups"@) {
            assert(before =~= seq![("ou"@, "groups"@)]);
        }
        if before == seq![("ou"@, "people"@)] {
            assert(before[0] == ("ou"@, "people"@));
        }
        if before == seq![("ou"@, "groups"@)] {
            assert(before[0] == ("ou"@, "groups"@));
        }
    }
}

/// Each message is served as what it is: a bind as a bind, a search as a search and a whoami as a
/// whoami, each with its own request; an unbind sends nothing.
pub proof fn law_messages_are_served_as_they_are(
    h: HandlerView,
    sbr: BindView,
    lsr: SearchView,
    msgid: i32,
)
    ensures
        match bind_step(h, sbr) {
            BindStepView::Authenticate(request) => message_step(h, ServerOpsView::SimpleBind(sbr))
                == MessageStepView::Bind(sbr, request),
            BindStepView::Reply(msg) => message_step(h, ServerOpsView::SimpleBind(sbr)) matches
                MessageStepView::Reply(Some(msgs)) && msgs.len() == 1 && msgs[0] == msg,
        },
        match search_step(h, lsr) {
            SearchStepView::Reply(msgs) => message_step(h, ServerOpsView::Search(lsr))
                == MessageStepView::Reply(Some(msgs)),
            step => message_step(h, ServerOpsView::Search(lsr)) == MessageStepView::Search(
                lsr,
                step,
            ),
        },
        message_step(h, ServerOpsView::Whoami(msgid)) matches MessageStepView::Reply(Some(msgs))
            && msgs.len() == 1 && msgs[0] == whoami_answer(h, msgid),
        message_step(h, ServerOpsView::Unbind) == MessageStepView::Reply(None),
{
}

/// The message is the entry that the search `msgid` sends for the user.
pub open spec fn shows_user(
    msg: MsgView,
    msgid: i32,
    user: UserView,
    base_dn: Seq<char>,
    attributes: Seq<Seq<char>>,
) -> bool {
    &&& msg.msgid == msgid
    &&& msg.op matches OpView::SearchResultEntry(entry) && tells_of_user(
        entry,
        user,
        base_dn,
        attributes,
    )
}

/// The message is the entry that the search `msgid` sends for the group.
pub open spec fn shows_group(
    msg: MsgView,
    msgid: i32,
    group: GroupView,
    base_dn: Seq<char>,
    attributes: Seq<Seq<char>>,
) -> bool {
    &&& msg.msgid == msgid
    &&& msg.op matches OpView::SearchResultEntry(entry) && tells_of_group(
        entry,
        group,
        base_dn,
        attributes,
    )
}

proof fn lemma_entry_messages(msgid: i32, entries: Seq<Result<EntryView, ErrorView>>)
    requires
        forall|i: int| 0 <= i < entries.len() ==> (#[trigger] entries[i]) is Ok,
    ensures
        ({
            let msgs = entries_answer(msgid, entries);
            &&& msgs.len() == entries.len() + 1
            &&& ends_search(
                msgs[entries.len() as int],
                msgid,
                LdapResultCode::Success,
                Seq::empty(),
            )
            &&& forall|i: int|
                0 <= i < entries.len() ==> (#[trigger] msgs[i]).msgid == msgid && msgs[i].op
                    == OpView::SearchResultEntry(entries[i]->Ok_0)
        }),
{
    lemma_all_ok(entries);
    let made = all_or_first_error(entries)->Ok_0;
    let msgs = entries_answer(msgid, entries);
    assert forall|i: int| 0 <= i < entries.len() implies (#[trigger] msgs[i]).msgid == msgid
        && msgs[i].op == OpView::SearchResultEntry(entries[i]->Ok_0) by {
        assert(entries[i] == Ok::<_, ErrorView>(made[i]));
    }
}

/// A search for users that asks only for attributes that users have is answered with one entry
/// for each user that was listed, in that order, each with every attribute that was asked for,
/// and then a success.
pub proof fn law_every_listed_user_is_shown(h: HandlerView, lsr: SearchView, users: Seq<UserView>)
    requires
        first_are_user_attributes(lsr.attrs, lsr.attrs.len() as int),
    ensures
        ({
            let msgs = user_list_answer(h, lsr, Ok(users));
            &&& msgs.len() == users.len() + 1
            &&& ends_search(
                msgs[users.len() as int],
                lsr.msgid,
                LdapResultCode::Success,
                Seq::empty(),
            )
            &&& forall|i: int|
                0 <= i < users.len() ==> shows_user(
                    #[trigger] msgs[i],
                    lsr.msgid,
                    users[i],
                    h.base_dn,
                    lsr.attrs,
                )
        }),
{
    let entries = user_entries(h, lsr, users);
    let msgs = user_list_answer(h, lsr, Ok(users));
    assert forall|i: int| 0 <= i < entries.len() implies (#[trigger] entries[i]) is Ok by {
        law_user_entry_tells_of_the_user(users[i], h.base_dn, lsr.attrs);
    }
    lemma_entry_messages(lsr.msgid, entries);
    assert forall|i: int| 0 <= i < users.len() implies shows_user(
        #[trigger] msgs[i],
        lsr.msgid,
        users[i],
        h.base_dn,
        lsr.attrs,
    ) by {
        law_user_entry_tells_of_the_user(users[i], h.base_dn, lsr.attrs);
        assert(entries[i] is Ok);
    }
}

/// A search for groups that asks only for attributes that groups have is answered with one entry
/// for each group that was listed, in that order, each with every attribute that was asked for,
/// and then a success.
pub proof fn law_every_listed_group_is_shown(
    h: HandlerView,
    lsr: SearchView,
    groups: Seq<GroupView>,
)
    requires
        first_are_group_attributes(lsr.attrs, lsr.attrs.len() as int),
    ensures
        ({
            let msgs = groups_list_answer(h, lsr, Ok(groups));
            &&& msgs.len() == groups.len() + 1
            &&& ends_search(
                msgs[groups.len() as int],
                lsr.msgid,
                LdapResultCode::Success,
                Seq::empty(),
            )
            &&& forall|i: int|
                0 <= i < groups.len() ==> shows_group(
                    #[trigger] msgs[i],
                    lsr.msgid,
                    groups[i],
                    h.base_dn,
                    lsr.attrs,
                )
        }),
{
    let entries = group_entries(h, lsr, groups);
    let msgs = groups_list_answer(h, lsr, Ok(groups));
    assert forall|i: int| 0 <= i < entries.len() implies (#[trigger] entries[i]) is Ok by {
        law_group_entry_tells_of_the_group(groups[i], h.base_dn, lsr.attrs);
    }
    lemma_entry_messages(lsr.msgid, entries);
    assert forall|i: int| 0 <= i < groups.len() implies shows_group(
        #[trigger] msgs[i],
        lsr.msgid,
        groups[i],
        h.base_dn,
        lsr.attrs,
    ) by {
        law_group_entry_tells_of_the_group(groups[i], h.base_dn, lsr.attrs);
        assert(entries[i] is Ok);
    }
}

/// A search that asks for an attribute that is not there, for any user or group at all, is
/// answered only with an error that names the first such attribute.
pub proof fn law_unknown_attribute_is_named(
    h: HandlerView,
    lsr: SearchView,
    users: Seq<UserView>,
    groups: Seq<GroupView>,
    n: int,
)
    requires
        0 <= n < lsr.attrs.len(),
    ensures
        users.len() > 0 && first_are_user_attributes(lsr.attrs, n) && !is_user_attribute(
            lsr.attrs[n],
        ) ==> only_end_search(
            user_list_answer(h, lsr, Ok(users)),
            lsr.msgid,
            LdapResultCode::NoSuchAttribute,
            "Unsupported user attribute: "@ + lsr.attrs[n],
        ),
        groups.len() > 0 && first_are_group_attributes(lsr.attrs, n) && !is_group_attribute(
            lsr.attrs[n],
        ) ==> only_end_search(
            groups_list_answer(h, lsr, Ok(groups)),
            lsr.msgid,
            LdapResultCode::NoSuchAttribute,
            "Unsupported group attribute: "@ + lsr.attrs[n],
        ),
{
    if first_are_user_attributes(lsr.attrs, n) && !is_user_attribute(lsr.attrs[n]) {
        law_user_search_of_unknown_attribute(h, lsr, users, n);
    }
    if first_are_group_attributes(lsr.attrs, n) && !is_group_attribute(lsr.attrs[n]) {
        law_group_search_of_unknown_attribute(h, lsr, groups, n);
    }
}

/// A search for nobody, or for no group, succeeds and sends nothing else.
pub proof fn law_nothing_listed_is_a_success(h: HandlerView, lsr: SearchView)
    ensures
        only_end_search(
            user_list_answer(h, lsr, Ok(Seq::empty())),
            lsr.msgid,
            LdapResultCode::Success,
            Seq::empty(),
        ),
        only_end_search(
            groups_list_answer(h, lsr, Ok(Seq::empty())),
            lsr.msgid,
            LdapResultCode::Success,
            Seq::empty(),
        ),
{
}

/// Where the directory fails, the client is told the place of the search and the directory's
/// text, and nothing else.
pub proof fn law_directory_failures_are_told(
    h: HandlerView,
    lsr: SearchView,
    listing: ListingView,
    text: Seq<char>,
)
    ensures
        only_end_search(
            user_list_answer(h, lsr, Err(text)),
            lsr.msgid,
            LdapResultCode::Other,
            "Error during searching user \""@ + lsr.base + "\": "@ + text,
        ),
        only_end_search(
            groups_list_answer(h, lsr, Err(text)),
            lsr.msgid,
            LdapResultCode::Other,
            "Error while listing groups \""@ + lsr.base + "\": "@ + text,
        ),
        user_groups_step(h, lsr, Err(text)) matches SearchStepView::Reply(msgs)
            && only_end_search(
            msgs,
            lsr.msgid,
            LdapResultCode::Other,
            "Error while listing user groups: \""@ + lsr.base + "\": "@ + text,
        ),
        members_step(h, lsr, listing, Err(text)) matches SearchStepView::Reply(msgs)
            && only_end_search(
            msgs,
            lsr.msgid,
            LdapResultCode::Other,
            "Error while listing user groups: \""@ + lsr.base + "\": "@ + text,
        ),
{
}

/// `step` asks for the members of the first of `waiting`, by the id of that group, and keeps the
/// others in their order and the groups that are known.
pub open spec fn asks_for_members(
    step: SearchStepView,
    waiting: Seq<GroupIdAndNameView>,
    known: Seq<GroupView>,
) -> bool {
    step matches SearchStepView::ListMembers(condition, listing) && {
        &&& condition matches Some(RequestFilterView::MemberOfId(id)) && id == waiting[0].id
        &&& listing.current == waiting[0]
        &&& listing.rest.len() + 1 == waiting.len()
        &&& forall|i: int|
            0 <= i < listing.rest.len() ==> #[trigger] listing.rest[i] == waiting[i + 1]
        &&& listing.groups.len() == known.len()
        &&& forall|i: int|
            0 <= i < known.len() ==> #[trigger] listing.groups[i] == known[i]
    }
}

/// Of the groups of a user, the members of one after the other are asked for; a user without
/// groups is answered as a search that lists none.
pub proof fn law_groups_of_a_user_are_taken_in_turn(
    h: HandlerView,
    lsr: SearchView,
    groups: Seq<GroupIdAndNameView>,
)
    ensures
        groups.len() > 0 ==> asks_for_members(
            user_groups_step(h, lsr, Ok(groups)),
            groups,
            Seq::empty(),
        ),
        groups.len() == 0 ==> (user_groups_step(h, lsr, Ok(groups)) matches SearchStepView::Reply(
            msgs,
        ) && only_end_search(msgs, lsr.msgid, LdapResultCode::Success, Seq::empty())),
{
}

/// The group is the named one, with the listed users as its members, in that order.
pub open spec fn is_group_of(
    group: GroupView,
    named: GroupIdAndNameView,
    users: Seq<UserView>,
) -> bool {
    &&& group.id == named.id
    &&& group.display_name == named.display_name
    &&& group.users.len() == users.len()
    &&& forall|i: int| 0 <= i < users.len() ==> #[trigger] group.users[i] == users[i].user_id
}

/// Once the members of a group are listed, the group is added behind those that are known, and
/// the next group is asked for; after the last group the search is answered as one that listed
/// all of them.
pub proof fn law_listed_members_complete_the_group(
    h: HandlerView,
    lsr: SearchView,
    listing: ListingView,
    users: Seq<UserView>,
)
    ensures
        exists|group: GroupView| #[trigger]
            is_group_of(group, listing.current, users) && if listing.rest.len() > 0 {
                asks_for_members(
                    members_step(h, lsr, listing, Ok(users)),
                    listing.rest,
                    listing.groups.push(group),
                )
            } else {
                members_step(h, lsr, listing, Ok(users)) matches SearchStepView::Reply(msgs) && msgs
                    == groups_list_answer(h, lsr, Ok(listing.groups.push(group)))
            },
{
    let group = group_with_members(listing.current, users);
    assert(is_group_of(group, listing.current, users));
}

} // verus!

//! What holds of the handler as a whole.
use crate::dn::{parse_dn, user_dn, user_id_in_dn};
use crate::dn_laws::{is_plain, law_unit_dn, law_user_dn, law_user_dn_injective};
use crate::domain::{BindRequestView, GroupIdAndNameView, GroupView, UserView};
use crate::error::ErrorView;
use crate::message::{
    search_done, search_success, whoami_error, whoami_success, BindView, LdapResultCode, MsgView,
    SearchView, ServerOpsView,
};
use crate::step::{
    bind_answer, bind_step, bound, fresh, groups_list_answer, groups_list_step, members_step,
    message_step, search_step, serves, unauthenticated, user_groups_step, user_list_answer,
    user_list_step, whoami_answer, BindStepView, HandlerView, ListingView, MessageStepView,
    SearchStepView,
};
use vstd::prelude::*;

verus! {

/// The state after a message, where the directory accepts or rejects the credentials if it is
/// asked about any.
pub open spec fn after_message(h: HandlerView, op: ServerOpsView, accepted: bool) -> HandlerView {
    match message_step(h, op) {
        MessageStepView::Bind(sbr, _) => bound(h, sbr, accepted),
        _ => h,
    }
}

/// The state after a sequence of messages.
pub open spec fn after_messages(h: HandlerView, messages: Seq<(ServerOpsView, bool)>) -> HandlerView
    decreases messages.len(),
{
    if messages.len() == 0 {
        h
    } else {
        let before = after_messages(h, messages.drop_last());
        after_message(before, messages.last().0, messages.last().1)
    }
}

/// Whether the client may search.
pub open spec fn may_search(h: HandlerView) -> bool {
    h.dn == h.ldap_user_dn
}

/// No sequence of messages changes the base or who may search, and a client is at any time
/// either not bound or bound as a user below the base.
pub proof fn law_every_state(
    base_dn: Seq<char>,
    ldap_user: Seq<char>,
    messages: Seq<(ServerOpsView, bool)>,
)
    requires
        parse_dn(base_dn) is Ok,
    ensures
        serves(after_messages(fresh(base_dn, ldap_user), messages), base_dn, ldap_user),
    decreases messages.len(),
{
    if messages.len() > 0 {
        law_every_state(base_dn, ldap_user, messages.drop_last());
    }
}

/// Only a bind that the directory accepts changes the state; what it changes is whom the client
/// is bound as.
pub proof fn law_only_accepted_binds_change_the_state(
    h: HandlerView,
    op: ServerOpsView,
    accepted: bool,
)
    ensures
        after_message(h, op, accepted) == h || {
            &&& accepted
            &&& op matches ServerOpsView::SimpleBind(sbr)
            &&& bind_step(h, sbr) is Authenticate
            &&& after_message(h, op, accepted) == (HandlerView { dn: sbr.dn, ..h })
        },
{
}

/// The directory is asked to authenticate `name` exactly when the client binds with the
/// distinguished name of that user, and the name holds no separator.
pub proof fn law_bind_asks_for_the_named_user(
    h: HandlerView,
    base_dn: Seq<char>,
    ldap_user: Seq<char>,
    sbr: BindView,
    name: Seq<char>,
)
    requires
        serves(h, base_dn, ldap_user),
    ensures
        bind_step(h, sbr) == BindStepView::Authenticate(
            BindRequestView { name, password: sbr.pw },
        ) <==> sbr.dn == user_dn(name, base_dn) && is_plain(name),
{
    law_user_dn(sbr.dn, name, h.base_tree, base_dn);
}

proof fn lemma_user_dn_is_not_unauthenticated(user_id: Seq<char>, base_dn: Seq<char>)
    ensures
        user_dn(user_id, base_dn) != unauthenticated(),
{
    reveal_strlit("cn=");
    reveal_strlit("Unauthenticated");
    assert(user_dn(user_id, base_dn)[0] == 'c');
    assert(unauthenticated()[0] == 'U');
}

/// A client that has not bound is told so, and may not search.
pub proof fn law_before_any_bind(base_dn: Seq<char>, ldap_user: Seq<char>, msgid: i32)
    ensures
        whoami_answer(fresh(base_dn, ldap_user), msgid) == whoami_error(msgid, "Unauthenticated"@),
        !may_search(fresh(base_dn, ldap_user)),
{
    lemma_user_dn_is_not_unauthenticated(ldap_user, base_dn);
}

/// A client whose bind is accepted is told the distinguished name that it gave.
pub proof fn law_whoami_after_bind(
    h: HandlerView,
    base_dn: Seq<char>,
    ldap_user: Seq<char>,
    sbr: BindView,
    msgid: i32,
)
    requires
        serves(h, base_dn, ldap_user),
        bind_step(h, sbr) is Authenticate,
    ensures
        whoami_answer(bound(h, sbr, true), msgid) == whoami_success(msgid, "dn: "@ + sbr.dn),
{
    let name = user_id_in_dn(sbr.dn, h.base_tree, h.base_dn)->Ok_0;
    law_user_dn(sbr.dn, name, h.base_tree, base_dn);
    lemma_user_dn_is_not_unauthenticated(name, base_dn);
}

/// After an accepted bind the client may search exactly when the user that was authenticated is
/// the one that may.
pub proof fn law_only_the_ldap_user_may_search(
    h: HandlerView,
    base_dn: Seq<char>,
    ldap_user: Seq<char>,
    sbr: BindView,
    request: BindRequestView,
)
    requires
        serves(h, base_dn, ldap_user),
        bind_step(h, sbr) == BindStepView::Authenticate(request),
    ensures
        may_search(bound(h, sbr, true)) <==> request.name == ldap_user,
{
    law_user_dn(sbr.dn, request.name, h.base_tree, base_dn);
    if may_search(bound(h, sbr, true)) {
        law_user_dn_injective(request.name, ldap_user, base_dn);
    }
}

/// A client that may not search is refused at once, whatever it searches for; the directory is
/// not asked.
pub proof fn law_search_is_refused(h: HandlerView, lsr: SearchView)
    requires
        !may_search(h),
    ensures
        message_step(h, ServerOpsView::Search(lsr)) == MessageStepView::Reply(
            Some(
                seq![
                    search_done(
                        lsr.msgid,
                        LdapResultCode::InsufficentAccessRights,
                        "Current user `"@ + h.dn + "` is not allowed to query LDAP, expected "@
                            + h.ldap_user_dn,
                    ),
                ],
            ),
        ),
{
}

/// A search that names no place starts as one in the base does.
pub proof fn law_no_place_is_the_base(
    h: HandlerView,
    base_dn: Seq<char>,
    ldap_user: Seq<char>,
    lsr: SearchView,
)
    requires
        serves(h, base_dn, ldap_user),
    ensures
        search_step(h, SearchView { base: Seq::empty(), ..lsr }) == search_step(
            h,
            SearchView { base: base_dn, ..lsr },
        ),
{
}

/// A search in the base or in its unit `people` looks for users, one in its unit `groups` looks
/// for groups, and one in a place that is not below the base finds nothing.
pub proof fn law_where_a_search_looks(
    h: HandlerView,
    base_dn: Seq<char>,
    ldap_user: Seq<char>,
    lsr: SearchView,
)
    requires
        serves(h, base_dn, ldap_user),
        may_search(h),
    ensures
        lsr.base.len() == 0 || lsr.base == base_dn || lsr.base == "ou="@ + "people"@ + ","@
            + base_dn ==> search_step(h, lsr) == user_list_step(h, lsr),
        lsr.base == "ou="@ + "groups"@ + ","@ + base_dn ==> search_step(h, lsr)
            == groups_list_step(h, lsr),
        lsr.base.len() > 0 && (parse_dn(lsr.base) matches Ok(place) && !h.base_tree.is_suffix_of(
            place,
        )) ==> search_step(h, lsr) == SearchStepView::Reply(seq![search_success(lsr.msgid)]),
{
    reveal_strlit("ou=");
    reveal_strlit("people");
    reveal_strlit("groups");
    assert(is_plain("people"@));
    assert(is_plain("groups"@));
    assert("people"@[0] != "groups"@[0]);
    law_unit_dn("people"@, h.base_tree, base_dn);
    law_unit_dn("groups"@, h.base_tree, base_dn);
    let people = seq![("ou"@, "people"@)] + h.base_tree;
    let groups = seq![("ou"@, "groups"@)] + h.base_tree;
    assert(h.base_tree =~= h.base_tree.subrange(0, h.base_tree.len() as int));
    assert(h.base_tree =~= people.subrange(1, people.len() as int));
    assert(h.base_tree =~= groups.subrange(1, groups.len() as int));
    assert(("ou="@ + "people"@ + ","@ + base_dn).len() > 0);
    assert(("ou="@ + "groups"@ + ","@ + base_dn).len() > 0);
}

/// The number that the answers to a message carry; an unbind has none.
pub open spec fn message_id(op: ServerOpsView) -> Option<i32> {
    match op {
        ServerOpsView::Search(lsr) => Some(lsr.msgid),
        ServerOpsView::SimpleBind(sbr) => Some(sbr.msgid),
        ServerOpsView::Whoami(msgid) => Some(msgid),
        ServerOpsView::Unbind => None,
    }
}

/// Every message in `msgs` carries the number `msgid`.
pub open spec fn carry_id(msgs: Seq<MsgView>, msgid: i32) -> bool {
    forall|i: int| 0 <= i < msgs.len() ==> (#[trigger] msgs[i]).msgid == msgid
}

/// Where `step` ends a search, every message carries the number `msgid`.
pub open spec fn step_carries_id(step: SearchStepView, msgid: i32) -> bool {
    step matches SearchStepView::Reply(msgs) ==> carry_id(msgs, msgid)
}

/// What is sent at once for a message carries the number of the message; nothing is sent for an
/// unbind, and only for an unbind.
pub proof fn law_immediate_answers_carry_the_id(h: HandlerView, op: ServerOpsView)
    ensures
        message_step(h, op) matches MessageStepView::Reply(reply) ==> {
            &&& reply is Some <==> message_id(op) is Some
            &&& reply is Some ==> carry_id(reply->0, message_id(op)->0)
        },
{
}

/// What is sent once the directory has answered carries the number of the request.
pub proof fn law_later_answers_carry_the_id(
    h: HandlerView,
    sbr: BindView,
    accepted: bool,
    lsr: SearchView,
    users: Result<Seq<UserView>, Seq<char>>,
    groups: Result<Seq<GroupView>, Seq<char>>,
    user_groups: Result<Seq<GroupIdAndNameView>, Seq<char>>,
    listing: ListingView,
)
    ensures
        bind_answer(sbr, accepted).msgid == sbr.msgid,
        carry_id(user_list_answer(h, lsr, users), lsr.msgid),
        carry_id(groups_list_answer(h, lsr, groups), lsr.msgid),
        step_carries_id(user_groups_step(h, lsr, user_groups), lsr.msgid),
        step_carries_id(members_step(h, lsr, listing, users), lsr.msgid),
{
}

} // verus!

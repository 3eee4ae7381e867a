//! What the handler decides at each point of serving a request, as functions of its state, the
//! request and what the directory answered.
use crate::collect::all_or_first_error;
use crate::dn::{parse_dn, user_dn, user_id_in_dn};
use crate::domain::{
    BindRequest, BindRequestView, Group, GroupIdAndName, GroupIdAndNameView, GroupView,
    RequestFilter, RequestFilterView, UserView,
};
use crate::entry::{group_entry, user_entry};
use crate::error::{error_text, ErrorView};
use crate::filter::{group_filter, user_filter};
use crate::message::{
    bind_response, search_done, search_entry, search_success, whoami_error, whoami_success,
    BindView, EntryView, LdapMsg, LdapResultCode, MsgView, SearchRequest, SearchView, ServerOpsView,
    SimpleBindRequest,
};
use vstd::prelude::*;

verus! {

/// The state of a connection.
pub struct HandlerView {
    /// The distinguished name that the client is bound as.
    pub dn: Seq<char>,
    /// The elements of the base.
    pub base_tree: Seq<(Seq<char>, Seq<char>)>,
    /// The text of the base.
    pub base_dn: Seq<char>,
    /// The only distinguished name that may search.
    pub ldap_user_dn: Seq<char>,
}

/// How a bind goes on.
#[derive(Debug, PartialEq, Eq)]
pub enum BindStep {
    /// The bind is over.
    Reply(LdapMsg),
    /// The directory has to check these credentials.
    Authenticate(BindRequest),
}

/// Groups whose members are being listed, one group after the other.
#[derive(Debug, PartialEq, Eq)]
pub struct MemberListing {
    /// The group whose members are asked for.
    pub current: GroupIdAndName,
    /// The groups that come after it.
    pub rest: Vec<GroupIdAndName>,
    /// The groups whose members are known.
    pub groups: Vec<Group>,
}

/// How a search goes on.
#[derive(Debug, PartialEq, Eq)]
pub enum SearchStep {
    /// The search is over.
    Reply(Vec<LdapMsg>),
    /// The directory has to list the users that meet the condition.
    ListUsers(Option<RequestFilter>),
    /// The directory has to list the groups of the user.
    GetUserGroups(String),
    /// The directory has to list the users that meet the condition, for the current group of the
    /// listing.
    ListMembers(Option<RequestFilter>, MemberListing),
    /// The directory has to list all groups.
    ListGroups,
}

/// How a message is served.
#[derive(PartialEq, Eq)]
pub enum MessageStep {
    /// The message is served; `None` where nothing is sent back.
    Reply(Option<Vec<LdapMsg>>),
    /// The message is a bind whose credentials the directory has to check.
    Bind(SimpleBindRequest, BindRequest),
    /// The message is a search that goes on with the given step.
    Search(SearchRequest, SearchStep),
}

pub enum BindStepView {
    Reply(MsgView),
    Authenticate(BindRequestView),
}

pub struct ListingView {
    pub current: GroupIdAndNameView,
    pub rest: Seq<GroupIdAndNameView>,
    pub groups: Seq<GroupView>,
}

pub enum SearchStepView {
    Reply(Seq<MsgView>),
    ListUsers(Option<RequestFilterView>),
    GetUserGroups(Seq<char>),
    ListMembers(Option<RequestFilterView>, ListingView),
    ListGroups,
}

pub enum MessageStepView {
    Reply(Option<Seq<MsgView>>),
    Bind(BindView, BindRequestView),
    Search(SearchView, SearchStepView),
}

impl DeepView for BindStep {
    type V = BindStepView;

    open spec fn deep_view(&self) -> BindStepView {
        match *self {
            BindStep::Reply(msg) => BindStepView::Reply(msg.deep_view()),
            BindStep::Authenticate(request) => BindStepView::Authenticate(request.deep_view()),
        }
    }
}

impl DeepView for MemberListing {
    type V = ListingView;

    open spec fn deep_view(&self) -> ListingView {
        ListingView {
            current: self.current.deep_view(),
            rest: self.rest.deep_view(),
            groups: self.groups.deep_view(),
        }
    }
}

impl DeepView for SearchStep {
    type V = SearchStepView;

    open spec fn deep_view(&self) -> SearchStepView {
        match *self {
            SearchStep::Reply(msgs) => SearchStepView::Reply(msgs.deep_view()),
            SearchStep::ListUsers(filter) => SearchStepView::ListUsers(filter.deep_view()),
            SearchStep::GetUserGroups(user_id) => SearchStepView::GetUserGroups(user_id@),
            SearchStep::ListMembers(filter, listing) => SearchStepView::ListMembers(
                filter.deep_view(),
                listing.deep_view(),
            ),
            SearchStep::ListGroups => SearchStepView::ListGroups,
        }
    }
}

impl DeepView for MessageStep {
    type V = MessageStepView;

    open spec fn deep_view(&self) -> MessageStepView {
        match *self {
            MessageStep::Reply(msgs) => MessageStepView::Reply(msgs.deep_view()),
            MessageStep::Bind(sbr, request) => MessageStepView::Bind(
                sbr.deep_view(),
                request.deep_view(),
            ),
            MessageStep::Search(lsr, step) => MessageStepView::Search(
                lsr.deep_view(),
                step.deep_view(),
            ),
        }
    }
}

/// An answer of the directory over views: what it found, or the text of its error.
pub open spec fn answer_view<T: DeepView>(answer: Result<T, String>) -> Result<T::V, Seq<char>> {
    match answer {
        Ok(value) => Ok(value.deep_view()),
        Err(text) => Err(text@),
    }
}

/// The name of a client that has not bound.
pub open spec fn unauthenticated() -> Seq<char> {
    "Unauthenticated"@
}

/// The state of a handler that was made for the base `base_dn` and the user `ldap_user`.
pub open spec fn fresh(base_dn: Seq<char>, ldap_user: Seq<char>) -> HandlerView {
    HandlerView {
        dn: unauthenticated(),
        base_tree: parse_dn(base_dn)->Ok_0,
        base_dn,
        ldap_user_dn: user_dn(ldap_user, base_dn),
    }
}

/// The client has not bound, or is bound as a user below the base; `ldap_user` may search.
pub open spec fn serves(h: HandlerView, base_dn: Seq<char>, ldap_user: Seq<char>) -> bool {
    &&& parse_dn(base_dn) == Ok::<_, ErrorView>(h.base_tree)
    &&& h.base_dn == base_dn
    &&& h.ldap_user_dn == user_dn(ldap_user, base_dn)
    &&& h.dn == unauthenticated() || user_id_in_dn(h.dn, h.base_tree, h.base_dn) is Ok
}

/// How a bind starts: a name that is not one of a user is refused at once; any other bind is
/// for the directory to decide.
pub open spec fn bind_step(h: HandlerView, sbr: BindView) -> BindStepView {
    match user_id_in_dn(sbr.dn, h.base_tree, h.base_dn) {
        Ok(name) => BindStepView::Authenticate(BindRequestView { name, password: sbr.pw }),
        Err(error) => BindStepView::Reply(
            bind_response(sbr.msgid, LdapResultCode::NamingViolation, error_text(error)),
        ),
    }
}

/// The answer to a bind that the directory has accepted or not.
pub open spec fn bind_answer(sbr: BindView, accepted: bool) -> MsgView {
    bind_response(
        sbr.msgid,
        if accepted {
            LdapResultCode::Success
        } else {
            LdapResultCode::InvalidCredentials
        },
        Seq::empty(),
    )
}

/// The state after a bind that the directory has accepted or not.
pub open spec fn bound(h: HandlerView, sbr: BindView, accepted: bool) -> HandlerView {
    if accepted {
        HandlerView { dn: sbr.dn, ..h }
    } else {
        h
    }
}

/// The answer to a whoami.
pub open spec fn whoami_answer(h: HandlerView, msgid: i32) -> MsgView {
    if h.dn == unauthenticated() {
        whoami_error(msgid, "Unauthenticated"@)
    } else {
        whoami_success(msgid, "dn: "@ + h.dn)
    }
}

/// A search that ends with an error and no entries.
pub open spec fn search_failure(
    lsr: SearchView,
    code: LdapResultCode,
    message: Seq<char>,
) -> SearchStepView {
    SearchStepView::Reply(seq![search_done(lsr.msgid, code, message)])
}

/// The elements of the place to search; the base where none is given.
pub open spec fn search_place(h: HandlerView, base: Seq<char>) -> Result<
    Seq<(Seq<char>, Seq<char>)>,
    ErrorView,
> {
    if base.len() == 0 {
        Ok(h.base_tree)
    } else {
        parse_dn(base)
    }
}

/// Whether users are found in the place with the elements `place`, which is below the base.
pub open spec fn holds_users(h: HandlerView, place: Seq<(Seq<char>, Seq<char>)>) -> bool {
    ||| place.len() == h.base_tree.len()
    ||| place.len() == h.base_tree.len() + 1 && place[0] == ("ou"@, "people"@)
}

/// Whether groups are found in the place with the elements `place`, which is below the base.
pub open spec fn holds_groups(h: HandlerView, place: Seq<(Seq<char>, Seq<char>)>) -> bool {
    place.len() == h.base_tree.len() + 1 && place[0] == ("ou"@, "groups"@)
}

/// How a search in a place that can be parsed starts.
pub open spec fn search_in_step(
    h: HandlerView,
    lsr: SearchView,
    place: Seq<(Seq<char>, Seq<char>)>,
) -> SearchStepView {
    if !h.base_tree.is_suffix_of(place) {
        SearchStepView::Reply(seq![search_success(lsr.msgid)])
    } else if holds_users(h, place) {
        user_list_step(h, lsr)
    } else if holds_groups(h, place) {
        groups_list_step(h, lsr)
    } else {
        SearchStepView::Reply(Seq::empty())
    }
}

/// How a search starts.
pub open spec fn search_step(h: HandlerView, lsr: SearchView) -> SearchStepView {
    if h.dn != h.ldap_user_dn {
        search_failure(
            lsr,
            LdapResultCode::InsufficentAccessRights,
            "Current user `"@ + h.dn + "` is not allowed to query LDAP, expected "@
                + h.ldap_user_dn,
        )
    } else {
        match search_place(h, lsr.base) {
            Ok(place) => search_in_step(h, lsr, place),
            Err(_) => search_failure(
                lsr,
                LdapResultCode::OperationsError,
                "Could not parse base DN: \""@ + lsr.base + "\""@,
            ),
        }
    }
}

/// How a search for users starts.
pub open spec fn user_list_step(h: HandlerView, lsr: SearchView) -> SearchStepView {
    match user_filter(lsr.filter, h.base_tree, h.base_dn) {
        Ok(filter) => SearchStepView::ListUsers(Some(filter)),
        Err(error) => search_failure(
            lsr,
            LdapResultCode::UnwillingToPerform,
            "Unsupported user filter: "@ + error_text(error),
        ),
    }
}

/// How a search for groups starts.
pub open spec fn groups_list_step(h: HandlerView, lsr: SearchView) -> SearchStepView {
    match group_filter(lsr.filter, h.base_tree, h.base_dn) {
        Ok(Some(user_id)) => SearchStepView::GetUserGroups(user_id),
        Ok(None) => SearchStepView::ListGroups,
        Err(error) => search_failure(
            lsr,
            LdapResultCode::UnwillingToPerform,
            "Unsupported group filter: "@ + error_text(error),
        ),
    }
}

/// The messages that end a search: the entries and then a success, or only an error where an
/// entry cannot be made.
pub open spec fn entries_answer(
    msgid: i32,
    entries: Seq<Result<EntryView, ErrorView>>,
) -> Seq<MsgView> {
    match all_or_first_error(entries) {
        Ok(entries) => entries.map_values(|entry: EntryView| search_entry(msgid, entry)).push(
            search_success(msgid),
        ),
        Err(error) => seq![
            search_done(msgid, LdapResultCode::NoSuchAttribute, error_text(error)),
        ],
    }
}

/// The entries of users.
pub open spec fn user_entries(h: HandlerView, lsr: SearchView, users: Seq<UserView>) -> Seq<
    Result<EntryView, ErrorView>,
> {
    users.map_values(|user: UserView| user_entry(user, h.base_dn, lsr.attrs))
}

/// The entries of groups.
pub open spec fn group_entries(h: HandlerView, lsr: SearchView, groups: Seq<GroupView>) -> Seq<
    Result<EntryView, ErrorView>,
> {
    groups.map_values(|group: GroupView| group_entry(group, h.base_dn, lsr.attrs))
}

/// The answer to a search for users, once the directory has listed them.
pub open spec fn user_list_answer(
    h: HandlerView,
    lsr: SearchView,
    users: Result<Seq<UserView>, Seq<char>>,
) -> Seq<MsgView> {
    match users {
        Ok(users) => entries_answer(lsr.msgid, user_entries(h, lsr, users)),
        Err(text) => seq![
            search_done(
                lsr.msgid,
                LdapResultCode::Other,
                "Error during searching user \""@ + lsr.base + "\": "@ + text,
            ),
        ],
    }
}

/// The answer to a search for groups, once the directory has listed them.
pub open spec fn groups_list_answer(
    h: HandlerView,
    lsr: SearchView,
    groups: Result<Seq<GroupView>, Seq<char>>,
) -> Seq<MsgView> {
    match groups {
        Ok(groups) => entries_answer(lsr.msgid, group_entries(h, lsr, groups)),
        Err(text) => seq![
            search_done(
                lsr.msgid,
                LdapResultCode::Other,
                "Error while listing groups \""@ + lsr.base + "\": "@ + text,
            ),
        ],
    }
}

/// A search for the groups of a user that ends because the directory failed.
pub open spec fn user_groups_failure(lsr: SearchView, text: Seq<char>) -> SearchStepView {
    search_failure(
        lsr,
        LdapResultCode::Other,
        "Error while listing user groups: \""@ + lsr.base + "\": "@ + text,
    )
}

/// The group that is known once its members are.
pub open spec fn group_with_members(
    group: GroupIdAndNameView,
    users: Seq<UserView>,
) -> GroupView {
    GroupView {
        id: group.id,
        display_name: group.display_name,
        users: users.map_values(|user: UserView| user.user_id),
    }
}

/// How a search for the groups of a user goes on, where the members of `groups` are known and
/// those of `rest` are not.
pub open spec fn next_members_step(
    h: HandlerView,
    lsr: SearchView,
    rest: Seq<GroupIdAndNameView>,
    groups: Seq<GroupView>,
) -> SearchStepView {
    if rest.len() == 0 {
        SearchStepView::Reply(groups_list_answer(h, lsr, Ok(groups)))
    } else {
        SearchStepView::ListMembers(
            Some(RequestFilterView::MemberOfId(rest[0].id)),
            ListingView { current: rest[0], rest: rest.skip(1), groups },
        )
    }
}

/// How a search for the groups of a user goes on, once the directory has listed them.
pub open spec fn user_groups_step(
    h: HandlerView,
    lsr: SearchView,
    groups: Result<Seq<GroupIdAndNameView>, Seq<char>>,
) -> SearchStepView {
    match groups {
        Ok(groups) => next_members_step(h, lsr, groups, Seq::empty()),
        Err(text) => user_groups_failure(lsr, text),
    }
}

/// How a search for the groups of a user goes on, once the directory has listed the members of
/// the current group.
pub open spec fn members_step(
    h: HandlerView,
    lsr: SearchView,
    listing: ListingView,
    users: Result<Seq<UserView>, Seq<char>>,
) -> SearchStepView {
    match users {
        Ok(users) => next_members_step(
            h,
            lsr,
            listing.rest,
            listing.groups.push(group_with_members(listing.current, users)),
        ),
        Err(text) => user_groups_failure(lsr, text),
    }
}

/// How a message is served.
pub open spec fn message_step(h: HandlerView, op: ServerOpsView) -> MessageStepView {
    match op {
        ServerOpsView::SimpleBind(sbr) => match bind_step(h, sbr) {
            BindStepView::Reply(msg) => MessageStepView::Reply(Some(seq![msg])),
            BindStepView::Authenticate(request) => MessageStepView::Bind(sbr, request),
        },
        ServerOpsView::Search(lsr) => match search_step(h, lsr) {
            SearchStepView::Reply(msgs) => MessageStepView::Reply(Some(msgs)),
            step => MessageStepView::Search(lsr, step),
        },
        ServerOpsView::Unbind => MessageStepView::Reply(None),
        ServerOpsView::Whoami(msgid) => MessageStepView::Reply(
            Some(seq![whoami_answer(h, msgid)]),
        ),
    }
}

} // verus!

//! What the views of the types tell: each field and each variant as it is, and nothing less.
use crate::domain::{
    BindRequest, Group, GroupIdAndName, RequestFilter, RequestFilterView, User,
};
use crate::error::{outcome_view, Error, ErrorView};
use crate::message::{
    FilterView, LdapFilter, LdapMsg, LdapOp,
    LdapPartialAttribute, LdapResult, LdapSearchResultEntry, LdapSubstringFilter, OpView,
    SearchRequest, ServerOps, ServerOpsView, SimpleBindRequest,
};
use crate::step::{
    answer_view, BindStep, BindStepView, MemberListing, MessageStep, MessageStepView, SearchStep,
    SearchStepView,
};
use vstd::prelude::*;

verus! {

/// The view of a list holds the view of each item in its place.
pub open spec fn views_in_place<T: DeepView>(items: Seq<T>, views: Seq<T::V>) -> bool {
    &&& views.len() == items.len()
    &&& forall|i: int| 0 <= i < items.len() ==> #[trigger] views[i] == items[i].deep_view()
}

/// The text that may be there, and the text that the view tells.
pub open spec fn same_option(text: Option<String>, view: Option<Seq<char>>) -> bool {
    match text {
        Some(text) => view == Some(text@),
        None => view is None,
    }
}

/// The view of a user tells every field.
pub proof fn law_user_view(user: User)
    ensures
        user.deep_view().user_id == user.user_id@,
        user.deep_view().email == user.email@,
        user.deep_view().display_name == user.display_name@,
        user.deep_view().first_name == user.first_name@,
        user.deep_view().last_name == user.last_name@,
{
}

/// The view of a group tells its id, its name and every member in place.
pub proof fn law_group_view(group: Group, named: GroupIdAndName)
    ensures
        group.deep_view().id == group.id,
        group.deep_view().display_name == group.display_name@,
        views_in_place(group.users@, group.deep_view().users),
        named.deep_view().id == named.0,
        named.deep_view().display_name == named.1@,
{
}

/// The view of a filter for the directory is of the same variant; it tells every part in place.
pub proof fn law_request_filter_view(filter: RequestFilter)
    ensures
        match filter {
            RequestFilter::And(parts) => filter.deep_view() matches RequestFilterView::And(views)
                && views_in_place(parts@, views),
            RequestFilter::Or(parts) => filter.deep_view() matches RequestFilterView::Or(views)
                && views_in_place(parts@, views),
            RequestFilter::Not(part) => filter.deep_view() == RequestFilterView::Not(
                Box::new(part.deep_view()),
            ),
            RequestFilter::Equality(name, value) => filter.deep_view()
                == RequestFilterView::Equality(name@, value@),
            RequestFilter::MemberOf(group) => filter.deep_view() == RequestFilterView::MemberOf(
                group@,
            ),
            RequestFilter::MemberOfId(id) => filter.deep_view() == RequestFilterView::MemberOfId(
                id,
            ),
        },
{
}

/// The view of a client's filter is of the same variant; it tells every part in place.
pub proof fn law_filter_view(filter: LdapFilter)
    ensures
        match filter {
            LdapFilter::And(parts) => filter.deep_view() matches FilterView::And(views)
                && views_in_place(parts@, views),
            LdapFilter::Or(parts) => filter.deep_view() matches FilterView::Or(views)
                && views_in_place(parts@, views),
            LdapFilter::Not(part) => filter.deep_view() == FilterView::Not(
                Box::new(part.deep_view()),
            ),
            LdapFilter::Equality(field, value) => filter.deep_view() == FilterView::Equality(
                field@,
                value@,
            ),
            LdapFilter::Substring(field, sub) => filter.deep_view() == FilterView::Substring(
                field@,
                sub.deep_view(),
            ),
            LdapFilter::Present(field) => filter.deep_view() == FilterView::Present(field@),
        },
{
}

/// The view of a substring comparison tells what the text starts with, holds and ends with.
pub proof fn law_substring_view(sub: LdapSubstringFilter)
    ensures
        same_option(sub.initial, sub.deep_view().initial),
        views_in_place(sub.any@, sub.deep_view().any),
        same_option(sub.final_, sub.deep_view().final_),
{
}

/// The views of requests tell every field.
pub proof fn law_request_views(
    lsr: SearchRequest,
    sbr: SimpleBindRequest,
    request: BindRequest,
    op: ServerOps,
)
    ensures
        lsr.deep_view().msgid == lsr.msgid,
        lsr.deep_view().base == lsr.base@,
        lsr.deep_view().scope == lsr.scope,
        lsr.deep_view().filter == lsr.filter.deep_view(),
        views_in_place(lsr.attrs@, lsr.deep_view().attrs),
        sbr.deep_view().msgid == sbr.msgid,
        sbr.deep_view().dn == sbr.dn@,
        sbr.deep_view().pw == sbr.pw@,
        request.deep_view().name == request.name@,
        request.deep_view().password == request.password@,
        match op {
            ServerOps::Search(lsr) => op.deep_view() == ServerOpsView::Search(lsr.deep_view()),
            ServerOps::SimpleBind(sbr) => op.deep_view() == ServerOpsView::SimpleBind(
                sbr.deep_view(),
            ),
            ServerOps::Unbind(_) => op.deep_view() == ServerOpsView::Unbind,
            ServerOps::Whoami(wr) => op.deep_view() == ServerOpsView::Whoami(wr.msgid),
        },
{
}

/// The views of an entry and of a result tell every field.
pub proof fn law_entry_views(
    attribute: LdapPartialAttribute,
    entry: LdapSearchResultEntry,
    res: LdapResult,
)
    ensures
        attribute.deep_view().atype == attribute.atype@,
        views_in_place(attribute.vals@, attribute.deep_view().vals),
        entry.deep_view().dn == entry.dn@,
        views_in_place(entry.attributes@, entry.deep_view().attributes),
        res.deep_view().code == res.code,
        res.deep_view().matcheddn == res.matcheddn@,
        res.deep_view().message == res.message@,
        views_in_place(res.referral@, res.deep_view().referral),
{
}

/// The view of a message tells its number and every field of what it says.
pub proof fn law_message_view(msg: LdapMsg)
    ensures
        msg.deep_view().msgid == msg.msgid,
        match msg.op {
            LdapOp::BindResponse(response) => msg.deep_view().op matches OpView::BindResponse {
                res,
                saslcreds,
            } && res == response.res.deep_view() && same_option(response.saslcreds, saslcreds),
            LdapOp::SearchResultEntry(entry) => msg.deep_view().op == OpView::SearchResultEntry(
                entry.deep_view(),
            ),
            LdapOp::SearchResultDone(res) => msg.deep_view().op == OpView::SearchResultDone(
                res.deep_view(),
            ),
            LdapOp::ExtendedResponse(response) => msg.deep_view().op
                matches OpView::ExtendedResponse { res, name, value } && {
                &&& res == response.res.deep_view()
                &&& same_option(response.name, name)
                &&& match response.value {
                    Some(bytes) => value == Some(bytes@),
                    None => value is None,
                }
            },
        },
{
    if let LdapOp::ExtendedResponse(response) = msg.op {
        if let Some(bytes) = response.value {
            assert(bytes.deep_view() =~= bytes@);
        }
    }
}

/// The views of the steps are of the same variant; they tell every part.
pub proof fn law_step_views(
    bind: BindStep,
    listing: MemberListing,
    search: SearchStep,
    message: MessageStep,
)
    ensures
        match bind {
            BindStep::Reply(msg) => bind.deep_view() == BindStepView::Reply(msg.deep_view()),
            BindStep::Authenticate(request) => bind.deep_view() == BindStepView::Authenticate(
                request.deep_view(),
            ),
        },
        listing.deep_view().current == listing.current.deep_view(),
        views_in_place(listing.rest@, listing.deep_view().rest),
        views_in_place(listing.groups@, listing.deep_view().groups),
        match search {
            SearchStep::Reply(msgs) => search.deep_view() matches SearchStepView::Reply(views)
                && views_in_place(msgs@, views),
            SearchStep::ListUsers(Some(filter)) => search.deep_view() == SearchStepView::ListUsers(
                Some(filter.deep_view()),
            ),
            SearchStep::ListUsers(None) => search.deep_view() == SearchStepView::ListUsers(None),
            SearchStep::GetUserGroups(user_id) => search.deep_view()
                == SearchStepView::GetUserGroups(user_id@),
            SearchStep::ListMembers(Some(filter), listing) => search.deep_view()
                == SearchStepView::ListMembers(Some(filter.deep_view()), listing.deep_view()),
            SearchStep::ListMembers(None, listing) => search.deep_view()
                == SearchStepView::ListMembers(None, listing.deep_view()),
            SearchStep::ListGroups => search.deep_view() == SearchStepView::ListGroups,
        },
        match message {
            MessageStep::Reply(Some(msgs)) => message.deep_view() matches MessageStepView::Reply(
                Some(views),
            ) && views_in_place(msgs@, views),
            MessageStep::Reply(None) => message.deep_view() == MessageStepView::Reply(None),
            MessageStep::Bind(sbr, request) => message.deep_view() == MessageStepView::Bind(
                sbr.deep_view(),
                request.deep_view(),
            ),
            MessageStep::Search(lsr, step) => message.deep_view() == MessageStepView::Search(
                lsr.deep_view(),
                step.deep_view(),
            ),
        },
{
}

/// The view of an error is of the same variant; it tells every text and filter.
pub proof fn law_error_view(error: Error)
    ensures
        match error {
            Error::EmptyDnElement => error.deep_view() == ErrorView::EmptyDnElement,
            Error::MissingDnValue => error.deep_view() == ErrorView::MissingDnValue,
            Error::TooManyDnElements(first, second, third) => error.deep_view()
                == ErrorView::TooManyDnElements(first@, second@, third@),
            Error::NotASubtree => error.deep_view() == ErrorView::NotASubtree,
            Error::UnexpectedGroupDn { dn, base_dn } => error.deep_view()
                == (ErrorView::UnexpectedGroupDn { dn: dn@, base_dn: base_dn@ }),
            Error::UnexpectedUserDn { dn, base_dn } => error.deep_view()
                == (ErrorView::UnexpectedUserDn { dn: dn@, base_dn: base_dn@ }),
            Error::UnsupportedUserAttribute(attribute) => error.deep_view()
                == ErrorView::UnsupportedUserAttribute(attribute@),
            Error::UnsupportedGroupAttribute(attribute) => error.deep_view()
                == ErrorView::UnsupportedGroupAttribute(attribute@),
            Error::UnknownField(field) => error.deep_view() == ErrorView::UnknownField(field@),
            Error::UnsupportedUserFilter(filter) => error.deep_view()
                == ErrorView::UnsupportedUserFilter(filter.deep_view()),
            Error::UnsupportedGroupFilter(filter) => error.deep_view()
                == ErrorView::UnsupportedGroupFilter(filter.deep_view()),
        },
{
}

/// The views of an outcome and of the directory's answer tell what was found, or what went wrong.
pub proof fn law_outcome_views<T: DeepView>(outcome: Result<T, Error>, answer: Result<T, String>)
    ensures
        match outcome {
            Ok(value) => outcome_view(outcome) == Ok::<_, ErrorView>(value.deep_view()),
            Err(error) => outcome_view(outcome) == Err::<T::V, _>(error.deep_view()),
        },
        match answer {
            Ok(value) => answer_view(answer) == Ok::<_, Seq<char>>(value.deep_view()),
            Err(text) => answer_view(answer) == Err::<T::V, _>(text@),
        },
{
}

} // verus!

use vstd::prelude::*;

verus! {

/// A user of the directory.
#[derive(Debug, PartialEq, Eq, Default)]
pub struct User {
    pub user_id: String,
    pub email: String,
    pub display_name: String,
    pub first_name: String,
    pub last_name: String,
}

#[derive(Clone, Copy, Debug, PartialEq, Eq, Structural)]
pub struct GroupId(pub i32);

/// A group with the ids of its members.
#[derive(Debug, PartialEq, Eq)]
pub struct Group {
    pub id: GroupId,
    pub display_name: String,
    pub users: Vec<String>,
}

#[derive(Debug, PartialEq, Eq)]
pub struct GroupIdAndName(pub GroupId, pub String);

/// A name and a password to be checked by the directory.
#[derive(Debug, PartialEq, Eq)]
pub struct BindRequest {
    pub name: String,
    pub password: String,
}

/// A condition on users, in the terms of the directory. An empty `And` holds of every user.
#[derive(Debug, PartialEq, Eq)]
pub enum RequestFilter {
    And(Vec<RequestFilter>),
    Or(Vec<RequestFilter>),
    Not(Box<RequestFilter>),
    Equality(String, String),
    MemberOf(String),
    MemberOfId(GroupId),
}

pub struct UserView {
    pub user_id: Seq<char>,
    pub email: Seq<char>,
    pub display_name: Seq<char>,
    pub first_name: Seq<char>,
    pub last_name: Seq<char>,
}

pub struct GroupView {
    pub id: GroupId,
    pub display_name: Seq<char>,
    pub users: Seq<Seq<char>>,
}

pub struct GroupIdAndNameView {
    pub id: GroupId,
    pub display_name: Seq<char>,
}

pub struct BindRequestView {
    pub name: Seq<char>,
    pub password: Seq<char>,
}

pub enum RequestFilterView {
    And(Seq<RequestFilterView>),
    Or(Seq<RequestFilterView>),
    Not(Box<RequestFilterView>),
    Equality(Seq<char>, Seq<char>),
    MemberOf(Seq<char>),
    MemberOfId(GroupId),
}

impl DeepView for User {
    type V = UserView;

    open spec fn deep_view(&self) -> UserView {
        UserView {
            user_id: self.user_id@,
            email: self.email@,
            display_name: self.display_name@,
            first_name: self.first_name@,
            last_name: self.last_name@,
        }
    }
}

impl DeepView for Group {
    type V = GroupView;

    open spec fn deep_view(&self) -> GroupView {
        GroupView {
            id: self.id,
            display_name: self.display_name@,
            users: self.users.deep_view(),
        }
    }
}

impl DeepView for GroupIdAndName {
    type V = GroupIdAndNameView;

    open spec fn deep_view(&self) -> GroupIdAndNameView {
        GroupIdAndNameView { id: self.0, display_name: self.1@ }
    }
}

impl DeepView for BindRequest {
    type V = BindRequestView;

    open spec fn deep_view(&self) -> BindRequestView {
        BindRequestView { name: self.name@, password: self.password@ }
    }
}

pub open spec fn request_filter_view(filter: RequestFilter) -> RequestFilterView
    decreases filter,
{
    match filter {
        RequestFilter::And(filters) => RequestFilterView::And(
            Seq::new(
                filters@.len(),
                |i: int|
                    if 0 <= i < filters@.len() {
                        request_filter_view(filters@[i])
                    } else {
                        arbitrary()
                    },
            ),
        ),
        RequestFilter::Or(filters) => RequestFilterView::Or(
            Seq::new(
                filters@.len(),
                |i: int|
                    if 0 <= i < filters@.len() {
                        request_filter_view(filters@[i])
                    } else {
                        arbitrary()
                    },
            ),
        ),
        RequestFilter::Not(inner) => RequestFilterView::Not(Box::new(request_filter_view(*inner))),
        RequestFilter::Equality(field, value) => RequestFilterView::Equality(field@, value@),
        RequestFilter::MemberOf(group) => RequestFilterView::MemberOf(group@),
        RequestFilter::MemberOfId(id) => RequestFilterView::MemberOfId(id),
    }
}

impl DeepView for RequestFilter {
    type V = RequestFilterView;

    open spec fn deep_view(&self) -> RequestFilterView {
        request_filter_view(*self)
    }
}

/// What a conjunction or a disjunction holds, as a sequence.
pub proof fn lemma_request_filter_list_view(filters: Vec<RequestFilter>)
    ensures
        RequestFilter::And(filters).deep_view() == RequestFilterView::And(filters.deep_view()),
        RequestFilter::Or(filters).deep_view() == RequestFilterView::Or(filters.deep_view()),
{
    assert(RequestFilter::And(filters).deep_view()->And_0 =~= filters.deep_view());
    assert(RequestFilter::Or(filters).deep_view()->Or_0 =~= filters.deep_view());
}

/// The condition that every user meets.
pub open spec fn everyone() -> RequestFilterView {
    RequestFilterView::And(Seq::empty())
}

/// The condition that no user meets.
pub open spec fn nobody() -> RequestFilterView {
    RequestFilterView::Not(Box::new(everyone()))
}

} // verus!

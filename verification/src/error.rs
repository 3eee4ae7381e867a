use crate::message::{FilterView, LdapFilter};
use crate::render::{debug_filter, debug_str};
use vstd::prelude::*;

verus! {

/// Why a request cannot be served.
#[derive(Debug, PartialEq, Eq)]
pub enum Error {
    /// An element of a distinguished name has neither a name nor a value.
    EmptyDnElement,
    /// An element of a distinguished name has no value.
    MissingDnValue,
    /// An element of a distinguished name has more than a name and a value; its first three
    /// parts.
    TooManyDnElements(String, String, String),
    /// A distinguished name is not below the base.
    NotASubtree,
    /// The distinguished name is not one of a group below the base.
    UnexpectedGroupDn { dn: String, base_dn: String },
    /// The distinguished name is not one of a user below the base.
    UnexpectedUserDn { dn: String, base_dn: String },
    UnsupportedUserAttribute(String),
    UnsupportedGroupAttribute(String),
    UnknownField(String),
    UnsupportedUserFilter(LdapFilter),
    UnsupportedGroupFilter(LdapFilter),
}

pub enum ErrorView {
    EmptyDnElement,
    MissingDnValue,
    TooManyDnElements(Seq<char>, Seq<char>, Seq<char>),
    NotASubtree,
    UnexpectedGroupDn { dn: Seq<char>, base_dn: Seq<char> },
    UnexpectedUserDn { dn: Seq<char>, base_dn: Seq<char> },
    UnsupportedUserAttribute(Seq<char>),
    UnsupportedGroupAttribute(Seq<char>),
    UnknownField(Seq<char>),
    UnsupportedUserFilter(FilterView),
    UnsupportedGroupFilter(FilterView),
}

impl DeepView for Error {
    type V = ErrorView;

    open spec fn deep_view(&self) -> ErrorView {
        match *self {
            Error::EmptyDnElement => ErrorView::EmptyDnElement,
            Error::MissingDnValue => ErrorView::MissingDnValue,
            Error::TooManyDnElements(first, second, third) => ErrorView::TooManyDnElements(
                first@,
                second@,
                third@,
            ),
            Error::NotASubtree => ErrorView::NotASubtree,
            Error::UnexpectedGroupDn { dn, base_dn } => ErrorView::UnexpectedGroupDn {
                dn: dn@,
                base_dn: base_dn@,
            },
            Error::UnexpectedUserDn { dn, base_dn } => ErrorView::UnexpectedUserDn {
                dn: dn@,
                base_dn: base_dn@,
            },
            Error::UnsupportedUserAttribute(attribute) => ErrorView::UnsupportedUserAttribute(
                attribute@,
            ),
            Error::UnsupportedGroupAttribute(attribute) => ErrorView::UnsupportedGroupAttribute(
                attribute@,
            ),
            Error::UnknownField(field) => ErrorView::UnknownField(field@),
            Error::UnsupportedUserFilter(filter) => ErrorView::UnsupportedUserFilter(
                filter.deep_view(),
            ),
            Error::UnsupportedGroupFilter(filter) => ErrorView::UnsupportedGroupFilter(
                filter.deep_view(),
            ),
        }
    }
}

/// The outcome of an operation over views.
pub open spec fn outcome_view<T: DeepView>(outcome: Result<T, Error>) -> Result<T::V, ErrorView> {
    match outcome {
        Ok(value) => Ok(value.deep_view()),
        Err(error) => Err(error.deep_view()),
    }
}

/// The message about an element with too many parts, of which the first three are shown as
/// `first`, `second` and `third`.
pub open spec fn too_many_elements_text(
    first: Seq<char>,
    second: Seq<char>,
    third: Seq<char>,
) -> Seq<char> {
    "Too many elements in distinguished name: \""@ + first + "\", \""@ + second + "\", \""@ + third
        + "\""@
}

pub open spec fn unexpected_group_dn_text(dn: Seq<char>, base_dn: Seq<char>) -> Seq<char> {
    "Unexpected group DN format. Got \""@ + dn + "\", expected: \"cn=groupname,ou=groups,"@
        + base_dn + "\""@
}

pub open spec fn unexpected_user_dn_text(dn: Seq<char>, base_dn: Seq<char>) -> Seq<char> {
    "Unexpected user DN format. Got \""@ + dn + "\", expected: \"cn=username,ou=people,"@ + base_dn
        + "\""@
}

pub open spec fn unsupported_user_filter_text(shown: Seq<char>) -> Seq<char> {
    "Unsupported user filter: "@ + shown
}

pub open spec fn unsupported_group_filter_text(shown: Seq<char>) -> Seq<char> {
    "Unsupported group filter: "@ + shown
}

/// The message that goes to the client for an error.
pub open spec fn error_text(error: ErrorView) -> Seq<char> {
    match error {
        ErrorView::EmptyDnElement => "Empty DN element"@,
        ErrorView::MissingDnValue => "Missing DN value"@,
        ErrorView::TooManyDnElements(first, second, third) => too_many_elements_text(
            crate::render::text_debug(first),
            crate::render::text_debug(second),
            crate::render::text_debug(third),
        ),
        ErrorView::NotASubtree => "Not a subtree of the base tree"@,
        ErrorView::UnexpectedGroupDn { dn, base_dn } => unexpected_group_dn_text(dn, base_dn),
        ErrorView::UnexpectedUserDn { dn, base_dn } => unexpected_user_dn_text(dn, base_dn),
        ErrorView::UnsupportedUserAttribute(attribute) => "Unsupported user attribute: "@
            + attribute,
        ErrorView::UnsupportedGroupAttribute(attribute) => "Unsupported group attribute: "@
            + attribute,
        ErrorView::UnknownField(field) => "Unknown field: "@ + field,
        ErrorView::UnsupportedUserFilter(filter) => unsupported_user_filter_text(
            crate::render::filter_debug(filter),
        ),
        ErrorView::UnsupportedGroupFilter(filter) => unsupported_group_filter_text(
            crate::render::filter_debug(filter),
        ),
    }
}

/// The message about an element with too many parts, given how the first three are shown.
pub fn too_many_elements_message(first: &str, second: &str, third: &str) -> (text: String)
    ensures
        text@ == too_many_elements_text(first@, second@, third@),
{
    "Too many elements in distinguished name: \"".to_owned().concat(first).concat(
        "\", \"",
    ).concat(second).concat("\", \"").concat(third).concat("\"")
}

/// The message about a user filter that cannot be served, given how it is shown.
pub fn unsupported_user_filter_message(shown: &str) -> (text: String)
    ensures
        text@ == unsupported_user_filter_text(shown@),
{
    "Unsupported user filter: ".to_owned().concat(shown)
}

/// The message about a group filter that cannot be served, given how it is shown.
pub fn unsupported_group_filter_message(shown: &str) -> (text: String)
    ensures
        text@ == unsupported_group_filter_text(shown@),
{
    "Unsupported group filter: ".to_owned().concat(shown)
}

impl Error {
    /// The message that goes to the client.
    pub fn to_string(&self) -> (text: String)
        ensures
            text@ == error_text(self.deep_view()),
    {
        match self {
            Error::EmptyDnElement => "Empty DN element".to_owned(),
            Error::MissingDnValue => "Missing DN value".to_owned(),
            Error::TooManyDnElements(first, second, third) => {
                let first = debug_str(first);
                let second = debug_str(second);
                let third = debug_str(third);
                too_many_elements_message(&first, &second, &third)
            },
            Error::NotASubtree => "Not a subtree of the base tree".to_owned(),
            Error::UnexpectedGroupDn { dn, base_dn } => {
                "Unexpected group DN format. Got \"".to_owned().concat(dn).concat(
                    "\", expected: \"cn=groupname,ou=groups,",
                ).concat(base_dn).concat("\"")
            },
            Error::UnexpectedUserDn { dn, base_dn } => {
                "Unexpected user DN format. Got \"".to_owned().concat(dn).concat(
                    "\", expected: \"cn=username,ou=people,",
                ).concat(base_dn).concat("\"")
            },
            Error::UnsupportedUserAttribute(attribute) => {
                "Unsupported user attribute: ".to_owned().concat(attribute)
            },
            Error::UnsupportedGroupAttribute(attribute) => {
                "Unsupported group attribute: ".to_owned().concat(attribute)
            },
            Error::UnknownField(field) => "Unknown field: ".to_owned().concat(field),
            Error::UnsupportedUserFilter(filter) => {
                unsupported_user_filter_message(&debug_filter(filter))
            },
            Error::UnsupportedGroupFilter(filter) => {
                unsupported_group_filter_message(&debug_filter(filter))
            },
        }
    }
}

} // verus!

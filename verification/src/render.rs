use crate::message::{FilterView, LdapFilter};
use ldap3_proto::proto::LdapFilter as ProtoFilter;
use ldap3_proto::proto::LdapSubstringFilter as ProtoSubstring;
use vstd::prelude::*;

verus! {

/// `ldap3_proto::proto::LdapFilter`, carried through without being looked into.
#[verifier::external_type_specification]
#[verifier::external_body]
pub struct ExProtoFilter(ProtoFilter);

/// The filter of the protocol crate that says what `filter` says.
pub uninterp spec fn proto_filter(filter: FilterView) -> ProtoFilter;

/// What `{:?}` prints for a filter of the protocol crate.
pub uninterp spec fn proto_filter_debug(filter: ProtoFilter) -> Seq<char>;

/// What `{:?}` prints for a string: its characters in double quotes, the special ones escaped.
pub uninterp spec fn text_debug(text: Seq<char>) -> Seq<char>;

/// Builds a `ldap3_proto::proto::LdapFilter` out of the variants of that enum, one for one.
/// Claimed of it: filters that say the same give the same value of the protocol crate.
#[verifier::external_body]
fn to_proto_filter(filter: LdapFilter) -> (res: ProtoFilter)
    ensures
        res == proto_filter(filter.deep_view()),
{
    match filter {
        LdapFilter::And(f) => ProtoFilter::And(f.into_iter().map(to_proto_filter).collect()),
        LdapFilter::Or(f) => ProtoFilter::Or(f.into_iter().map(to_proto_filter).collect()),
        LdapFilter::Not(f) => ProtoFilter::Not(Box::new(to_proto_filter(*f))),
        LdapFilter::Equality(a, v) => ProtoFilter::Equality(a, v),
        LdapFilter::Substring(a, s) => ProtoFilter::Substring(
            a,
            ProtoSubstring { initial: s.initial, any: s.any, final_: s.final_ },
        ),
        LdapFilter::Present(a) => ProtoFilter::Present(a),
    }
}

/// The `Debug` text of a `ldap3_proto::proto::LdapFilter`. Claimed of it: the text depends on
/// the filter alone.
#[verifier::external_body]
fn debug_proto_filter(filter: &ProtoFilter) -> (text: String)
    ensures
        text@ == proto_filter_debug(*filter),
{
    format!("{:?}", filter)
}

/// The `Debug` text of a `str`. Claimed of it: the text depends on the characters alone.
#[verifier::external_body]
pub(crate) fn debug_str(text: &str) -> (res: String)
    ensures
        res@ == text_debug(text@),
{
    format!("{:?}", text)
}

/// What a message shows for `filter`.
pub open spec fn filter_debug(filter: FilterView) -> Seq<char> {
    proto_filter_debug(proto_filter(filter))
}

/// `filter` as messages show it.
pub fn debug_filter(filter: &LdapFilter) -> (text: String)
    ensures
        text@ == filter_debug(filter.deep_view()),
{
    debug_proto_filter(&to_proto_filter(filter.clone()))
}

} // verus!

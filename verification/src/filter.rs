use crate::collect::{all_or_first_error, lemma_all_ok};
use crate::dn::{group_id_in_dn, user_id_in_dn};
use crate::domain::{everyone, nobody, RequestFilterView};
use crate::error::{outcome_view, Error, ErrorView};
use crate::message::FilterView;
use crate::text::same_text;
use vstd::prelude::*;

verus! {

/// The name that the directory has for a field of a user.
pub open spec fn directory_field(field: Seq<char>) -> Result<Seq<char>, ErrorView> {
    if field == "uid"@ {
        Ok("user_id"@)
    } else if field == "mail"@ {
        Ok("email"@)
    } else if field == "cn"@ || field == "displayName"@ {
        Ok("display_name"@)
    } else if field == "givenName"@ {
        Ok("first_name"@)
    } else if field == "sn"@ {
        Ok("last_name"@)
    } else if field == "avatar"@ {
        Ok("avatar"@)
    } else if field == "creationDate"@ {
        Ok("creation_date"@)
    } else {
        Err(ErrorView::UnknownField(field))
    }
}

/// Whether users are of the object class `class`.
pub open spec fn is_user_class(class: Seq<char>) -> bool {
    class == "person"@ || class == "inetOrgPerson"@ || class == "posixAccount"@ || class
        == "mailAccount"@
}

/// What the directory is asked for a filter that compares `field` with `value`.
pub open spec fn user_equality(
    field: Seq<char>,
    value: Seq<char>,
    base_tree: Seq<(Seq<char>, Seq<char>)>,
    base_dn: Seq<char>,
) -> Result<RequestFilterView, ErrorView> {
    if field == "memberOf"@ {
        match group_id_in_dn(value, base_tree, base_dn) {
            Ok(group) => Ok(RequestFilterView::MemberOf(group)),
            Err(error) => Err(error),
        }
    } else if field == "objectClass"@ {
        Ok(
            if is_user_class(value) {
                everyone()
            } else {
                nobody()
            },
        )
    } else {
        match directory_field(field) {
            Ok(name) => Ok(RequestFilterView::Equality(name, value)),
            Err(error) => Err(error),
        }
    }
}

/// What the directory is asked for a filter that wants `field` to be there.
pub open spec fn user_presence(field: Seq<char>) -> RequestFilterView {
    if field == "objectClass"@ || directory_field(field) is Ok {
        everyone()
    } else {
        nobody()
    }
}

/// The condition of the directory that a client's filter on users stands for, or the error of
/// the first part of it that cannot be served.
pub open spec fn user_filter(
    filter: FilterView,
    base_tree: Seq<(Seq<char>, Seq<char>)>,
    base_dn: Seq<char>,
) -> Result<RequestFilterView, ErrorView>
    decreases filter,
{
    match filter {
        FilterView::And(filters) => match all_or_first_error(
            user_filters(filters, base_tree, base_dn),
        ) {
            Ok(parts) => Ok(RequestFilterView::And(parts)),
            Err(error) => Err(error),
        },
        FilterView::Or(filters) => match all_or_first_error(
            user_filters(filters, base_tree, base_dn),
        ) {
            Ok(parts) => Ok(RequestFilterView::Or(parts)),
            Err(error) => Err(error),
        },
        FilterView::Not(inner) => match user_filter(*inner, base_tree, base_dn) {
            Ok(part) => Ok(RequestFilterView::Not(Box::new(part))),
            Err(error) => Err(error),
        },
        FilterView::Equality(field, value) => user_equality(field, value, base_tree, base_dn),
        FilterView::Present(field) => Ok(user_presence(field)),
        FilterView::Substring(..) => Err(ErrorView::UnsupportedUserFilter(filter)),
    }
}

/// The conditions that the filters in a list stand for.
pub open spec fn user_filters(
    filters: Seq<FilterView>,
    base_tree: Seq<(Seq<char>, Seq<char>)>,
    base_dn: Seq<char>,
) -> Seq<Result<RequestFilterView, ErrorView>>
    decreases filters,
{
    Seq::new(
        filters.len(),
        |i: int|
            if 0 <= i < filters.len() {
                user_filter(filters[i], base_tree, base_dn)
            } else {
                arbitrary()
            },
    )
}

/// The user whose groups a client's filter on groups wants, `None` for all groups.
pub open spec fn group_filter(
    filter: FilterView,
    base_tree: Seq<(Seq<char>, Seq<char>)>,
    base_dn: Seq<char>,
) -> Result<Option<Seq<char>>, ErrorView> {
    match filter {
        FilterView::Equality(field, value) => if field == "member"@ || field == "uniqueMember"@ {
            match user_id_in_dn(value, base_tree, base_dn) {
                Ok(user_id) => Ok(Some(user_id)),
                Err(error) => Err(error),
            }
        } else if field == "objectClass"@ && value == "groupOfUniqueNames"@ {
            Ok(None)
        } else {
            Err(ErrorView::UnsupportedGroupFilter(filter))
        },
        _ => Err(ErrorView::UnsupportedGroupFilter(filter)),
    }
}

/// The name that the directory has for a field of a user.
pub fn map_field(field: &str) -> (res: Result<String, Error>)
    ensures
        outcome_view(res) == directory_field(field@),
{
    if same_text(field, "uid") {
        Ok("user_id".to_owned())
    } else if same_text(field, "mail") {
        Ok("email".to_owned())
    } else if same_text(field, "cn") || same_text(field, "displayName") {
        Ok("display_name".to_owned())
    } else if same_text(field, "givenName") {
        Ok("first_name".to_owned())
    } else if same_text(field, "sn") {
        Ok("last_name".to_owned())
    } else if same_text(field, "avatar") {
        Ok("avatar".to_owned())
    } else if same_text(field, "creationDate") {
        Ok("creation_date".to_owned())
    } else {
        Err(Error::UnknownField(field.to_owned()))
    }
}

/// Whether every comparison in a filter is one that the directory can make.
pub open spec fn is_supported(
    filter: FilterView,
    base_tree: Seq<(Seq<char>, Seq<char>)>,
    base_dn: Seq<char>,
) -> bool
    decreases filter,
{
    match filter {
        FilterView::And(filters) => forall|i: int|
            0 <= i < filters.len() ==> is_supported(#[trigger] filters[i], base_tree, base_dn),
        FilterView::Or(filters) => forall|i: int|
            0 <= i < filters.len() ==> is_supported(#[trigger] filters[i], base_tree, base_dn),
        FilterView::Not(inner) => is_supported(*inner, base_tree, base_dn),
        FilterView::Equality(field, value) => if field == "memberOf"@ {
            group_id_in_dn(value, base_tree, base_dn) is Ok
        } else {
            field == "objectClass"@ || directory_field(field) is Ok
        },
        FilterView::Present(_) => true,
        FilterView::Substring(..) => false,
    }
}

/// A filter on users can be served exactly when every comparison in it, however deep, can be.
pub proof fn law_supported_user_filters(
    filter: FilterView,
    base_tree: Seq<(Seq<char>, Seq<char>)>,
    base_dn: Seq<char>,
)
    ensures
        user_filter(filter, base_tree, base_dn) is Ok <==> is_supported(
            filter,
            base_tree,
            base_dn,
        ),
    decreases filter,
{
    match filter {
        FilterView::And(filters) => {
            lemma_supported_list(filters, base_tree, base_dn);
        },
        FilterView::Or(filters) => {
            lemma_supported_list(filters, base_tree, base_dn);
        },
        FilterView::Not(inner) => {
            law_supported_user_filters(*inner, base_tree, base_dn);
        },
        _ => {},
    }
}

proof fn lemma_supported_list(
    filters: Seq<FilterView>,
    base_tree: Seq<(Seq<char>, Seq<char>)>,
    base_dn: Seq<char>,
)
    ensures
        all_or_first_error(user_filters(filters, base_tree, base_dn)) is Ok <==> forall|i: int|
            0 <= i < filters.len() ==> is_supported(#[trigger] filters[i], base_tree, base_dn),
    decreases filters,
{
    let results = user_filters(filters, base_tree, base_dn);
    assert forall|i: int| 0 <= i < filters.len() implies (#[trigger] results[i] is Ok
        <==> is_supported(filters[i], base_tree, base_dn)) by {
        law_supported_user_filters(filters[i], base_tree, base_dn);
    }
    lemma_all_ok(results);
    if forall|i: int| 0 <= i < results.len() ==> (#[trigger] results[i]) is Ok {
        assert forall|i: int| 0 <= i < filters.len() implies is_supported(
            #[trigger] filters[i],
            base_tree,
            base_dn,
        ) by {
            assert(results[i] is Ok);
        }
    }
}

} // verus!

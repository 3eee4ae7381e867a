use crate::collect::{all_or_first_error, lemma_first_error, lemma_next_ok};
use crate::error::{outcome_view, Error, ErrorView};
use crate::text::{same_text, split, split_on};
use vstd::prelude::*;

verus! {

/// The name and value that the parts of one element of a distinguished name stand for.
pub open spec fn dn_pair(elements: Seq<Seq<char>>) -> Result<(Seq<char>, Seq<char>), ErrorView> {
    if elements.len() == 0 {
        Err(ErrorView::EmptyDnElement)
    } else if elements.len() == 1 {
        Err(ErrorView::MissingDnValue)
    } else if elements.len() == 2 {
        Ok((elements[0], elements[1]))
    } else {
        Err(ErrorView::TooManyDnElements(elements[0], elements[1], elements[2]))
    }
}

/// The name and value in one element `name=value` of a distinguished name.
pub open spec fn dn_element(element: Seq<char>) -> Result<(Seq<char>, Seq<char>), ErrorView> {
    dn_pair(split_on(element, '='))
}

/// The names and values in a distinguished name `name=value,name=value,...`, or the first thing
/// that is wrong with it.
pub open spec fn parse_dn(dn: Seq<char>) -> Result<Seq<(Seq<char>, Seq<char>)>, ErrorView> {
    all_or_first_error(split_on(dn, ',').map_values(|element: Seq<char>| dn_element(element)))
}

/// The value of the first element of `dn`, where `dn` is `cn=<value>,ou=<unit>` followed by the
/// elements of `base_tree`. Any other distinguished name below the base is answered with
/// `unexpected`.
pub open spec fn name_in_unit(
    dn: Seq<char>,
    base_tree: Seq<(Seq<char>, Seq<char>)>,
    unit: Seq<char>,
    unexpected: ErrorView,
) -> Result<Seq<char>, ErrorView> {
    match parse_dn(dn) {
        Err(error) => Err(error),
        Ok(parts) => if !base_tree.is_suffix_of(parts) {
            Err(ErrorView::NotASubtree)
        } else if parts.len() == base_tree.len() + 2 && parts[1] == ("ou"@, unit) && parts[0].0
            == "cn"@ {
            Ok(parts[0].1)
        } else {
            Err(unexpected)
        },
    }
}

/// The group that `dn` names, below a base whose elements are `base_tree` and whose text is
/// `base_dn`.
pub open spec fn group_id_in_dn(
    dn: Seq<char>,
    base_tree: Seq<(Seq<char>, Seq<char>)>,
    base_dn: Seq<char>,
) -> Result<Seq<char>, ErrorView> {
    name_in_unit(dn, base_tree, "groups"@, ErrorView::UnexpectedGroupDn { dn, base_dn })
}

/// The user that `dn` names, below a base whose elements are `base_tree` and whose text is
/// `base_dn`.
pub open spec fn user_id_in_dn(
    dn: Seq<char>,
    base_tree: Seq<(Seq<char>, Seq<char>)>,
    base_dn: Seq<char>,
) -> Result<Seq<char>, ErrorView> {
    name_in_unit(dn, base_tree, "people"@, ErrorView::UnexpectedUserDn { dn, base_dn })
}

/// The distinguished name of a user.
pub open spec fn user_dn(user_id: Seq<char>, base_dn: Seq<char>) -> Seq<char> {
    "cn="@ + user_id + ",ou=people,"@ + base_dn
}

/// The distinguished name of a group.
pub open spec fn group_dn(name: Seq<char>, base_dn: Seq<char>) -> Seq<char> {
    "cn="@ + name + ",ou=groups,"@ + base_dn
}

/// The name and value in the parts of one element of a distinguished name.
pub fn make_dn_pair(elements: &Vec<String>) -> (res: Result<(String, String), Error>)
    ensures
        outcome_view(res) == dn_pair(elements.deep_view()),
{
    if elements.len() == 0 {
        Err(Error::EmptyDnElement)
    } else if elements.len() == 1 {
        Err(Error::MissingDnValue)
    } else if elements.len() == 2 {
        Ok((elements[0].clone(), elements[1].clone()))
    } else {
        Err(
            Error::TooManyDnElements(
                elements[0].clone(),
                elements[1].clone(),
                elements[2].clone(),
            ),
        )
    }
}

/// The names and values in a distinguished name.
pub fn parse_distinguished_name(dn: &str) -> (res: Result<Vec<(String, String)>, Error>)
    ensures
        outcome_view(res) == parse_dn(dn@),
{
    let elements = split(dn, ',');
    let ghost results = split_on(dn@, ',').map_values(|element: Seq<char>| dn_element(element));
    let mut parts: Vec<(String, String)> = Vec::new();
    assert(parts.deep_view() =~= Seq::empty());
    assert(results.take(0) =~= Seq::empty());
    for i in 0..elements.len()
        invariant
            elements.deep_view() == split_on(dn@, ','),
            results == split_on(dn@, ',').map_values(|element: Seq<char>| dn_element(element)),
            all_or_first_error(results.take(i as int)) == Ok::<
                Seq<(Seq<char>, Seq<char>)>,
                ErrorView,
            >(parts.deep_view()),
    {
        assert(elements.deep_view()[i as int] == elements[i as int]@);
        match make_dn_pair(&split(&elements[i], '=')) {
            Ok(pair) => {
                let ghost before = parts.deep_view();
                proof {
                    lemma_next_ok(results, i as int, before, pair.deep_view());
                }
                parts.push(pair);
                assert(parts.deep_view() =~= before.push(pair.deep_view()));
            },
            Err(error) => {
                proof {
                    lemma_first_error(results, i as int, error.deep_view());
                }
                return Err(error);
            },
        }
    }
    assert(results.take(elements@.len() as int) =~= results);
    Ok(parts)
}

/// Whether `subtree` ends with the elements of `base_tree`.
pub fn is_subtree(subtree: &[(String, String)], base_tree: &[(String, String)]) -> (res: bool)
    ensures
        res == base_tree.deep_view().is_suffix_of(subtree.deep_view()),
{
    if subtree.len() < base_tree.len() {
        return false;
    }
    let size: usize = subtree.len();
    let size_diff: usize = size - base_tree.len();
    let ghost tail = subtree.deep_view().subrange(size_diff as int, subtree@.len() as int);
    for i in 0..base_tree.len()
        invariant
            size == subtree@.len(),
            size_diff + base_tree@.len() == size,
            tail == subtree.deep_view().subrange(size_diff as int, subtree@.len() as int),
            forall|j: int| 0 <= j < i ==> tail[j] == base_tree.deep_view()[j],
    {
        assert(tail[i as int] == subtree[size_diff + i].deep_view());
        assert(base_tree.deep_view()[i as int] == base_tree[i as int].deep_view());
        if subtree[size_diff + i].0 != base_tree[i].0 || subtree[size_diff + i].1
            != base_tree[i].1 {
            return false;
        }
    }
    assert(base_tree.deep_view() =~= tail);
    true
}

/// The value of the first element of `dn`, where `dn` is `cn=<value>,ou=<unit>` followed by the
/// elements of `base_tree`; `None` where `dn` is below the base but not of that format.
fn get_name_in_unit(dn: &str, base_tree: &[(String, String)], unit: &str) -> (res: Result<
    Option<String>,
    Error,
>)
    ensures
        forall|unexpected: ErrorView|
            name_in_unit(dn@, base_tree.deep_view(), unit@, unexpected) == match res {
                Ok(Some(name)) => Ok(name@),
                Ok(None) => Err(unexpected),
                Err(error) => Err(error.deep_view()),
            },
{
    let parts = match parse_distinguished_name(dn) {
        Ok(parts) => parts,
        Err(error) => return Err(error),
    };
    if !is_subtree(&parts, base_tree) {
        return Err(Error::NotASubtree);
    }
    if parts.len() - base_tree.len() == 2 {
        assert(parts.deep_view()[0] == parts[0].deep_view());
        assert(parts.deep_view()[1] == parts[1].deep_view());
        if same_text(&parts[1].0, "ou") && same_text(&parts[1].1, unit) && same_text(
            &parts[0].0,
            "cn",
        ) {
            return Ok(Some(parts[0].1.clone()));
        }
    }
    Ok(None)
}

/// The group that `dn` names.
pub fn get_group_id_from_distinguished_name(
    dn: &str,
    base_tree: &[(String, String)],
    base_dn_str: &str,
) -> (res: Result<String, Error>)
    ensures
        outcome_view(res) == group_id_in_dn(dn@, base_tree.deep_view(), base_dn_str@),
{
    match get_name_in_unit(dn, base_tree, "groups") {
        Ok(Some(name)) => Ok(name),
        Ok(None) => Err(
            Error::UnexpectedGroupDn { dn: dn.to_owned(), base_dn: base_dn_str.to_owned() },
        ),
        Err(error) => Err(error),
    }
}

/// The user that `dn` names.
pub fn get_user_id_from_distinguished_name(
    dn: &str,
    base_tree: &[(String, String)],
    base_dn_str: &str,
) -> (res: Result<String, Error>)
    ensures
        outcome_view(res) == user_id_in_dn(dn@, base_tree.deep_view(), base_dn_str@),
{
    match get_name_in_unit(dn, base_tree, "people") {
        Ok(Some(name)) => Ok(name),
        Ok(None) => Err(
            Error::UnexpectedUserDn { dn: dn.to_owned(), base_dn: base_dn_str.to_owned() },
        ),
        Err(error) => Err(error),
    }
}

/// The distinguished name of a user.
pub fn format_user_dn(user_id: &str, base_dn_str: &str) -> (dn: String)
    ensures
        dn@ == user_dn(user_id@, base_dn_str@),
{
    "cn=".to_owned().concat(user_id).concat(",ou=people,").concat(base_dn_str)
}

/// The distinguished name of a group.
pub fn format_group_dn(name: &str, base_dn_str: &str) -> (dn: String)
    ensures
        dn@ == group_dn(name@, base_dn_str@),
{
    "cn=".to_owned().concat(name).concat(",ou=groups,").concat(base_dn_str)
}

} // verus!

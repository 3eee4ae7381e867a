use crate::collect::{all_or_first_error, lemma_first_error, lemma_next_ok};
use crate::dn::{
    format_user_dn, get_group_id_from_distinguished_name, get_user_id_from_distinguished_name,
    is_subtree, parse_distinguished_name, parse_dn, user_id_in_dn,
};
use crate::domain::{
    everyone, lemma_request_filter_list_view, nobody, BindRequest, Group, GroupIdAndName,
    RequestFilter, User, UserView,
};
use crate::entry::{make_ldap_search_group_result_entry, make_ldap_search_user_result_entry};
use crate::error::{outcome_view, Error, ErrorView};
use crate::filter::{group_filter, map_field, user_equality, user_filter, user_filters};
use crate::message::{
    lemma_filter_list_view, search_entry, search_success, EntryView, LdapFilter, LdapMsg, LdapOp,
    LdapResultCode, SearchRequest, ServerOps, SimpleBindRequest, WhoamiRequest,
};
use crate::step::{
    answer_view, bind_answer, bind_step, bound, entries_answer, fresh, group_entries,
    group_with_members, groups_list_answer, groups_list_step, members_step, message_step,
    next_members_step, search_failure, search_in_step, search_step, serves, user_entries,
    user_groups_failure, user_groups_step, user_list_answer, user_list_step, whoami_answer,
    BindStep, HandlerView, MemberListing, MessageStep, SearchStep,
};
use crate::text::same_text;
use vstd::prelude::*;

verus! {

/// Serves the requests of one LDAP connection.
pub struct LdapHandler {
    dn: String,
    pub base_dn: Vec<(String, String)>,
    base_dn_str: String,
    ldap_user_dn: String,
}

impl DeepView for LdapHandler {
    type V = HandlerView;

    closed spec fn deep_view(&self) -> HandlerView {
        HandlerView {
            dn: self.dn@,
            base_tree: self.base_dn.deep_view(),
            base_dn: self.base_dn_str@,
            ldap_user_dn: self.ldap_user_dn@,
        }
    }
}

impl LdapHandler {
    /// A handler for a client that has not bound, below the base `ldap_base_dn`. Only the user
    /// `ldap_user_dn` may search.
    pub fn new(ldap_base_dn: String, ldap_user_dn: String) -> (handler: LdapHandler)
        requires
            parse_dn(ldap_base_dn@) is Ok,
        ensures
            handler.deep_view() == fresh(ldap_base_dn@, ldap_user_dn@),
            serves(handler.deep_view(), ldap_base_dn@, ldap_user_dn@),
    {
        LdapHandler {
            dn: "Unauthenticated".to_owned(),
            base_dn: parse_distinguished_name(&ldap_base_dn).unwrap(),
            ldap_user_dn: format_user_dn(&ldap_user_dn, &ldap_base_dn),
            base_dn_str: ldap_base_dn,
        }
    }

    /// Starts a bind.
    pub fn do_bind(&self, sbr: &SimpleBindRequest) -> (step: BindStep)
        ensures
            step.deep_view() == bind_step(self.deep_view(), sbr.deep_view()),
    {
        match get_user_id_from_distinguished_name(&sbr.dn, &self.base_dn, &self.base_dn_str) {
            Ok(user_id) => BindStep::Authenticate(
                BindRequest { name: user_id, password: sbr.pw.clone() },
            ),
            Err(error) => BindStep::Reply(
                sbr.gen_error(LdapResultCode::NamingViolation, error.to_string()),
            ),
        }
    }

    /// Ends a bind that was for the directory to decide, once it has checked the credentials.
    pub fn finish_bind(
        &mut self,
        sbr: &SimpleBindRequest,
        answer: Result<(), String>,
    ) -> (msg: LdapMsg)
        requires
            user_id_in_dn(
                sbr.dn@,
                old(self).deep_view().base_tree,
                old(self).deep_view().base_dn,
            ) is Ok,
        ensures
            msg.deep_view() == bind_answer(sbr.deep_view(), answer is Ok),
            msg.msgid == sbr.msgid,
            msg.op matches LdapOp::BindResponse(response) && response.res.code == match answer {
                Ok(_) => LdapResultCode::Success,
                Err(_) => LdapResultCode::InvalidCredentials,
            },
            final(self).deep_view() == bound(old(self).deep_view(), sbr.deep_view(), answer is Ok),
            final(self).deep_view().dn == match answer {
                Ok(_) => sbr.dn@,
                Err(_) => old(self).deep_view().dn,
            },
            forall|base_dn: Seq<char>, ldap_user: Seq<char>|
                serves(old(self).deep_view(), base_dn, ldap_user) ==> #[trigger] serves(
                    final(self).deep_view(),
                    base_dn,
                    ldap_user,
                ),
    {
        match answer {
            Ok(()) => {
                self.dn = sbr.dn.clone();
                sbr.gen_success()
            },
            Err(_) => sbr.gen_invalid_cred(),
        }
    }

    /// Tells the client who it is bound as.
    pub fn do_whoami(&self, wr: &WhoamiRequest) -> (msg: LdapMsg)
        ensures
            msg.deep_view() == whoami_answer(self.deep_view(), wr.msgid),
            msg.msgid == wr.msgid,
            self.deep_view().dn != "Unauthenticated"@ ==> (msg.op matches LdapOp::ExtendedResponse(
                response,
            ) && response.res.code == LdapResultCode::Success && (response.value matches Some(bytes)
                && vstd::utf8::valid_utf8(bytes@) && vstd::utf8::decode_utf8(bytes@) == "dn: "@
                + self.deep_view().dn)),
            self.deep_view().dn == "Unauthenticated"@ ==> (msg.op matches LdapOp::ExtendedResponse(
                response,
            ) && response.res.code == LdapResultCode::OperationsError && response.value is None),
    {
        if same_text(&self.dn, "Unauthenticated") {
            wr.gen_operror("Unauthenticated")
        } else {
            wr.gen_success(&"dn: ".to_owned().concat(&self.dn))
        }
    }

    /// Starts a search.
    pub fn do_search(&self, lsr: &SearchRequest) -> (step: SearchStep)
        ensures
            step.deep_view() == search_step(self.deep_view(), lsr.deep_view()),
    {
        if self.dn != self.ldap_user_dn {
            return Self::search_failure(
                lsr,
                LdapResultCode::InsufficentAccessRights,
                "Current user `".to_owned().concat(&self.dn).concat(
                    "` is not allowed to query LDAP, expected ",
                ).concat(&self.ldap_user_dn),
            );
        }
        if lsr.base.as_str().is_empty() {
            self.search_in(lsr, &self.base_dn)
        } else {
            match parse_distinguished_name(&lsr.base) {
                Ok(place) => self.search_in(lsr, &place),
                Err(_) => Self::search_failure(
                    lsr,
                    LdapResultCode::OperationsError,
                    "Could not parse base DN: \"".to_owned().concat(&lsr.base).concat("\""),
                ),
            }
        }
    }

    fn search_failure(lsr: &SearchRequest, code: LdapResultCode, message: String) -> (step:
        SearchStep)
        ensures
            step.deep_view() == search_failure(lsr.deep_view(), code, message@),
    {
        SearchStep::Reply(single(lsr.gen_error(code, message)))
    }

    /// Starts a search in the place with the elements `dn_parts`.
    fn search_in(&self, lsr: &SearchRequest, dn_parts: &Vec<(String, String)>) -> (step:
        SearchStep)
        ensures
            step.deep_view() == search_in_step(
                self.deep_view(),
                lsr.deep_view(),
                dn_parts.deep_view(),
            ),
    {
        if !is_subtree(dn_parts, &self.base_dn) {
            // Search path is not in our tree, just return an empty success.
            return SearchStep::Reply(single(lsr.gen_success()));
        }
        let depth: usize = dn_parts.len() - self.base_dn.len();
        if depth == 0 {
            return self.get_user_list(lsr);
        }
        assert(dn_parts.deep_view()[0] == dn_parts[0].deep_view());
        if depth == 1 && same_text(&dn_parts[0].0, "ou") {
            if same_text(&dn_parts[0].1, "people") {
                return self.get_user_list(lsr);
            }
            if same_text(&dn_parts[0].1, "groups") {
                return self.get_groups_list(lsr);
            }
        }
        let nothing: Vec<LdapMsg> = Vec::new();
        assert(nothing.deep_view() =~= Seq::empty());
        SearchStep::Reply(nothing)
    }

    /// Starts a search for users.
    pub fn get_user_list(&self, lsr: &SearchRequest) -> (step: SearchStep)
        ensures
            step.deep_view() == user_list_step(self.deep_view(), lsr.deep_view()),
    {
        match self.convert_user_filter(&lsr.filter) {
            Ok(filter) => SearchStep::ListUsers(Some(filter)),
            Err(error) => Self::search_failure(
                lsr,
                LdapResultCode::UnwillingToPerform,
                "Unsupported user filter: ".to_owned().concat(&error.to_string()),
            ),
        }
    }

    /// Starts a search for groups.
    pub fn get_groups_list(&self, lsr: &SearchRequest) -> (step: SearchStep)
        ensures
            step.deep_view() == groups_list_step(self.deep_view(), lsr.deep_view()),
    {
        match self.get_group_filter(&lsr.filter) {
            Ok(Some(user_id)) => SearchStep::GetUserGroups(user_id),
            Ok(None) => SearchStep::ListGroups,
            Err(error) => Self::search_failure(
                lsr,
                LdapResultCode::UnwillingToPerform,
                "Unsupported group filter: ".to_owned().concat(&error.to_string()),
            ),
        }
    }

    /// Ends a search with the entries of `users`.
    fn user_entries_reply(&self, lsr: &SearchRequest, users: &Vec<User>) -> (msgs: Vec<LdapMsg>)
        ensures
            msgs.deep_view() == entries_answer(
                lsr.msgid,
                user_entries(self.deep_view(), lsr.deep_view(), users.deep_view()),
            ),
    {
        let ghost entries = user_entries(self.deep_view(), lsr.deep_view(), users.deep_view());
        let ghost mut made: Seq<EntryView> = Seq::empty();
        let mut msgs: Vec<LdapMsg> = Vec::new();
        assert(entries.take(0) =~= Seq::empty());
        for i in 0..users.len()
            invariant
                entries == user_entries(self.deep_view(), lsr.deep_view(), users.deep_view()),
                all_or_first_error(entries.take(i as int)) == Ok::<_, ErrorView>(made),
                msgs.deep_view() == made.map_values(
                    |entry: EntryView| search_entry(lsr.msgid, entry),
                ),
        {
            assert(users.deep_view()[i as int] == users[i as int].deep_view());
            match make_ldap_search_user_result_entry(
                &users[i],
                &self.base_dn_str,
                &lsr.attrs,
            ) {
                Ok(entry) => {
                    let ghost before = msgs.deep_view();
                    proof {
                        lemma_next_ok(entries, i as int, made, entry.deep_view());
                        made = made.push(entry.deep_view());
                    }
                    msgs.push(lsr.gen_result_entry(entry));
                    assert(msgs.deep_view() =~= before.push(
                        search_entry(lsr.msgid, entry.deep_view()),
                    ));
                    assert(msgs.deep_view() =~= made.map_values(
                        |entry: EntryView| search_entry(lsr.msgid, entry),
                    ));
                },
                Err(error) => {
                    proof {
                        lemma_first_error(entries, i as int, error.deep_view());
                    }
                    return single(
                        lsr.gen_error(LdapResultCode::NoSuchAttribute, error.to_string()),
                    );
                },
            }
        }
        assert(entries.take(users@.len() as int) =~= entries);
        let ghost before = msgs.deep_view();
        // If the processing succeeds, add a success message at the end.
        msgs.push(lsr.gen_success());
        assert(msgs.deep_view() =~= before.push(search_success(lsr.msgid)));
        msgs
    }

    /// Ends a search with the entries of `groups`.
    fn group_entries_reply(&self, lsr: &SearchRequest, groups: &Vec<Group>) -> (msgs: Vec<LdapMsg>)
        ensures
            msgs.deep_view() == entries_answer(
                lsr.msgid,
                group_entries(self.deep_view(), lsr.deep_view(), groups.deep_view()),
            ),
    {
        let ghost entries = group_entries(self.deep_view(), lsr.deep_view(), groups.deep_view());
        let ghost mut made: Seq<EntryView> = Seq::empty();
        let mut msgs: Vec<LdapMsg> = Vec::new();
        assert(entries.take(0) =~= Seq::empty());
        for i in 0..groups.len()
            invariant
                entries == group_entries(self.deep_view(), lsr.deep_view(), groups.deep_view()),
                all_or_first_error(entries.take(i as int)) == Ok::<_, ErrorView>(made),
                msgs.deep_view() == made.map_values(
                    |entry: EntryView| search_entry(lsr.msgid, entry),
                ),
        {
            assert(groups.deep_view()[i as int] == groups[i as int].deep_view());
            match make_ldap_search_group_result_entry(
                &groups[i],
                &self.base_dn_str,
                &lsr.attrs,
            ) {
                Ok(entry) => {
                    let ghost before = msgs.deep_view();
                    proof {
                        lemma_next_ok(entries, i as int, made, entry.deep_view());
                        made = made.push(entry.deep_view());
                    }
                    msgs.push(lsr.gen_result_entry(entry));
                    assert(msgs.deep_view() =~= before.push(
                        search_entry(lsr.msgid, entry.deep_view()),
                    ));
                    assert(msgs.deep_view() =~= made.map_values(
                        |entry: EntryView| search_entry(lsr.msgid, entry),
                    ));
                },
                Err(error) => {
                    proof {
                        lemma_first_error(entries, i as int, error.deep_view());
                    }
                    return single(
                        lsr.gen_error(LdapResultCode::NoSuchAttribute, error.to_string()),
                    );
                },
            }
        }
        assert(entries.take(groups@.len() as int) =~= entries);
        let ghost before = msgs.deep_view();
        // If the processing succeeds, add a success message at the end.
        msgs.push(lsr.gen_success());
        assert(msgs.deep_view() =~= before.push(search_success(lsr.msgid)));
        msgs
    }

    /// Ends a search for users, once the directory has listed them.
    pub fn finish_user_list(
        &self,
        lsr: &SearchRequest,
        answer: Result<Vec<User>, String>,
    ) -> (msgs: Vec<LdapMsg>)
        ensures
            msgs.deep_view() == user_list_answer(
                self.deep_view(),
                lsr.deep_view(),
                answer_view(answer),
            ),
    {
        match answer {
            Ok(users) => self.user_entries_reply(lsr, &users),
            Err(text) => single(
                lsr.gen_error(
                    LdapResultCode::Other,
                    "Error during searching user \"".to_owned().concat(&lsr.base).concat(
                        "\": ",
                    ).concat(&text),
                ),
            ),
        }
    }

    /// Ends a search for groups, once the directory has listed them.
    pub fn finish_groups_list(
        &self,
        lsr: &SearchRequest,
        answer: Result<Vec<Group>, String>,
    ) -> (msgs: Vec<LdapMsg>)
        ensures
            msgs.deep_view() == groups_list_answer(
                self.deep_view(),
                lsr.deep_view(),
                answer_view(answer),
            ),
    {
        match answer {
            Ok(groups) => self.group_entries_reply(lsr, &groups),
            Err(text) => single(
                lsr.gen_error(
                    LdapResultCode::Other,
                    "Error while listing groups \"".to_owned().concat(&lsr.base).concat(
                        "\": ",
                    ).concat(&text),
                ),
            ),
        }
    }

    /// Goes on with a search for the groups of a user, once the directory has listed them.
    pub fn resume_with_user_groups(
        &self,
        lsr: &SearchRequest,
        answer: Result<Vec<GroupIdAndName>, String>,
    ) -> (step: SearchStep)
        ensures
            step.deep_view() == user_groups_step(
                self.deep_view(),
                lsr.deep_view(),
                answer_view(answer),
            ),
    {
        match answer {
            Ok(groups) => {
                let known: Vec<Group> = Vec::new();
                assert(known.deep_view() =~= Seq::empty());
                self.next_members(lsr, groups, known)
            },
            Err(text) => Self::user_groups_failure(lsr, text),
        }
    }

    /// Goes on with a search for the groups of a user, once the directory has listed the members
    /// of the current group.
    pub fn resume_with_members(
        &self,
        lsr: &SearchRequest,
        listing: MemberListing,
        answer: Result<Vec<User>, String>,
    ) -> (step: SearchStep)
        ensures
            step.deep_view() == members_step(
                self.deep_view(),
                lsr.deep_view(),
                listing.deep_view(),
                answer_view(answer),
            ),
    {
        let MemberListing { current, rest, groups } = listing;
        match answer {
            Ok(users) => {
                let ghost before = groups.deep_view();
                let group = get_users_for_group(current, users);
                let mut groups = groups;
                groups.push(group);
                assert(groups.deep_view() =~= before.push(group.deep_view()));
                self.next_members(lsr, rest, groups)
            },
            Err(text) => Self::user_groups_failure(lsr, text),
        }
    }

    fn user_groups_failure(lsr: &SearchRequest, text: String) -> (step: SearchStep)
        ensures
            step.deep_view() == user_groups_failure(lsr.deep_view(), text@),
    {
        Self::search_failure(
            lsr,
            LdapResultCode::Other,
            "Error while listing user groups: \"".to_owned().concat(&lsr.base).concat(
                "\": ",
            ).concat(&text),
        )
    }

    fn next_members(
        &self,
        lsr: &SearchRequest,
        rest: Vec<GroupIdAndName>,
        groups: Vec<Group>,
    ) -> (step: SearchStep)
        ensures
            step.deep_view() == next_members_step(
                self.deep_view(),
                lsr.deep_view(),
                rest.deep_view(),
                groups.deep_view(),
            ),
    {
        if rest.is_empty() {
            SearchStep::Reply(self.group_entries_reply(lsr, &groups))
        } else {
            let ghost all = rest.deep_view();
            let mut rest = rest;
            let current = rest.remove(0);
            assert(all[0] == current.deep_view());
            assert(rest.deep_view() =~= all.skip(1));
            SearchStep::ListMembers(
                Some(RequestFilter::MemberOfId(current.0)),
                MemberListing { current, rest, groups },
            )
        }
    }

    /// Serves a message, as far as that needs nothing from the directory.
    pub fn handle_ldap_message(&self, server_op: ServerOps) -> (step: MessageStep)
        ensures
            step.deep_view() == message_step(self.deep_view(), server_op.deep_view()),
    {
        match server_op {
            ServerOps::SimpleBind(sbr) => match self.do_bind(&sbr) {
                BindStep::Reply(msg) => MessageStep::Reply(Some(single(msg))),
                BindStep::Authenticate(request) => MessageStep::Bind(sbr, request),
            },
            ServerOps::Search(lsr) => match self.do_search(&lsr) {
                SearchStep::Reply(msgs) => MessageStep::Reply(Some(msgs)),
                step => MessageStep::Search(lsr, step),
            },
            // No need to notify on unbind (per rfc4511)
            ServerOps::Unbind(_) => MessageStep::Reply(None),
            ServerOps::Whoami(wr) => MessageStep::Reply(Some(single(self.do_whoami(&wr)))),
        }
    }

    /// Whether a group search wants the groups of one user, and of which.
    pub fn get_group_filter(&self, filter: &LdapFilter) -> (res: Result<Option<String>, Error>)
        ensures
            outcome_view(res) == group_filter(
                filter.deep_view(),
                self.deep_view().base_tree,
                self.deep_view().base_dn,
            ),
    {
        match filter {
            LdapFilter::Equality(field, value) => {
                if same_text(field, "member") || same_text(field, "uniqueMember") {
                    match get_user_id_from_distinguished_name(
                        value,
                        &self.base_dn,
                        &self.base_dn_str,
                    ) {
                        Ok(user_id) => Ok(Some(user_id)),
                        Err(error) => Err(error),
                    }
                } else if same_text(field, "objectClass") && same_text(
                    value,
                    "groupOfUniqueNames",
                ) {
                    Ok(None)
                } else {
                    Err(Error::UnsupportedGroupFilter(filter.clone()))
                }
            },
            _ => Err(Error::UnsupportedGroupFilter(filter.clone())),
        }
    }

    /// The condition of the directory that a filter on users stands for.
    pub fn convert_user_filter(&self, filter: &LdapFilter) -> (res: Result<RequestFilter, Error>)
        ensures
            outcome_view(res) == user_filter(
                filter.deep_view(),
                self.deep_view().base_tree,
                self.deep_view().base_dn,
            ),
            res matches Ok(condition) ==> match filter {
                LdapFilter::And(filters) => condition matches RequestFilter::And(parts)
                    && parts@.len() == filters@.len(),
                LdapFilter::Or(filters) => condition matches RequestFilter::Or(parts)
                    && parts@.len() == filters@.len(),
                LdapFilter::Not(_) => condition is Not,
                _ => true,
            },
        decreases filter,
    {
        match filter {
            LdapFilter::And(filters) => {
                proof {
                    lemma_filter_list_view(*filters);
                }
                match self.convert_user_filters(filters) {
                    Ok(parts) => {
                        proof {
                            lemma_request_filter_list_view(parts);
                        }
                        Ok(RequestFilter::And(parts))
                    },
                    Err(error) => Err(error),
                }
            },
            LdapFilter::Or(filters) => {
                proof {
                    lemma_filter_list_view(*filters);
                }
                match self.convert_user_filters(filters) {
                    Ok(parts) => {
                        proof {
                            lemma_request_filter_list_view(parts);
                        }
                        Ok(RequestFilter::Or(parts))
                    },
                    Err(error) => Err(error),
                }
            },
            LdapFilter::Not(inner) => match self.convert_user_filter(inner) {
                Ok(part) => Ok(RequestFilter::Not(Box::new(part))),
                Err(error) => Err(error),
            },
            LdapFilter::Equality(field, value) => self.convert_user_equality(field, value),
            LdapFilter::Present(field) => {
                // Check that it's a field we support.
                if same_text(field, "objectClass") || map_field(field).is_ok() {
                    Ok(match_everyone())
                } else {
                    Ok(match_nobody())
                }
            },
            LdapFilter::Substring(..) => Err(Error::UnsupportedUserFilter(filter.clone())),
        }
    }

    fn convert_user_filters(&self, filters: &Vec<LdapFilter>) -> (res: Result<
        Vec<RequestFilter>,
        Error,
    >)
        ensures
            outcome_view(res) == all_or_first_error(
                user_filters(
                    filters.deep_view(),
                    self.deep_view().base_tree,
                    self.deep_view().base_dn,
                ),
            ),
            res matches Ok(parts) ==> parts@.len() == filters@.len(),
        decreases filters,
    {
        let ghost h = self.deep_view();
        let ghost results = user_filters(filters.deep_view(), h.base_tree, h.base_dn);
        let mut parts: Vec<RequestFilter> = Vec::new();
        assert(parts.deep_view() =~= Seq::empty());
        assert(results.take(0) =~= Seq::empty());
        for i in 0..filters.len()
            invariant
                h == self.deep_view(),
                results == user_filters(filters.deep_view(), h.base_tree, h.base_dn),
                all_or_first_error(results.take(i as int)) == Ok::<_, ErrorView>(
                    parts.deep_view(),
                ),
                parts@.len() == i,
        {
            assert(filters.deep_view()[i as int] == filters[i as int].deep_view());
            match self.convert_user_filter(&filters[i]) {
                Ok(part) => {
                    let ghost before = parts.deep_view();
                    proof {
                        lemma_next_ok(results, i as int, before, part.deep_view());
                    }
                    parts.push(part);
                    assert(parts.deep_view() =~= before.push(part.deep_view()));
                },
                Err(error) => {
                    proof {
                        lemma_first_error(results, i as int, error.deep_view());
                    }
                    return Err(error);
                },
            }
        }
        assert(results.take(filters@.len() as int) =~= results);
        Ok(parts)
    }

    fn convert_user_equality(&self, field: &str, value: &str) -> (res: Result<
        RequestFilter,
        Error,
    >)
        ensures
            outcome_view(res) == user_equality(
                field@,
                value@,
                self.deep_view().base_tree,
                self.deep_view().base_dn,
            ),
    {
        if same_text(field, "memberOf") {
            match get_group_id_from_distinguished_name(value, &self.base_dn, &self.base_dn_str) {
                Ok(group_name) => Ok(RequestFilter::MemberOf(group_name)),
                Err(error) => Err(error),
            }
        } else if same_text(field, "objectClass") {
            if same_text(value, "person") || same_text(value, "inetOrgPerson") || same_text(
                value,
                "posixAccount",
            ) || same_text(value, "mailAccount") {
                Ok(match_everyone())
            } else {
                Ok(match_nobody())
            }
        } else {
            match map_field(field) {
                Ok(name) => Ok(RequestFilter::Equality(name, value.to_owned())),
                Err(error) => Err(error),
            }
        }
    }
}

/// A group with the members that the directory has listed for it.
pub fn get_users_for_group(group: GroupIdAndName, users: Vec<User>) -> (res: Group)
    ensures
        res.deep_view() == group_with_members(group.deep_view(), users.deep_view()),
        res.id == group.0,
        res.display_name == group.1,
        res.users@.len() == users@.len(),
        forall|i: int|
            0 <= i < users@.len() ==> (#[trigger] res.users@[i])@ == users@[i].user_id@,
{
    let ghost all = users.deep_view().map_values(|user: UserView| user.user_id);
    let mut user_ids: Vec<String> = Vec::new();
    for i in 0..users.len()
        invariant
            all == users.deep_view().map_values(|user: UserView| user.user_id),
            user_ids.deep_view() == all.take(i as int),
            user_ids@.len() == i,
            forall|j: int| 0 <= j < i ==> (#[trigger] user_ids@[j])@ == users@[j].user_id@,
    {
        let ghost before = user_ids.deep_view();
        user_ids.push(users[i].user_id.clone());
        assert(users.deep_view()[i as int] == users[i as int].deep_view());
        assert(user_ids.deep_view() =~= before.push(all[i as int]));
        assert(all.take(i + 1) =~= before.push(all[i as int]));
    }
    assert(all.take(users@.len() as int) =~= all);
    Group { id: group.0, display_name: group.1, users: user_ids }
}

fn match_everyone() -> (filter: RequestFilter)
    ensures
        filter.deep_view() == everyone(),
{
    let filter = RequestFilter::And(Vec::new());
    assert(filter.deep_view()->And_0 =~= Seq::empty());
    filter
}

fn match_nobody() -> (filter: RequestFilter)
    ensures
        filter.deep_view() == nobody(),
{
    RequestFilter::Not(Box::new(match_everyone()))
}

fn single(msg: LdapMsg) -> (msgs: Vec<LdapMsg>)
    ensures
        msgs.deep_view() == seq![msg.deep_view()],
{
    let mut msgs: Vec<LdapMsg> = Vec::new();
    msgs.push(msg);
    assert(msgs.deep_view() =~= seq![msg.deep_view()]);
    msgs
}

} // verus!

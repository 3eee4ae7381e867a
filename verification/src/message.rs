use vstd::prelude::*;

verus! {

/// The result codes that the handler answers with.
#[derive(Clone, Copy, Debug, PartialEq, Eq, Structural)]
pub enum LdapResultCode {
    Success,
    OperationsError,
    NoSuchAttribute,
    InvalidCredentials,
    InsufficentAccessRights,
    UnwillingToPerform,
    NamingViolation,
    Other,
}

#[derive(Clone, Copy, Debug, PartialEq, Eq, Structural)]
pub enum LdapSearchScope {
    Base,
    OneLevel,
    Subtree,
}

#[derive(Debug, PartialEq, Eq, Default)]
pub struct LdapSubstringFilter {
    pub initial: Option<String>,
    pub any: Vec<String>,
    pub final_: Option<String>,
}

/// A search filter as a client sends it.
#[derive(Debug, PartialEq, Eq)]
pub enum LdapFilter {
    And(Vec<LdapFilter>),
    Or(Vec<LdapFilter>),
    Not(Box<LdapFilter>),
    Equality(String, String),
    Substring(String, LdapSubstringFilter),
    Present(String),
}

#[derive(Debug, PartialEq, Eq)]
pub struct SearchRequest {
    pub msgid: i32,
    pub base: String,
    pub scope: LdapSearchScope,
    pub filter: LdapFilter,
    pub attrs: Vec<String>,
}

#[derive(PartialEq, Eq)]
pub struct SimpleBindRequest {
    pub msgid: i32,
    pub dn: String,
    pub pw: String,
}

#[derive(Debug, PartialEq, Eq)]
pub struct UnbindRequest;

#[derive(Debug, PartialEq, Eq)]
pub struct WhoamiRequest {
    pub msgid: i32,
}

/// A request that a client may send.
#[derive(PartialEq, Eq)]
pub enum ServerOps {
    Search(SearchRequest),
    SimpleBind(SimpleBindRequest),
    Unbind(UnbindRequest),
    Whoami(WhoamiRequest),
}

#[derive(Debug, PartialEq, Eq)]
pub struct LdapPartialAttribute {
    pub atype: String,
    pub vals: Vec<String>,
}

#[derive(Debug, PartialEq, Eq)]
pub struct LdapSearchResultEntry {
    pub dn: String,
    pub attributes: Vec<LdapPartialAttribute>,
}

#[derive(Debug, PartialEq, Eq)]
pub struct LdapResult {
    pub code: LdapResultCode,
    pub matcheddn: String,
    pub message: String,
    pub referral: Vec<String>,
}

#[derive(Debug, PartialEq, Eq)]
pub struct LdapBindResponse {
    pub res: LdapResult,
    pub saslcreds: Option<String>,
}

#[derive(Debug, PartialEq, Eq)]
pub struct LdapExtendedResponse {
    pub res: LdapResult,
    pub name: Option<String>,
    pub value: Option<Vec<u8>>,
}

#[derive(Debug, PartialEq, Eq)]
pub enum LdapOp {
    BindResponse(LdapBindResponse),
    SearchResultEntry(LdapSearchResultEntry),
    SearchResultDone(LdapResult),
    ExtendedResponse(LdapExtendedResponse),
}

/// A message for the client. It carries no controls.
#[derive(Debug, PartialEq, Eq)]
pub struct LdapMsg {
    pub msgid: i32,
    pub op: LdapOp,
}

pub struct SubstringFilterView {
    pub initial: Option<Seq<char>>,
    pub any: Seq<Seq<char>>,
    pub final_: Option<Seq<char>>,
}

pub enum FilterView {
    And(Seq<FilterView>),
    Or(Seq<FilterView>),
    Not(Box<FilterView>),
    Equality(Seq<char>, Seq<char>),
    Substring(Seq<char>, SubstringFilterView),
    Present(Seq<char>),
}

pub struct SearchView {
    pub msgid: i32,
    pub base: Seq<char>,
    pub scope: LdapSearchScope,
    pub filter: FilterView,
    pub attrs: Seq<Seq<char>>,
}

pub struct BindView {
    pub msgid: i32,
    pub dn: Seq<char>,
    pub pw: Seq<char>,
}

pub enum ServerOpsView {
    Search(SearchView),
    SimpleBind(BindView),
    Unbind,
    Whoami(i32),
}

pub struct AttributeView {
    pub atype: Seq<char>,
    pub vals: Seq<Seq<char>>,
}

pub struct EntryView {
    pub dn: Seq<char>,
    pub attributes: Seq<AttributeView>,
}

pub struct ResultView {
    pub code: LdapResultCode,
    pub matcheddn: Seq<char>,
    pub message: Seq<char>,
    pub referral: Seq<Seq<char>>,
}

pub enum OpView {
    BindResponse { res: ResultView, saslcreds: Option<Seq<char>> },
    SearchResultEntry(EntryView),
    SearchResultDone(ResultView),
    ExtendedResponse { res: ResultView, name: Option<Seq<char>>, value: Option<Seq<u8>> },
}

pub struct MsgView {
    pub msgid: i32,
    pub op: OpView,
}

impl DeepView for LdapSubstringFilter {
    type V = SubstringFilterView;

    open spec fn deep_view(&self) -> SubstringFilterView {
        SubstringFilterView {
            initial: self.initial.deep_view(),
            any: self.any.deep_view(),
            final_: self.final_.deep_view(),
        }
    }
}

pub open spec fn filter_view(filter: LdapFilter) -> FilterView
    decreases filter,
{
    match filter {
        LdapFilter::And(filters) => FilterView::And(
            Seq::new(
                filters@.len(),
                |i: int|
                    if 0 <= i < filters@.len() {
                        filter_view(filters@[i])
                    } else {
                        arbitrary()
                    },
            ),
        ),
        LdapFilter::Or(filters) => FilterView::Or(
            Seq::new(
                filters@.len(),
                |i: int|
                    if 0 <= i < filters@.len() {
                        filter_view(filters@[i])
                    } else {
                        arbitrary()
                    },
            ),
        ),
        LdapFilter::Not(inner) => FilterView::Not(Box::new(filter_view(*inner))),
        LdapFilter::Equality(field, value) => FilterView::Equality(field@, value@),
        LdapFilter::Substring(field, sub) => FilterView::Substring(field@, sub.deep_view()),
        LdapFilter::Present(field) => FilterView::Present(field@),
    }
}

impl DeepView for LdapFilter {
    type V = FilterView;

    open spec fn deep_view(&self) -> FilterView {
        filter_view(*self)
    }
}

impl DeepView for SearchRequest {
    type V = SearchView;

    open spec fn deep_view(&self) -> SearchView {
        SearchView {
            msgid: self.msgid,
            base: self.base@,
            scope: self.scope,
            filter: self.filter.deep_view(),
            attrs: self.attrs.deep_view(),
        }
    }
}

impl DeepView for SimpleBindRequest {
    type V = BindView;

    open spec fn deep_view(&self) -> BindView {
        BindView { msgid: self.msgid, dn: self.dn@, pw: self.pw@ }
    }
}

impl DeepView for ServerOps {
    type V = ServerOpsView;

    open spec fn deep_view(&self) -> ServerOpsView {
        match *self {
            ServerOps::Search(lsr) => ServerOpsView::Search(lsr.deep_view()),
            ServerOps::SimpleBind(sbr) => ServerOpsView::SimpleBind(sbr.deep_view()),
            ServerOps::Unbind(_) => ServerOpsView::Unbind,
            ServerOps::Whoami(wr) => ServerOpsView::Whoami(wr.msgid),
        }
    }
}

impl DeepView for LdapPartialAttribute {
    type V = AttributeView;

    open spec fn deep_view(&self) -> AttributeView {
        AttributeView { atype: self.atype@, vals: self.vals.deep_view() }
    }
}

impl DeepView for LdapSearchResultEntry {
    type V = EntryView;

    open spec fn deep_view(&self) -> EntryView {
        EntryView { dn: self.dn@, attributes: self.attributes.deep_view() }
    }
}

impl DeepView for LdapResult {
    type V = ResultView;

    open spec fn deep_view(&self) -> ResultView {
        ResultView {
            code: self.code,
            matcheddn: self.matcheddn@,
            message: self.message@,
            referral: self.referral.deep_view(),
        }
    }
}

impl DeepView for LdapMsg {
    type V = MsgView;

    open spec fn deep_view(&self) -> MsgView {
        MsgView {
            msgid: self.msgid,
            op: match self.op {
                LdapOp::BindResponse(response) => OpView::BindResponse {
                    res: response.res.deep_view(),
                    saslcreds: response.saslcreds.deep_view(),
                },
                LdapOp::SearchResultEntry(entry) => OpView::SearchResultEntry(entry.deep_view()),
                LdapOp::SearchResultDone(res) => OpView::SearchResultDone(res.deep_view()),
                LdapOp::ExtendedResponse(response) => OpView::ExtendedResponse {
                    res: response.res.deep_view(),
                    name: response.name.deep_view(),
                    value: response.value.deep_view(),
                },
            },
        }
    }
}

/// What a conjunction or a disjunction holds, as a sequence.
pub proof fn lemma_filter_list_view(filters: Vec<LdapFilter>)
    ensures
        LdapFilter::And(filters).deep_view() == FilterView::And(filters.deep_view()),
        LdapFilter::Or(filters).deep_view() == FilterView::Or(filters.deep_view()),
{
    assert(LdapFilter::And(filters).deep_view()->And_0 =~= filters.deep_view());
    assert(LdapFilter::Or(filters).deep_view()->Or_0 =~= filters.deep_view());
}

/// A result that names no matched entry and refers nowhere else.
pub open spec fn plain_result(code: LdapResultCode, message: Seq<char>) -> ResultView {
    ResultView { code, matcheddn: Seq::empty(), message, referral: Seq::empty() }
}

/// The end of a search, with its outcome.
pub open spec fn search_done(msgid: i32, code: LdapResultCode, message: Seq<char>) -> MsgView {
    MsgView { msgid, op: OpView::SearchResultDone(plain_result(code, message)) }
}

/// The successful end of a search.
pub open spec fn search_success(msgid: i32) -> MsgView {
    search_done(msgid, LdapResultCode::Success, Seq::empty())
}

/// One entry that a search found.
pub open spec fn search_entry(msgid: i32, entry: EntryView) -> MsgView {
    MsgView { msgid, op: OpView::SearchResultEntry(entry) }
}

/// The answer to a bind.
pub open spec fn bind_response(msgid: i32, code: LdapResultCode, message: Seq<char>) -> MsgView {
    MsgView {
        msgid,
        op: OpView::BindResponse { res: plain_result(code, message), saslcreds: None },
    }
}

/// The answer to a whoami that tells the identity `authzid`, as UTF-8.
pub open spec fn whoami_success(msgid: i32, authzid: Seq<char>) -> MsgView {
    MsgView {
        msgid,
        op: OpView::ExtendedResponse {
            res: plain_result(LdapResultCode::Success, Seq::empty()),
            name: None,
            value: Some(vstd::utf8::encode_utf8(authzid)),
        },
    }
}

/// The answer to a whoami that tells no identity.
pub open spec fn whoami_error(msgid: i32, message: Seq<char>) -> MsgView {
    MsgView {
        msgid,
        op: OpView::ExtendedResponse {
            res: plain_result(LdapResultCode::OperationsError, message),
            name: None,
            value: None,
        },
    }
}

impl Clone for LdapSubstringFilter {
    fn clone(&self) -> (res: Self)
        ensures
            res.deep_view() == self.deep_view(),
    {
        let res = LdapSubstringFilter {
            initial: self.initial.clone(),
            any: self.any.clone(),
            final_: self.final_.clone(),
        };
        assert(res.any.deep_view() =~= self.any.deep_view());
        res
    }
}

impl Clone for LdapFilter {
    fn clone(&self) -> (res: Self)
        ensures
            res.deep_view() == self.deep_view(),
        decreases self,
    {
        match self {
            LdapFilter::And(filters) => {
                let copies = clone_filters(filters);
                proof {
                    lemma_filter_list_view(*filters);
                    lemma_filter_list_view(copies);
                }
                LdapFilter::And(copies)
            },
            LdapFilter::Or(filters) => {
                let copies = clone_filters(filters);
                proof {
                    lemma_filter_list_view(*filters);
                    lemma_filter_list_view(copies);
                }
                LdapFilter::Or(copies)
            },
            LdapFilter::Not(inner) => LdapFilter::Not(Box::new((**inner).clone())),
            LdapFilter::Equality(field, value) => LdapFilter::Equality(
                field.clone(),
                value.clone(),
            ),
            LdapFilter::Substring(field, sub) => LdapFilter::Substring(field.clone(), sub.clone()),
            LdapFilter::Present(field) => LdapFilter::Present(field.clone()),
        }
    }
}

fn clone_filters(filters: &Vec<LdapFilter>) -> (res: Vec<LdapFilter>)
    ensures
        res.deep_view() == filters.deep_view(),
    decreases filters,
{
    let mut res: Vec<LdapFilter> = Vec::new();
    for i in 0..filters.len()
        invariant
            res.deep_view() == filters.deep_view().take(i as int),
    {
        let ghost before = res.deep_view();
        res.push(filters[i].clone());
        assert(res.deep_view() =~= before.push(filters.deep_view()[i as int]));
        assert(filters.deep_view().take(i + 1) =~= before.push(filters.deep_view()[i as int]));
    }
    assert(filters.deep_view().take(filters@.len() as int) =~= filters.deep_view());
    res
}

impl LdapResult {
    /// A result that names no matched entry and refers nowhere else.
    pub fn plain(code: LdapResultCode, message: String) -> (res: LdapResult)
        ensures
            res.deep_view() == plain_result(code, message@),
            res.code == code,
            res.message@ == message@,
            res.matcheddn@.len() == 0,
            res.referral@.len() == 0,
    {
        let referral: Vec<String> = Vec::new();
        assert(referral.deep_view() =~= Seq::empty());
        LdapResult { code, matcheddn: String::new(), message, referral }
    }
}

impl SearchRequest {
    pub fn gen_result_entry(&self, entry: LdapSearchResultEntry) -> (msg: LdapMsg)
        ensures
            msg.deep_view() == search_entry(self.msgid, entry.deep_view()),
            msg.msgid == self.msgid,
            msg.op == LdapOp::SearchResultEntry(entry),
    {
        LdapMsg { msgid: self.msgid, op: LdapOp::SearchResultEntry(entry) }
    }

    pub fn gen_success(&self) -> (msg: LdapMsg)
        ensures
            msg.deep_view() == search_success(self.msgid),
            msg.msgid == self.msgid,
            msg.op matches LdapOp::SearchResultDone(outcome) && outcome.code
                == LdapResultCode::Success && outcome.message@.len() == 0,
    {
        self.gen_error(LdapResultCode::Success, String::new())
    }

    pub fn gen_error(&self, rc: LdapResultCode, msg: String) -> (res: LdapMsg)
        ensures
            res.deep_view() == search_done(self.msgid, rc, msg@),
            res.msgid == self.msgid,
            res.op matches LdapOp::SearchResultDone(outcome) && outcome.code == rc
                && outcome.message@ == msg@,
    {
        LdapMsg { msgid: self.msgid, op: LdapOp::SearchResultDone(LdapResult::plain(rc, msg)) }
    }
}

impl SimpleBindRequest {
    pub fn gen_success(&self) -> (msg: LdapMsg)
        ensures
            msg.deep_view() == bind_response(self.msgid, LdapResultCode::Success, Seq::empty()),
            msg.msgid == self.msgid,
            msg.op matches LdapOp::BindResponse(response) && response.res.code
                == LdapResultCode::Success && response.res.message@.len() == 0,
    {
        self.gen_error(LdapResultCode::Success, String::new())
    }

    pub fn gen_invalid_cred(&self) -> (msg: LdapMsg)
        ensures
            msg.deep_view() == bind_response(
                self.msgid,
                LdapResultCode::InvalidCredentials,
                Seq::empty(),
            ),
            msg.msgid == self.msgid,
            msg.op matches LdapOp::BindResponse(response) && response.res.code
                == LdapResultCode::InvalidCredentials && response.res.message@.len() == 0,
    {
        self.gen_error(LdapResultCode::InvalidCredentials, String::new())
    }

    pub fn gen_error(&self, rc: LdapResultCode, msg: String) -> (res: LdapMsg)
        ensures
            res.deep_view() == bind_response(self.msgid, rc, msg@),
            res.msgid == self.msgid,
            res.op matches LdapOp::BindResponse(response) && response.res.code == rc
                && response.res.message@ == msg@,
    {
        LdapMsg {
            msgid: self.msgid,
            op: LdapOp::BindResponse(
                LdapBindResponse { res: LdapResult::plain(rc, msg), saslcreds: None },
            ),
        }
    }
}

impl WhoamiRequest {
    pub fn gen_success(&self, authzid: &str) -> (msg: LdapMsg)
        ensures
            msg.deep_view() == whoami_success(self.msgid, authzid@),
            msg.msgid == self.msgid,
            msg.op matches LdapOp::ExtendedResponse(response) && response.res.code
                == LdapResultCode::Success && (response.value matches Some(bytes)
                && vstd::utf8::valid_utf8(bytes@) && vstd::utf8::decode_utf8(bytes@) == authzid@),
    {
        let value: Vec<u8> = authzid.as_bytes_vec();
        proof {
            vstd::utf8::encode_utf8_valid_utf8(authzid@);
            vstd::utf8::encode_utf8_decode_utf8(authzid@);
        }
        assert(value.deep_view() =~= value@);
        LdapMsg {
            msgid: self.msgid,
            op: LdapOp::ExtendedResponse(
                LdapExtendedResponse {
                    res: LdapResult::plain(LdapResultCode::Success, String::new()),
                    name: None,
                    value: Some(value),
                },
            ),
        }
    }

    pub fn gen_operror(&self, msg: &str) -> (res: LdapMsg)
        ensures
            res.deep_view() == whoami_error(self.msgid, msg@),
            res.msgid == self.msgid,
            res.op matches LdapOp::ExtendedResponse(response) && response.res.code
                == LdapResultCode::OperationsError && response.res.message@ == msg@
                && response.value is None,
    {
        LdapMsg {
            msgid: self.msgid,
            op: LdapOp::ExtendedResponse(
                LdapExtendedResponse {
                    res: LdapResult::plain(LdapResultCode::OperationsError, msg.to_owned()),
                    name: None,
                    value: None,
                },
            ),
        }
    }
}

} // verus!

//! A tool call made by hand: the one way from a request to a tool. Permission
//! comes first, then the tool, and either way a record is kept.
use vstd::prelude::*;

use crate::boundary;
use crate::error;
use crate::error::{ApiError, Refusal};
use crate::text;
use crate::toolround::ToolRecord;

verus! {

/// A call made by hand. `args` is a JSON text.
#[derive(Debug, PartialEq, Eq)]
pub struct ExecuteToolReq {
    pub workspace: String,
    pub tool: String,
    pub args: String,
    pub approved_once: bool,
    pub grant_session: bool,
    pub conversation_id: String,
}

/// What the permissions say of a call.
#[derive(Debug, PartialEq, Eq)]
pub enum Decision {
    Allow,
    RequireApproval { reason: String },
    Deny { reason: String },
}

/// Refuses a call without a tool or without a folder to work in.
pub fn admit_call(req: &ExecuteToolReq, folder_there: bool) -> (r: Result<(), ApiError>)
    ensures
        error::refusal_of(r) == (if text::is_blank(req.tool@) {
            Some(error::bad_request("tool is empty"@, "Pick a tool from GET /api/tools."@))
        } else if !folder_there {
            Some(
                error::bad_request(
                    "workspace not found: "@ + req.workspace@,
                    "Select an existing workspace folder first (§27)."@,
                ),
            )
        } else {
            None
        }),
{
    if text::blank(&req.tool) {
        return Err(ApiError::bad("tool is empty", "Pick a tool from GET /api/tools."));
    }
    if !folder_there {
        let mut m = "workspace not found: ".to_owned();
        m.append(&req.workspace);
        return Err(ApiError::bad(&m, "Select an existing workspace folder first (§27)."));
    }
    Ok(())
}

/// A grant for the session is recorded.
pub open spec fn grants(grant_session: bool, approved_once: bool, moderate_risk: bool) -> bool {
    grant_session && approved_once && moderate_risk
}

/// No grant is recorded that was not asked for, not without an approval, and
/// for no tool of another risk.
pub proof fn law_a_grant_needs_an_approval(
    grant_session: bool,
    approved_once: bool,
    moderate_risk: bool,
)
    ensures
        !grants(grant_session, false, moderate_risk),
        !grants(false, approved_once, moderate_risk),
        !grants(grant_session, approved_once, false),
        grants(true, true, true),
{
}

/// A grant for the session is recorded only beside an explicit approval, and
/// only for a tool of moderate risk.
pub fn records_grant(req: &ExecuteToolReq, moderate_risk: bool) -> (r: bool)
    ensures
        r == grants(req.grant_session, req.approved_once, moderate_risk),
{
    req.grant_session && req.approved_once && moderate_risk
}

/// How a call was let through.
#[derive(Clone, Copy, Debug, PartialEq, Eq, Structural)]
pub enum Via {
    /// By the mode, or by a grant recorded earlier.
    Auto,
    /// By an explicit approval.
    Once,
}

/// How a call passed, in a word.
pub fn via_word(v: Via) -> (s: &'static str)
    ensures
        s@ == (match v {
            Via::Auto => "auto"@,
            Via::Once => "once"@,
        }),
{
    match v {
        Via::Auto => "auto",
        Via::Once => "once",
    }
}

/// What does the work.
#[derive(Clone, Copy, Debug, PartialEq, Eq, Structural)]
pub enum Route {
    Document,
    Search,
    Tool,
}

/// Whether a call is let through.
#[derive(Debug, PartialEq, Eq)]
pub enum Passage {
    /// The call runs.
    Run { route: Route, via: Via },
    /// The call is refused; `record` is what is kept of it.
    Refused { refusal: ApiError, record: String },
}

/// The call runs: the permissions allow it, or it is approved where they ask;
/// a web search only ever runs when it is approved.
pub open spec fn runs(tool: Seq<char>, approved_once: bool, decision: Decision) -> bool {
    &&& !(decision is Deny)
    &&& decision is RequireApproval ==> approved_once
    &&& tool == "web_search"@ ==> approved_once
}

/// The route of a tool.
pub open spec fn route(tool: Seq<char>) -> Route {
    if tool == "create_document"@ {
        Route::Document
    } else if tool == "web_search"@ {
        Route::Search
    } else {
        Route::Tool
    }
}

/// How a call that runs was let through.
pub open spec fn via(tool: Seq<char>, decision: Decision) -> Via {
    if route(tool) != Route::Tool || decision is RequireApproval {
        Via::Once
    } else {
        Via::Auto
    }
}

/// The refusal of a call that does not run.
pub open spec fn passage_refusal(tool: Seq<char>, decision: Decision) -> Refusal {
    match decision {
        Decision::RequireApproval { reason } => Refusal {
            status: 403,
            message: "'"@ + tool + "' needs approval: "@ + reason@,
            hint: "Call again with approved_once:true, or grant_session:true for the session."@,
        },
        Decision::Deny { reason } => Refusal {
            status: 403,
            message: "'"@ + tool + "' is not allowed: "@ + reason@,
            hint: "Switch agent mode or perform this step manually."@,
        },
        Decision::Allow => Refusal {
            status: 403,
            message: "'web_search' needs approval: enable Search for this request"@,
            hint: "Call again with approved_once:true (the Search toggle sends this)."@,
        },
    }
}

/// What is kept of a call that does not run.
pub open spec fn passage_record(decision: Decision) -> Seq<char> {
    match decision {
        Decision::RequireApproval { reason } => "denied, approval required: "@ + reason@,
        Decision::Deny { reason } => "denied: "@ + reason@,
        Decision::Allow => "denied, approval required: enable Search for this request"@,
    }
}

fn quoted_with(tool: &str, middle: &str, reason: &str) -> (s: String)
    ensures
        s@ == "'"@ + tool@ + middle@ + reason@,
{
    let mut s = "'".to_owned();
    s.append(tool);
    s.append(middle);
    s.append(reason);
    s
}

/// Lets a call through, by what the permissions decided and whether it was approved.
/// A document and a search are always recorded as approved once.
pub fn pass(req: &ExecuteToolReq, decision: Decision) -> (r: Passage)
    ensures
        if runs(req.tool@, req.approved_once, decision) {
            r == (Passage::Run { route: route(req.tool@), via: via(req.tool@, decision) })
        } else {
            r matches Passage::Refused { refusal, record } && refusal@ == passage_refusal(
                req.tool@,
                decision,
            ) && record@ == passage_record(decision)
        },
{
    let asked = match decision {
        Decision::Deny { reason } => {
            let mut record = "denied: ".to_owned();
            record.append(&reason);
            let message = quoted_with(&req.tool, "' is not allowed: ", &reason);
            return Passage::Refused {
                refusal: ApiError::new(
                    403,
                    &message,
                    "Switch agent mode or perform this step manually.",
                ),
                record,
            };
        },
        Decision::RequireApproval { reason } => {
            if !req.approved_once {
                let mut record = "denied, approval required: ".to_owned();
                record.append(&reason);
                let message = quoted_with(&req.tool, "' needs approval: ", &reason);
                return Passage::Refused {
                    refusal: ApiError::new(
                        403,
                        &message,
                        "Call again with approved_once:true, or grant_session:true for the session.",
                    ),
                    record,
                };
            }
            true
        },
        Decision::Allow => false,
    };
    if text::same(&req.tool, "create_document") {
        proof {
            reveal_strlit("create_document");
            reveal_strlit("web_search");
            assert("create_document"@.len() != "web_search"@.len());
        }
        return Passage::Run { route: Route::Document, via: Via::Once };
    }
    if text::same(&req.tool, "web_search") {
        if !req.approved_once {
            return Passage::Refused {
                refusal: ApiError::new(
                    403,
                    "'web_search' needs approval: enable Search for this request",
                    "Call again with approved_once:true (the Search toggle sends this).",
                ),
                record: "denied, approval required: enable Search for this request".to_owned(),
            };
        }
        return Passage::Run { route: Route::Search, via: Via::Once };
    }
    Passage::Run { route: Route::Tool, via: if asked { Via::Once } else { Via::Auto } }
}

/// Neither a mode nor a grant releases a web search: without an approval of
/// the call itself it does not run, whatever the permissions decide.
pub proof fn law_search_needs_its_own_approval(decision: Decision)
    ensures
        !runs("web_search"@, false, decision),
{
}

/// What the permissions deny does not run, approved or not.
pub proof fn law_denied_calls_never_run(tool: Seq<char>, approved_once: bool, reason: String)
    ensures
        !runs(tool, approved_once, Decision::Deny { reason }),
{
}

/// What a call belongs to, for the record.
pub open spec fn recorded_session(conversation_id: Seq<char>) -> Seq<char> {
    if text::is_blank(conversation_id) {
        "direct"@
    } else {
        text::trimmed(conversation_id)
    }
}

/// What a document or a search belongs to.
pub fn session_of(conversation_id: &str) -> (s: String)
    ensures
        s@ == (if text::is_blank(conversation_id@) {
            "direct"@
        } else {
            conversation_id@
        }),
{
    if text::blank(conversation_id) {
        "direct".to_owned()
    } else {
        conversation_id.to_owned()
    }
}

/// `r` is the record of a call.
pub open spec fn recorded(r: ToolRecord, req: ExecuteToolReq, ok: bool, result: Seq<char>) -> bool {
    &&& r.conversation_id@ == recorded_session(req.conversation_id@)
    &&& r.tool@ == req.tool@
    &&& r.args@ == text::first_chars(req.args@, 4000)
    &&& r.result@ == text::first_chars(result, 4000)
    &&& r.approved == ok
}

/// A call as it is kept for the record.
pub fn audit(req: &ExecuteToolReq, ok: bool, result: &str) -> (r: ToolRecord)
    ensures
        recorded(r, *req, ok, result@),
{
    ToolRecord {
        conversation_id: if text::blank(&req.conversation_id) {
            "direct".to_owned()
        } else {
            text::trim(&req.conversation_id)
        },
        tool: req.tool.clone(),
        args: text::take_chars(&req.args, 4000),
        result: text::take_chars(result, 4000),
        approved: ok,
    }
}

/// `r` is the record of a search that ran.
pub open spec fn search_recorded(r: ToolRecord, req: ExecuteToolReq, output: Seq<char>) -> bool {
    &&& r.conversation_id@ == (if text::is_blank(req.conversation_id@) {
        "direct"@
    } else {
        req.conversation_id@
    })
    &&& r.tool@ == "web_search"@
    &&& r.args@ == text::first_chars(req.args@, 4000)
    &&& r.result@ == text::first_chars(output, 4000)
    &&& r.approved
}

/// A search that ran, as it is kept for the record.
pub fn audit_search(req: &ExecuteToolReq, output: &str) -> (r: ToolRecord)
    ensures
        search_recorded(r, *req, output@),
{
    ToolRecord {
        conversation_id: session_of(&req.conversation_id),
        tool: "web_search".to_owned(),
        args: text::take_chars(&req.args, 4000),
        result: text::take_chars(output, 4000),
        approved: true,
    }
}

/// The query of a search call.
pub open spec fn query_in(args: Seq<char>) -> Seq<char> {
    match boundary::json_string(args, "query"@) {
        Some(q) => q,
        None => Seq::empty(),
    }
}

/// The query of a search call: the text under `query`, or nothing.
pub fn search_query(args: &str) -> (q: String)
    ensures
        q@ == query_in(args@),
{
    query_or_nothing(boundary::json_string_field(args, "query"))
}

/// The query that was found, or nothing.
pub fn query_or_nothing(found: Option<String>) -> (q: String)
    ensures
        q@ == (match found {
            Some(q) => q@,
            None => Seq::empty(),
        }),
{
    match found {
        Some(q) => q,
        None => String::new(),
    }
}

/// The query as it is kept: 500 characters at most.
pub fn recorded_query(query: &str) -> (q: String)
    ensures
        q@ == text::first_chars(query@, 500),
{
    text::take_chars(query, 500)
}

/// The refusal of a search that failed.
pub fn search_failed(reason: &str) -> (e: ApiError)
    ensures
        e@ == error::bad_request(
            "Internet search failed: "@ + reason@,
            "Retry, or continue without web — the local model still works (§125)."@,
        ),
{
    let mut m = "Internet search failed: ".to_owned();
    m.append(reason);
    ApiError::bad(&m, "Retry, or continue without web — the local model still works (§125).")
}

/// The refusal of a document that could not be written.
pub fn document_failed(reason: &str) -> (e: ApiError)
    ensures
        e@ == error::bad_request(reason@, "Fix the filename/spec and retry."@),
{
    ApiError::bad(reason, "Fix the filename/spec and retry.")
}

/// Why a tool did not run.
#[derive(Clone, Copy, Debug, PartialEq, Eq, Structural)]
pub enum ToolFault {
    UnknownTool,
    InvalidArgs,
    Workspace,
    Other,
}

/// The refusal of a call whose tool did not run: the caller's fault, or ours.
pub fn tool_failed(fault: ToolFault, reason: &str) -> (e: ApiError)
    ensures
        e@ == (if fault == ToolFault::Other {
            error::failure(reason@)
        } else {
            error::bad_request(reason@, "Fix the tool arguments and retry."@)
        }),
{
    match fault {
        ToolFault::Other => ApiError::internal(reason),
        _ => ApiError::bad(reason, "Fix the tool arguments and retry."),
    }
}

// ---- how a call ends ---------------------------------------------------------------------------------------

/// How a call that was let through came out. A search's output is its provider
/// and its results as JSON. A tool that ran a program has its exit code.
#[derive(Debug, PartialEq, Eq)]
pub enum CallOutcome {
    Ran { ok: bool, output: String, exit_code: Option<i32> },
    Failed { fault: ToolFault, reason: String },
}

/// What the caller gets of a call that ran.
#[derive(Debug, PartialEq, Eq)]
pub struct CallAnswer {
    pub ok: bool,
    pub output: String,
    pub exit_code: Option<i32>,
    pub approved_via: &'static str,
}

/// The refusal of a call that failed.
pub open spec fn call_refusal(route: Route, fault: ToolFault, reason: Seq<char>) -> Refusal {
    match route {
        Route::Document => error::bad_request(reason, "Fix the filename/spec and retry."@),
        Route::Search => error::bad_request(
            "Internet search failed: "@ + reason,
            "Retry, or continue without web — the local model still works (§125)."@,
        ),
        Route::Tool => if fault == ToolFault::Other {
            error::failure(reason)
        } else {
            error::bad_request(reason, "Fix the tool arguments and retry."@)
        },
    }
}

/// How a call that was let through ends.
pub open spec fn finishes(
    req: ExecuteToolReq,
    route: Route,
    via: Via,
    outcome: CallOutcome,
    r: (ToolRecord, Result<CallAnswer, ApiError>),
) -> bool {
    match outcome {
        CallOutcome::Ran { ok, output, exit_code } => {
            let succeeded = route != Route::Tool || ok;
            &&& if route == Route::Search {
                search_recorded(r.0, req, output@)
            } else {
                recorded(r.0, req, succeeded, output@)
            }
            &&& r.1 is Ok
            &&& r.1->Ok_0.ok == succeeded
            &&& r.1->Ok_0.output@ == output@
            &&& r.1->Ok_0.exit_code == (if route == Route::Tool {
                exit_code
            } else {
                None
            })
            &&& r.1->Ok_0.approved_via@ == (if via == Via::Auto {
                "auto"@
            } else {
                "once"@
            })
        },
        CallOutcome::Failed { fault, reason } => {
            &&& recorded(r.0, req, false, reason@)
            &&& error::refusal_of(r.1) == Some(call_refusal(route, fault, reason@))
        },
    }
}

/// The caller gets all that a call put out, and the record tells of the call
/// whatever came of it: its tool, and as having gone well only where it did. A
/// call fails for the caller exactly where it did not run; what a tool reported,
/// and its exit code, are handed on.
pub proof fn law_a_call_is_told_as_it_came_out(
    req: ExecuteToolReq,
    route: Route,
    via: Via,
    outcome: CallOutcome,
    r: (ToolRecord, Result<CallAnswer, ApiError>),
)
    requires
        finishes(req, route, via, outcome, r),
        route == self::route(req.tool@),
    ensures
        r.1 is Ok <==> outcome is Ran,
        outcome matches CallOutcome::Ran { ok, output, exit_code } ==> {
            &&& r.1->Ok_0.output@ == output@
            &&& route == Route::Tool ==> r.1->Ok_0.ok == ok && r.1->Ok_0.exit_code == exit_code
            &&& route != Route::Tool ==> r.1->Ok_0.ok && r.1->Ok_0.exit_code is None
            &&& r.0.approved == r.1->Ok_0.ok
            &&& output@.len() <= 4000 ==> r.0.result@ == output@
            &&& output@.len() > 4000 ==> r.0.result@ == output@.take(4000)
        },
        outcome matches CallOutcome::Failed { fault, reason } ==> {
            &&& !r.0.approved
            &&& reason@.len() <= 4000 ==> r.0.result@ == reason@
            &&& error::refusal_of(r.1) is Some
        },
        r.0.tool@ == req.tool@,
        req.args@.len() <= 4000 ==> r.0.args@ == req.args@,
        text::is_blank(req.conversation_id@) ==> r.0.conversation_id@ == "direct"@,
{
    reveal_strlit("create_document");
    reveal_strlit("web_search");
    assert("create_document"@.len() == 15 && "web_search"@.len() == 10);
}

/// Ends a call that was let through: what is kept for the record, and what the
/// caller gets. A document or a search that came out counts as a success and
/// has no exit code; a tool counts by what it reported, and its exit code is
/// handed on.
pub fn finish_call(req: &ExecuteToolReq, route: Route, via: Via, outcome: CallOutcome) -> (r: (
    ToolRecord,
    Result<CallAnswer, ApiError>,
))
    ensures
        finishes(*req, route, via, outcome, r),
{
    match outcome {
        CallOutcome::Ran { ok, output, exit_code } => {
            let (record, succeeded, code) = match route {
                Route::Document => (audit(req, true, &output), true, None),
                Route::Search => (audit_search(req, &output), true, None),
                Route::Tool => (audit(req, ok, &output), ok, exit_code),
            };
            let answer = CallAnswer {
                ok: succeeded,
                output,
                exit_code: code,
                approved_via: via_word(via),
            };
            (record, Ok(answer))
        },
        CallOutcome::Failed { fault, reason } => {
            let record = audit(req, false, &reason);
            let refusal = match route {
                Route::Document => document_failed(&reason),
                Route::Search => search_failed(&reason),
                Route::Tool => tool_failed(fault, &reason),
            };
            (record, Err(refusal))
        },
    }
}

// ---- downloads -------------------------------------------------------------------------------------------

/// A text without quotation marks.
pub open spec fn unquoted(s: Seq<char>) -> Seq<char> {
    s.filter(|c: char| c != '"')
}

/// How a downloaded file is named to the browser; quotation marks leave the
/// name.
pub fn content_disposition(filename: &str) -> (s: String)
    ensures
        s@ == "attachment; filename=\""@ + unquoted(filename@) + "\""@,
{
    let v = text::chars_of(filename);
    let mut s = "attachment; filename=\"".to_owned();
    let ghost head = s@;
    let mut i: usize = 0;
    proof {
        reveal(Seq::filter);
        assert(unquoted(v@.take(0)) =~= Seq::<char>::empty());
        assert(head + unquoted(v@.take(0)) =~= head);
    }
    while i < v.len()
        invariant
            i <= v@.len(),
            s@ == head + unquoted(v@.take(i as int)),
        decreases v@.len() - i,
    {
        proof {
            reveal(Seq::filter);
            assert(v@.take(i + 1).drop_last() =~= v@.take(i as int));
            assert(v@.take(i + 1).last() == v@[i as int]);
        }
        if v[i] != '"' {
            let ghost before = s@;
            s.push(v[i]);
            assert(s@ =~= head + unquoted(v@.take(i as int)).push(v@[i as int]));
        }
        i += 1;
    }
    assert(v@.take(i as int) =~= filename@);
    s.append("\"");
    s
}

// ---- which calls run ------------------------------------------------------------------------------------

/// A call that is allowed runs, one that needs approval runs exactly where it is
/// approved, and one that is denied never does; a web search needs an approval
/// even where it is allowed.
pub proof fn law_which_calls_run(tool: Seq<char>, approved_once: bool, decision: Decision)
    ensures
        decision is Allow && tool != "web_search"@ ==> runs(tool, approved_once, decision),
        decision is Allow && tool == "web_search"@ ==> (runs(tool, approved_once, decision)
            <==> approved_once),
        decision is RequireApproval ==> (runs(tool, approved_once, decision) <==> approved_once),
        decision is Deny ==> !runs(tool, approved_once, decision),
{
}

/// A call goes to what does its work, and is told as let through by itself only
/// where an ordinary tool needed no approval.
pub proof fn law_how_a_call_goes(tool: Seq<char>, decision: Decision)
    ensures
        route(tool) == Route::Document <==> tool == "create_document"@,
        route(tool) == Route::Search <==> tool == "web_search"@,
        route(tool) == Route::Tool <==> tool != "create_document"@ && tool != "web_search"@,
        self::via(tool, decision) == Via::Auto <==> tool != "create_document"@ && tool != "web_search"@
            && !(decision is RequireApproval),
{
    reveal_strlit("create_document");
    reveal_strlit("web_search");
    assert("create_document"@.len() == 15 && "web_search"@.len() == 10);
}

/// A refused call names its tool and gives the reason, to the caller and in the
/// record.
pub proof fn law_a_refused_call_says_why(tool: Seq<char>, decision: Decision)
    requires
        !runs(tool, false, decision),
    ensures
        passage_refusal(tool, decision).status == 403,
        ("'"@ + tool + "' "@).is_prefix_of(passage_refusal(tool, decision).message),
        decision matches Decision::RequireApproval { reason } ==> reason@.is_suffix_of(
            passage_refusal(tool, decision).message,
        ) && reason@.is_suffix_of(passage_record(decision)),
        decision matches Decision::Deny { reason } ==> reason@.is_suffix_of(
            passage_refusal(tool, decision).message,
        ) && reason@.is_suffix_of(passage_record(decision)),
{
    reveal_strlit("' ");
    reveal_strlit("'");
    reveal_strlit("' needs approval: ");
    reveal_strlit("' is not allowed: ");
    reveal_strlit("web_search");
    reveal_strlit("'web_search' needs approval: enable Search for this request");
    let message = passage_refusal(tool, decision).message;
    let head = "'"@ + tool + "' "@;
    assert(head =~= message.subrange(0, head.len() as int));
    let record = passage_record(decision);
    match decision {
        Decision::RequireApproval { reason } => {
            let r = reason@;
            assert(r =~= message.subrange(message.len() - r.len(), message.len() as int));
            assert(r =~= record.subrange(record.len() - r.len(), record.len() as int));
        },
        Decision::Deny { reason } => {
            let r = reason@;
            assert(r =~= message.subrange(message.len() - r.len(), message.len() as int));
            assert(r =~= record.subrange(record.len() - r.len(), record.len() as int));
        },
        Decision::Allow => {},
    }
}

/// A call belongs to the session that it names, without the white space around
/// its id, or to none; two sessions are never taken for one.
pub proof fn law_a_call_belongs_to_its_session(one: Seq<char>, other: Seq<char>)
    ensures
        text::is_blank(one) ==> recorded_session(one) == "direct"@,
        !text::is_blank(one) ==> recorded_session(one) == text::trimmed(one),
        !text::is_blank(one) && !text::is_blank(other) && text::trimmed(one) != text::trimmed(other)
            ==> recorded_session(one) != recorded_session(other),
{
}

proof fn lemma_no_quotation_mark(name: Seq<char>)
    ensures
        !unquoted(name).contains('"'),
    decreases name.len(),
{
    reveal(Seq::filter);
    if name.len() > 0 {
        lemma_no_quotation_mark(name.drop_last());
        let before = unquoted(name.drop_last());
        let all = unquoted(name);
        if all.contains('"') {
            let i = choose|i: int| 0 <= i < all.len() && all[i] == '"';
            if i < before.len() {
                assert(before[i] == '"');
            }
        }
    }
}

/// Of a name only the quotation marks are left out: all other characters stay,
/// in their order.
pub proof fn law_only_quotation_marks_leave_a_name(name: Seq<char>, c: char)
    ensures
        c == '"' ==> unquoted(name.push(c)) == unquoted(name),
        c != '"' ==> unquoted(name.push(c)) == unquoted(name).push(c),
        !unquoted(name).contains('"'),
        unquoted(Seq::<char>::empty()) == Seq::<char>::empty(),
{
    reveal(Seq::filter);
    assert(name.push(c).drop_last() =~= name);
    lemma_no_quotation_mark(name);
}

/// A record tells the call: its tool, its arguments and its result, each whole
/// where it has at most 4,000 characters, and that it went well only where it
/// did. Two calls that differ in any of that are recorded differently.
pub proof fn law_a_record_tells_the_call(
    r: ToolRecord,
    q: ToolRecord,
    req: ExecuteToolReq,
    other: ExecuteToolReq,
    ok: bool,
    result: Seq<char>,
    another: Seq<char>,
)
    requires
        recorded(r, req, ok, result),
        recorded(q, other, ok, another),
    ensures
        r.tool@ == req.tool@ && r.approved == ok,
        req.args@.len() <= 4000 ==> r.args@ == req.args@,
        req.args@.len() > 4000 ==> r.args@ == req.args@.take(4000),
        result.len() <= 4000 ==> r.result@ == result,
        result.len() > 4000 ==> r.result@ == result.take(4000),
        req.tool@ != other.tool@ ==> r.tool@ != q.tool@,
        result != another && result.len() <= 4000 && another.len() <= 4000 ==> r.result@ != q.result@,
{
}

} // verus!

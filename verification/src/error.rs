//! Refusals: a status, a message for people and a hint on what to do, and the
//! checks on roles, message text and callers that give them.
use vstd::prelude::*;

use crate::decimal;
use crate::text;

verus! {

/// Bytes of a message at most.
pub const MAX_MESSAGE_CHARS: usize = 200_000;

/// A refused request.
#[derive(Debug, PartialEq, Eq)]
pub struct ApiError {
    pub status: u16,
    pub message: String,
    pub hint: String,
}

/// What a refusal says.
pub struct Refusal {
    pub status: u16,
    pub message: Seq<char>,
    pub hint: Seq<char>,
}

impl View for ApiError {
    type V = Refusal;

    open spec fn view(&self) -> Refusal {
        Refusal { status: self.status, message: self.message@, hint: self.hint@ }
    }
}

/// The refusal of a bad request.
pub open spec fn bad_request(message: Seq<char>, hint: Seq<char>) -> Refusal {
    Refusal { status: 400, message, hint }
}

/// The refusal for something that is not there.
pub open spec fn missing(message: Seq<char>) -> Refusal {
    Refusal { status: 404, message, hint: "Check the id and try again."@ }
}

/// The refusal for a failure inside.
pub open spec fn failure(message: Seq<char>) -> Refusal {
    Refusal {
        status: 500,
        message,
        hint: "The conversation was not lost. Check backend logs and retry."@,
    }
}

/// What refuses, if anything does.
pub open spec fn refusal_of<T>(r: Result<T, ApiError>) -> Option<Refusal> {
    match r {
        Ok(_) => None,
        Err(e) => Some(e@),
    }
}

impl ApiError {
    /// A refusal with the given status, message and hint.
    pub fn new(status: u16, message: &str, hint: &str) -> (e: ApiError)
        ensures
            e@ == (Refusal { status, message: message@, hint: hint@ }),
    {
        ApiError { status, message: message.to_owned(), hint: hint.to_owned() }
    }

    /// The refusal for something that is not there.
    pub fn not_found(message: &str) -> (e: ApiError)
        ensures
            e@ == missing(message@),
    {
        ApiError::new(404, message, "Check the id and try again.")
    }

    /// The refusal of a bad request.
    pub fn bad(message: &str, hint: &str) -> (e: ApiError)
        ensures
            e@ == bad_request(message@, hint@),
    {
        ApiError::new(400, message, hint)
    }

    /// The refusal for a failure inside.
    pub fn internal(message: &str) -> (e: ApiError)
        ensures
            e@ == failure(message@),
    {
        ApiError::new(
            500,
            message,
            "The conversation was not lost. Check backend logs and retry.",
        )
    }
}

// ---- roles and message text -----------------------------------------------------

/// A role that a message may have.
pub open spec fn is_role(role: Seq<char>) -> bool {
    role == "user"@ || role == "assistant"@ || role == "tool"@
}

/// Why a role is refused.
pub open spec fn role_refusal(role: Seq<char>) -> Option<Refusal> {
    if is_role(role) {
        None
    } else {
        Some(
            bad_request(
                "invalid role '"@ + role + "'"@,
                "Role must be one of: user, assistant, tool."@,
            ),
        )
    }
}

/// Accepts the roles a message may have.
pub fn validate_role(role: &str) -> (r: Result<(), ApiError>)
    ensures
        refusal_of(r) == role_refusal(role@),
{
    if text::same(role, "user") || text::same(role, "assistant") || text::same(role, "tool") {
        return Ok(());
    }
    let mut message = "invalid role '".to_owned();
    message.append(role);
    message.append("'");
    Err(ApiError::bad(&message, "Role must be one of: user, assistant, tool."))
}

/// Why message text is refused: it is blank, or it is too large.
pub open spec fn content_refusal(content: Seq<char>) -> Option<Refusal> {
    if text::is_blank(content) {
        Some(bad_request("message is empty"@, "Type a message before sending."@))
    } else if text::byte_len(content) > MAX_MESSAGE_CHARS {
        Some(
            Refusal {
                status: 413,
                message: "message too large ("@ + decimal::digits(text::byte_len(content))
                    + " chars, max 200000)"@,
                hint:
                    "Attach large files instead of pasting them; only relevant sections enter context (§69)."@,
            },
        )
    } else {
        None
    }
}

/// Accepts message text that says something and is not too large.
pub fn validate_content(content: &str) -> (r: Result<(), ApiError>)
    ensures
        refusal_of(r) == content_refusal(content@),
{
    if text::blank(content) {
        return Err(ApiError::bad("message is empty", "Type a message before sending."));
    }
    let n: usize = text::bytes_in(content);
    if n > MAX_MESSAGE_CHARS {
        let mut message = "message too large (".to_owned();
        let count = decimal::decimal(n as u64);
        message.append(&count);
        message.append(" chars, max 200000)");
        return Err(
            ApiError::new(
                413,
                &message,
                "Attach large files instead of pasting them; only relevant sections enter context (§69).",
            ),
        );
    }
    Ok(())
}

/// A message is taken exactly where it says something in no more than 200,000
/// bytes; a blank one is the sender's mistake, and one that is too large is
/// refused as that.
pub proof fn law_which_messages_are_taken(content: Seq<char>)
    ensures
        content_refusal(content) is None <==> !text::is_blank(content) && text::byte_len(content)
            <= 200_000,
        content_refusal(content) matches Some(r) ==> r.status == (if text::is_blank(content) {
            400u16
        } else {
            413u16
        }),
{
}

/// A message is the user's, the assistant's or a tool's; any other role is
/// refused by its name.
pub proof fn law_which_roles_are_taken(role: Seq<char>)
    ensures
        role_refusal(role) is None <==> (role == "user"@ || role == "assistant"@ || role
            == "tool"@),
        role_refusal(role) matches Some(r) ==> r.status == 400 && r.message == "invalid role '"@
            + role + "'"@,
{
}

/// What is wrong with a request, what is not there and what failed inside are
/// told apart by their status, and each says what it was given to say.
pub proof fn law_refusals_are_told_apart(message: Seq<char>, hint: Seq<char>)
    ensures
        bad_request(message, hint).status == 400,
        missing(message).status == 404,
        failure(message).status == 500,
        bad_request(message, hint).message == message,
        bad_request(message, hint).hint == hint,
        missing(message).message == message,
        failure(message).message == message,
{
}

} // verus!

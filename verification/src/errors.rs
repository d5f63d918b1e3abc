use vstd::prelude::*;
use vstd::string::StringExecFns;

verus! {

/// An error carried to the top of a session: a human-readable description of
/// the operation that failed, with the underlying cause's detail appended.
#[derive(Debug)]
pub struct SbtClientError {
    pub message: String,
}

/// Builds an error from a plain description of the failed operation.
pub fn error(message: &str) -> (e: SbtClientError)
    ensures
        e.message@ == message@,
{
    SbtClientError { message: message.to_owned() }
}

/// The text of an error built by `detailed_error`: the description of the
/// failed operation, a separator, then the underlying cause's detail.
pub open spec fn detailed_message(message: Seq<char>, details: Seq<char>) -> Seq<char> {
    message + ". Details: "@ + details
}

/// Builds an error from a description of the failed operation together with
/// the underlying cause's detail.
pub fn detailed_error(message: &str, details: &str) -> (e: SbtClientError)
    ensures
        e.message@ == detailed_message(message@, details@),
{
    let mut m = message.to_owned();
    m.append(". Details: ");
    m.append(details);
    SbtClientError { message: m }
}

} // verus!

use crate::util::text::{decimal, decimal_string};
use vstd::prelude::*;
use vstd::string::*;

verus! {

/// A failure of parsing or of handling a request. There is one kind of
/// failure; it carries a message meant for the client.
#[derive(Debug, Clone, PartialEq, Eq)]
pub struct ProtocolError {
    details: String,
}

impl View for ProtocolError {
    type V = Seq<char>;

    /// A failure is modelled by its message.
    closed spec fn view(&self) -> Seq<char> {
        self.details@
    }
}

impl ProtocolError {
    /// A failure with the given message.
    pub fn new(details: String) -> (error: ProtocolError)
        ensures
            error@ == details@,
    {
        ProtocolError { details }
    }

    /// The message of the failure.
    pub fn details(&self) -> (details: &str)
        ensures
            details@ == self@,
    {
        self.details.as_str()
    }
}

/// The message for a command that was given arguments though it takes none.
pub open spec fn too_many_arguments(command: Seq<char>) -> Seq<char> {
    command + " does not take additional arguments"@
}

/// The message for a command that was given too few arguments, with or
/// without the number it needs.
pub open spec fn too_few_arguments(command: Seq<char>, num: Option<u8>) -> Seq<char> {
    match num {
        Some(num) => command + " needs at least "@ + decimal(num as nat) + " arguments"@,
        None => command + " needs additional arguments"@,
    }
}

/// The message for a command that is not supported.
pub open spec fn unsupported_command(command: Seq<char>) -> Seq<char> {
    "Unsupported command: "@ + command
}

/// The message for a command that takes a fixed number of arguments and
/// was given another number.
pub open spec fn wrong_arity(command: Seq<char>, received: nat, expected: nat) -> Seq<char> {
    command + " received "@ + decimal(received) + " arguments, expected "@ + decimal(expected)
}

/// The failure for a command that takes a fixed number of arguments and was
/// given another number.
pub fn error_wrong_arity(command: &str, received: usize, expected: u8) -> (error: ProtocolError)
    ensures
        error@ == wrong_arity(command@, received as nat, expected as nat),
{
    let mut details = String::from_str(command);
    details.append(" received ");
    details.append(decimal_string(received as u64).as_str());
    details.append(" arguments, expected ");
    details.append(decimal_string(expected as u64).as_str());
    ProtocolError::new(details)
}

/// The failure for a command that was given arguments though it takes none.
pub fn error_too_many_arguments(command: &str) -> (error: ProtocolError)
    ensures
        error@ == too_many_arguments(command@),
{
    let mut details = String::from_str(command);
    details.append(" does not take additional arguments");
    ProtocolError::new(details)
}

/// The failure for a command that was given fewer arguments than it needs.
pub fn error_too_few_arguments(command: &str, num: Option<u8>) -> (error: ProtocolError)
    ensures
        error@ == too_few_arguments(command@, num),
{
    let mut details = String::from_str(command);
    match num {
        Some(num) => {
            details.append(" needs at least ");
            details.append(decimal_string(num as u64).as_str());
            details.append(" arguments");
        },
        None => {
            details.append(" needs additional arguments");
        },
    }
    ProtocolError::new(details)
}

/// The failure for a command that is not supported.
pub fn error_unsupported_command(command: &str) -> (error: ProtocolError)
    ensures
        error@ == unsupported_command(command@),
{
    let mut details = String::from_str("Unsupported command: ");
    details.append(command);
    ProtocolError::new(details)
}

} // verus!

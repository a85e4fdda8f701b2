//! The lines that a node shows on its console. The library builds them; the
//! program around it prints them.

use vstd::prelude::*;
use vstd::string::StringExecFns;

verus! {

/// The text that a payload is shown as: its bytes read as UTF-8, with each
/// malformed stretch replaced by U+FFFD, as `String::from_utf8_lossy` reads
/// them.
pub uninterp spec fn lossy_text(bytes: Seq<u8>) -> Seq<char>;

/// The line that announces a peer whose name was merged into the directory.
pub open spec fn joined_line(name: Seq<char>) -> Seq<char> {
    name + " has joined the chat!"@
}

/// The line that announces a peer that left.
pub open spec fn left_line(name: Seq<char>) -> Seq<char> {
    name + " has left the chat."@
}

/// The line that shows a chat message of the peer shown as `name`.
pub open spec fn message_line(name: Seq<char>, text: Seq<char>) -> Seq<char> {
    name + ": "@ + text
}

/// Calls `String::from_utf8_lossy` and copies what it gives into a `String`.
/// Trusted: the result is the text that [`lossy_text`] names for these bytes.
#[verifier::external_body]
pub(crate) fn text_of(bytes: &Vec<u8>) -> (text: String)
    ensures
        text@ == lossy_text(bytes@),
{
    String::from_utf8_lossy(bytes).into_owned()
}

/// Builds the line [`joined_line`] for `name`.
pub fn joined_notice(name: &String) -> (line: String)
    ensures
        line@ == joined_line(name@),
{
    name.clone().concat(" has joined the chat!")
}

/// Builds the line [`left_line`] for `name`.
pub fn left_notice(name: &String) -> (line: String)
    ensures
        line@ == left_line(name@),
{
    name.clone().concat(" has left the chat.")
}

/// Builds the line [`message_line`] for a sender's display name and the text
/// of its message.
pub fn message_notice(name: &String, text: &String) -> (line: String)
    ensures
        line@ == message_line(name@, text@),
{
    name.clone().concat(": ").concat(text.as_str())
}

} // verus!

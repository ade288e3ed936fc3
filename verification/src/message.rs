//! The texts of the notifications.

use crate::health::{health_name, zpool_health_to_string, Health};
use crate::text::{trim_end, trimmed};
use vstd::prelude::*;

verus! {

/// The file that the operating system writes logins to.
pub const AUTH_LOG_FILE_PATH: &'static str = "/var/log/auth.log";

/// What follows the host name in every text about a line of the log, up to
/// the line itself.
pub open spec fn line_quote(line: Seq<char>) -> Seq<char> {
    " Here's the relevant line from `"@ + AUTH_LOG_FILE_PATH@ + "`:\n\n`"@ + trimmed(line) + "`"@
}

/// The text that reports the login that `line` records, on the machine
/// `hostname`. The line is quoted without the white space at its end.
pub open spec fn new_login_text(hostname: Seq<char>, line: Seq<char>) -> Seq<char> {
    "There was a successful login on `"@ + hostname + "` from an unknown IP address."@
        + line_quote(line)
}

/// The text that reports the failed attempt that `line` records, on the
/// machine `hostname`. The line is quoted without the white space at its end.
pub open spec fn failed_login_text(hostname: Seq<char>, line: Seq<char>) -> Seq<char> {
    "There was a failed login attempt on `"@ + hostname + "`."@ + line_quote(line)
}

/// The text that reports that the pool `name` has entered the state `health`.
pub open spec fn pool_health_text(name: Seq<char>, health: Health) -> Seq<char> {
    "Zpool `"@ + name + "` entered the `"@ + health_name(health) + "` state."@
}

/// Appends to `text` the quotation of `line`.
fn append_line_quote(text: &mut String, line: &str)
    ensures
        final(text)@ == old(text)@ + line_quote(line@),
{
    let quoted = trim_end(line);
    text.append(" Here's the relevant line from `");
    text.append(AUTH_LOG_FILE_PATH);
    text.append("`:\n\n`");
    text.append(quoted.as_str());
    text.append("`");
}

/// Writes the text that reports the login that `line` records.
pub fn new_login_message(hostname: &str, line: &str) -> (text: String)
    ensures
        text@ == new_login_text(hostname@, line@),
{
    let mut text = String::from_str("There was a successful login on `");
    text.append(hostname);
    text.append("` from an unknown IP address.");
    append_line_quote(&mut text, line);
    text
}

/// Writes the text that reports the failed attempt that `line` records.
pub fn failed_login_message(hostname: &str, line: &str) -> (text: String)
    ensures
        text@ == failed_login_text(hostname@, line@),
{
    let mut text = String::from_str("There was a failed login attempt on `");
    text.append(hostname);
    text.append("`.");
    append_line_quote(&mut text, line);
    text
}

/// Writes the text that reports that the pool `name` has entered the state
/// `health`.
pub fn pool_health_message(name: &str, health: Health) -> (text: String)
    ensures
        text@ == pool_health_text(name@, health),
{
    let state = zpool_health_to_string(&health);
    let mut text = String::from_str("Zpool `");
    text.append(name);
    text.append("` entered the `");
    text.append(state.as_str());
    text.append("` state.");
    text
}

} // verus!

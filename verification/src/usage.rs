//! What the program says of itself: its version and how it is used.

use crate::text::{GREEN, RESET};
use vstd::prelude::*;
use vstd::string::*;

verus! {

/// The colour of the command names in the usage.
pub const YELLOW: &'static str = "\x1b[0;33m";

/// How many characters of a revision name make the version.
pub const VERSION_LEN: usize = 6;

/// The version of the program: the first six characters of the name of the
/// revision it was built from.
pub fn current_version(revision: &str) -> (version: &str)
    requires
        revision@.len() >= VERSION_LEN,
    ensures
        version@ == revision@.take(VERSION_LEN as int),
{
    let version = revision.substring_char(0, VERSION_LEN);
    assert(version@ =~= revision@.take(VERSION_LEN as int));
    version
}

/// A heading of the usage: a command's name in colour, then a colon.
pub open spec fn heading(name: Seq<char>) -> Seq<char> {
    YELLOW@ + name + RESET@ + ":\n"@
}

/// A line of the usage: a command whose first argument is in colour.
pub open spec fn usage_line(verb: Seq<char>, colored: Seq<char>, rest: Seq<char>) -> Seq<char> {
    "    keeper-todo "@ + verb + " "@ + GREEN@ + colored + RESET@ + rest + "\n"@
}

/// The usage text: every command with the forms it takes.
pub open spec fn usage(version: Seq<char>) -> Seq<char> {
    "keeper-todo ("@ + version + ") Felix Prasanna 2024\n"@
    + heading("help"@) + "    keeper-todo help\n"@
    + heading("add"@) + usage_line("add"@, "date"@, " hour desc"@)
    + heading("mark"@) + usage_line("mark"@, "date"@, " hour.index"@)
        + usage_line("mark"@, "date"@, " hour"@)
    + heading("change"@) + usage_line("change"@, "date"@, " hour.index new-hour"@)
        + usage_line("change"@, "date"@, " hour new-hour"@)
    + heading("show"@) + usage_line("show"@, "date"@, ""@) + usage_line("show"@, "count"@, ""@)
        + "    keeper-todo show\n"@
    + heading("render"@) + usage_line("render"@, "date"@, " path"@)
        + usage_line("render"@, "count"@, " path"@)
    + "\n"@
    + heading("terms"@) + "    date = "@ + GREEN@ + "(dd-mm-yy|today|tomorrow|yesterday)"@ + RESET@
}

/// Appends a heading of the usage.
fn push_heading(out: &mut String, name: &str)
    ensures
        final(out)@ == old(out)@ + heading(name@),
{
    out.append(YELLOW);
    out.append(name);
    out.append(RESET);
    out.append(":\n");
    assert(out@ =~= old(out)@ + heading(name@));
}

/// Appends a line of the usage.
fn push_usage_line(out: &mut String, verb: &str, colored: &str, rest: &str)
    ensures
        final(out)@ == old(out)@ + usage_line(verb@, colored@, rest@),
{
    out.append("    keeper-todo ");
    out.append(verb);
    out.append(" ");
    out.append(GREEN);
    out.append(colored);
    out.append(RESET);
    out.append(rest);
    out.append("\n");
    assert(out@ =~= old(out)@ + usage_line(verb@, colored@, rest@));
}

/// The usage text for the given version, without a line end after its last
/// line.
pub fn help(version: &str) -> (text: String)
    ensures
        text@ == usage(version@),
{
    let mut out = String::from_str("keeper-todo (");
    out.append(version);
    out.append(") Felix Prasanna 2024\n");
    push_heading(&mut out, "help");
    out.append("    keeper-todo help\n");
    push_heading(&mut out, "add");
    push_usage_line(&mut out, "add", "date", " hour desc");
    push_heading(&mut out, "mark");
    push_usage_line(&mut out, "mark", "date", " hour.index");
    push_usage_line(&mut out, "mark", "date", " hour");
    push_heading(&mut out, "change");
    push_usage_line(&mut out, "change", "date", " hour.index new-hour");
    push_usage_line(&mut out, "change", "date", " hour new-hour");
    push_heading(&mut out, "show");
    push_usage_line(&mut out, "show", "date", "");
    push_usage_line(&mut out, "show", "count", "");
    out.append("    keeper-todo show\n");
    push_heading(&mut out, "render");
    push_usage_line(&mut out, "render", "date", " path");
    push_usage_line(&mut out, "render", "count", " path");
    out.append("\n");
    push_heading(&mut out, "terms");
    out.append("    date = ");
    out.append(GREEN);
    out.append("(dd-mm-yy|today|tomorrow|yesterday)");
    out.append(RESET);
    assert(out@ =~= usage(version@));
    out
}

} // verus!

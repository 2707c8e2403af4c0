//! `$(command)` parts of a dialogue line: the text between `$(` and the
//! next `)` is run by the shell and the part is replaced by what it
//! printed. Finding the part and building its replacement is done here;
//! running the command is left to the caller.
use vstd::prelude::*;
use crate::text::{chars_of, replace_all, replace_chars, string_of, trim, trim_chars, join3};

verus! {

/// The number of leading characters of `s` that are not `)`.
pub open spec fn paren_free_run(s: Seq<char>) -> nat
    decreases s.len(),
{
    if s.len() == 0 || s[0] == ')' {
        0
    } else {
        1 + paren_free_run(s.drop_first())
    }
}

/// Whether a `$(command)` part starts at `i`: `$(`, one or more characters
/// other than `)`, then `)`.
pub open spec fn call_at(s: Seq<char>, i: int) -> bool {
    let k = paren_free_run(s.skip(i + 2));
    &&& 0 <= i
    &&& i + 1 < s.len()
    &&& s[i] == '$'
    &&& s[i + 1] == '('
    &&& k >= 1
    &&& i + 2 + k < s.len()
}

/// Where the leftmost `$(command)` part at or after `i` starts.
pub open spec fn first_call_from(s: Seq<char>, i: nat) -> Option<int>
    decreases s.len() - i,
{
    if i >= s.len() {
        None
    } else if call_at(s, i as int) {
        Some(i as int)
    } else {
        first_call_from(s, i + 1)
    }
}

/// The leftmost `$(command)` part of `s`, whole and its command, as the
/// pattern `\$\(([^)]+)\)` finds it.
pub open spec fn shell_call(s: Seq<char>) -> Option<(Seq<char>, Seq<char>)> {
    match first_call_from(s, 0) {
        Some(i) => {
            let k = paren_free_run(s.skip(i + 2)) as int;
            Some((s.subrange(i, i + 3 + k), s.subrange(i + 2, i + 2 + k)))
        },
        None => None,
    }
}

/// The plain-value model of an optional pair of strings.
pub open spec fn opt_pair_view(o: Option<(String, String)>) -> Option<(Seq<char>, Seq<char>)> {
    match o {
        Some(p) => Some((p.0@, p.1@)),
        None => None,
    }
}

/// The first match of the pattern `\$\(([^)]+)\)` in `text`, found with the
/// regex crate's `Regex::captures`: the whole match and its group. The
/// contract states the leftmost match that the crate documents.
#[verifier::external_body]
fn first_call_match(text: &str) -> (r: Option<(String, String)>)
    ensures
        opt_pair_view(r) == shell_call(text@),
{
    let re = regex::Regex::new(r"\$\(([^)]+)\)").unwrap();
    re.captures(text).map(|c| (c[0].to_string(), c[1].to_string()))
}

/// The next `$(command)` part of `text`: the part itself and the command,
/// trimmed; `None` where there is none.
pub fn next_shell_command(text: &str) -> (r: Option<(String, String)>)
    ensures
        opt_pair_view(r) == match shell_call(text@) {
            Some((whole, cmd)) => Some((whole, trim(cmd))),
            None => None,
        },
{
    match first_call_match(text) {
        Some((whole, cmd)) => {
            let c = chars_of(cmd.as_str());
            let t = trim_chars(c.as_slice());
            Some((whole, string_of(t.as_slice())))
        },
        None => None,
    }
}

/// How running a command went.
pub enum ShellOutcome {
    /// The shell ran; whether it exited with success, and what it printed
    /// on standard output.
    Exited { success: bool, stdout: String },
    /// The shell could not be started; the error's message.
    Failed(String),
}

/// The text that replaces a `$(command)` part: the output, trimmed, when
/// the command succeeded; else a bracketed note of what went wrong.
pub open spec fn replacement_text(cmd: Seq<char>, outcome: ShellOutcome) -> Seq<char> {
    match outcome {
        ShellOutcome::Exited { success: true, stdout } => trim(stdout@),
        ShellOutcome::Exited { success: false, .. } => "[命令执行失败: "@ + cmd + "]"@,
        ShellOutcome::Failed(e) => "[命令错误: "@ + e@ + "]"@,
    }
}

/// What a `$(command)` part is replaced by, given how running it went.
pub fn shell_replacement(cmd: &str, outcome: &ShellOutcome) -> (r: String)
    ensures
        r@ == replacement_text(cmd@, *outcome),
{
    match outcome {
        ShellOutcome::Exited { success, stdout } => {
            if *success {
                let c = chars_of(stdout.as_str());
                let t = trim_chars(c.as_slice());
                string_of(t.as_slice())
            } else {
                let c = chars_of(cmd);
                join3("[命令执行失败: ", c.as_slice(), "]")
            }
        },
        ShellOutcome::Failed(e) => {
            let c = chars_of(e.as_str());
            join3("[命令错误: ", c.as_slice(), "]")
        },
    }
}

/// `text` with every occurrence of the part `whole` replaced by
/// `replacement`.
pub fn substitute_call(text: &str, whole: &str, replacement: &str) -> (r: String)
    ensures
        r@ == replace_all(text@, whole@, replacement@),
{
    let t = chars_of(text);
    let w = chars_of(whole);
    let p = chars_of(replacement);
    let r = replace_chars(t.as_slice(), w.as_slice(), p.as_slice());
    string_of(r.as_slice())
}

} // verus!

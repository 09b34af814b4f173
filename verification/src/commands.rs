//! One-shot shell commands requested by the model with a `COMMAND:` line.
use vstd::prelude::*;

use crate::chat::{conversation, Message, Role};
use crate::config::SecurityConfig;
use crate::safety::{is_command_safe, safety_verdict};
use crate::text::{
    chars_of, concat, lemma_trim_end_append, lemma_trimmed_range, lemma_trimmed_trim_end,
    lemma_trimmed_twice, slice_range,
    starts_with, starts_with_chars, string_from_chars, trim, trim_end, trim_range, trim_start,
    trimmed,
};

verus! {

/// The index of the first line break at or after `start`, or the length of `s`.
pub open spec fn line_end(s: Seq<char>, start: int) -> int
    decreases s.len() - start,
{
    if start < 0 || start >= s.len() {
        s.len() as int
    } else if s[start] == '\n' {
        start
    } else {
        line_end(s, start + 1)
    }
}

/// Where `line_end` lands: on the first line break at or after `start`, or the end.
pub proof fn lemma_line_end(s: Seq<char>, start: int)
    requires
        0 <= start <= s.len(),
    ensures
        start <= line_end(s, start) <= s.len(),
        forall|j: int| start <= j < line_end(s, start) ==> s[j] != '\n',
        line_end(s, start) < s.len() ==> s[line_end(s, start)] == '\n',
    decreases s.len() - start,
{
    if start < s.len() && s[start] != '\n' {
        lemma_line_end(s, start + 1);
    }
}

/// The lines of `s` from index `start` on, split at each `\n`.
pub open spec fn lines_from(s: Seq<char>, start: int) -> Seq<Seq<char>>
    decreases s.len() + 1 - start,
{
    if start < 0 || start > s.len() {
        seq![]
    } else {
        let e = line_end(s, start);
        proof {
            lemma_line_end(s, start);
        }
        seq![s.subrange(start, e)] + lines_from(s, e + 1)
    }
}

/// The lines of `s`.
pub open spec fn lines(s: Seq<char>) -> Seq<Seq<char>> {
    lines_from(s, 0)
}

/// The command named by the first line that, trimmed, starts with `COMMAND:`:
/// the rest of that line, trimmed.
pub open spec fn command_in_lines(ls: Seq<Seq<char>>) -> Option<Seq<char>>
    decreases ls.len(),
{
    if ls.len() == 0 {
        None
    } else {
        let t = trimmed(ls[0]);
        if starts_with(t, "COMMAND:"@) {
            Some(trimmed(t.subrange("COMMAND:"@.len() as int, t.len() as int)))
        } else {
            command_in_lines(ls.drop_first())
        }
    }
}

/// `line_end` is the first line break at or after `start` (or the end).
proof fn lemma_line_end_is(s: Seq<char>, start: int, k: int)
    requires
        0 <= start <= k <= s.len(),
        forall|j: int| start <= j < k ==> s[j] != '\n',
        k < s.len() ==> s[k] == '\n',
    ensures
        line_end(s, start) == k,
{
    lemma_line_end(s, start);
}

/// The lines of `a + r` from inside `r` are the lines of `r`.
proof fn lemma_lines_shift(a: Seq<char>, r: Seq<char>, i: int)
    requires
        0 <= i,
    ensures
        lines_from(a + r, a.len() + i) == lines_from(r, i),
    decreases r.len() + 1 - i,
{
    let s = a + r;
    if i <= r.len() {
        let e = line_end(r, i);
        lemma_line_end(r, i);
        assert forall|j: int| a.len() + i <= j < a.len() + e implies s[j] != '\n' by {
            assert(s[j] == r[j - a.len()]);
        }
        if e < r.len() {
            assert(s[a.len() + e] == r[e]);
        }
        lemma_line_end_is(s, a.len() + i, a.len() + e);
        assert(s.subrange(a.len() + i, a.len() + e) =~= r.subrange(i, e));
        lemma_lines_shift(a, r, e + 1);
        assert(a.len() + e + 1 == a.len() + (e + 1));
    }
}

/// Law: a line that does not, trimmed, begin with `COMMAND:` is passed over: the
/// command of `line` + newline + `rest` is the command of `rest`.
pub proof fn law_other_line_passed_over(line: Seq<char>, rest: Seq<char>)
    requires
        forall|i: int| 0 <= i < line.len() ==> line[i] != '\n',
        !starts_with(trimmed(line), "COMMAND:"@),
    ensures
        command_in_lines(lines(line + "\n"@ + rest)) == command_in_lines(lines(rest)),
{
    reveal_strlit("\n");
    let a = line + "\n"@;
    let s = a + rest;
    assert forall|j: int| 0 <= j < line.len() implies s[j] != '\n' by {
        assert(s[j] == line[j]);
    }
    assert(s[line.len() as int] == '\n');
    lemma_line_end_is(s, 0, line.len() as int);
    assert(s.subrange(0, line.len() as int) =~= line);
    lemma_lines_shift(a, rest, 0);
    assert(lines_from(s, 0).drop_first() =~= lines_from(s, line.len() as int + 1));
}

/// Law: a line `COMMAND:` followed by text gives that text, trimmed, as the command.
pub proof fn law_command_line(x: Seq<char>)
    requires
        forall|i: int| 0 <= i < x.len() ==> x[i] != '\n',
    ensures
        command_in_lines(lines("COMMAND:"@ + x)) == Some(trimmed(x)),
{
    reveal_strlit("COMMAND:");
    let p = "COMMAND:"@;
    let s = p + x;
    assert forall|j: int| 0 <= j < s.len() implies s[j] != '\n' by {
        if j >= p.len() {
            assert(s[j] == x[j - p.len()]);
        }
    }
    lemma_line_end_is(s, 0, s.len() as int);
    assert(s.subrange(0, s.len() as int) =~= s);
    assert(lines_from(s, s.len() as int + 1) =~= Seq::<Seq<char>>::empty());
    let ls = lines_from(s, 0);
    assert(ls.drop_first() =~= Seq::<Seq<char>>::empty());
    assert(trim_start(s) == s);
    lemma_trim_end_append(p, x);
    let t = trimmed(s);
    assert(t == p + trim_end(x));
    assert(t.subrange(0, 8) =~= p);
    assert(t.subrange(8, t.len() as int) =~= trim_end(x));
    lemma_trimmed_trim_end(x);
}

/// The lines of `s` + newline + `r` are the lines of `s` followed by those of `r`.
proof fn lemma_lines_append(s: Seq<char>, r: Seq<char>, i: int)
    requires
        0 <= i <= s.len(),
    ensures
        lines_from(s + "\n"@ + r, i) == lines_from(s, i) + lines_from(r, 0),
    decreases s.len() + 1 - i,
{
    reveal_strlit("\n");
    let a = s + "\n"@;
    let z = a + r;
    let e = line_end(s, i);
    lemma_line_end(s, i);
    assert forall|j: int| i <= j < e implies z[j] != '\n' by {
        assert(z[j] == s[j]);
    }
    if e < s.len() {
        assert(z[e] == s[e]);
    } else {
        assert(z[e] == '\n');
    }
    lemma_line_end_is(z, i, e);
    assert(z.subrange(i, e) =~= s.subrange(i, e));
    if e < s.len() {
        lemma_lines_append(s, r, e + 1);
    } else {
        lemma_lines_shift(a, r, 0);
        assert(lines_from(s, e + 1) =~= Seq::<Seq<char>>::empty());
    }
    assert(lines_from(z, i) =~= lines_from(s, i) + lines_from(r, 0));
}

/// No line holds a line break.
proof fn lemma_lines_single(s: Seq<char>, i: int)
    requires
        0 <= i,
    ensures
        forall|k: int, j: int|
            0 <= k < lines_from(s, i).len() && 0 <= j < lines_from(s, i)[k].len()
                ==> lines_from(s, i)[k][j] != '\n',
    decreases s.len() + 1 - i,
{
    if i <= s.len() {
        let e = line_end(s, i);
        lemma_line_end(s, i);
        lemma_lines_single(s, e + 1);
        let ls = lines_from(s, i);
        assert forall|k: int, j: int| 0 <= k < ls.len() && 0 <= j < ls[k].len() implies ls[k][j]
            != '\n' by {
            if k == 0 {
                assert(ls[0][j] == s[i + j]);
            } else {
                assert(ls[k] == lines_from(s, e + 1)[k - 1]);
            }
        }
    }
}

/// The command found in some lines stays found when lines are added after them,
/// and it is trimmed and free of line breaks when the lines are.
proof fn lemma_command_in_prefix(ls: Seq<Seq<char>>, more: Seq<Seq<char>>)
    requires
        command_in_lines(ls) is Some,
        forall|k: int, j: int| 0 <= k < ls.len() && 0 <= j < ls[k].len() ==> ls[k][j] != '\n',
    ensures
        command_in_lines(ls + more) == command_in_lines(ls),
        trimmed(command_in_lines(ls)->0) == command_in_lines(ls)->0,
        forall|j: int|
            0 <= j < command_in_lines(ls)->0.len() ==> command_in_lines(ls)->0[j] != '\n',
    decreases ls.len(),
{
    reveal_strlit("COMMAND:");
    let both = ls + more;
    assert(both[0] == ls[0]);
    let t = trimmed(ls[0]);
    if starts_with(t, "COMMAND:"@) {
        let rest = t.subrange(8, t.len() as int);
        let c = trimmed(rest);
        lemma_trimmed_twice(rest);
        let (k1, m1) = lemma_trimmed_range(ls[0]);
        let (k2, m2) = lemma_trimmed_range(rest);
        assert forall|j: int| 0 <= j < c.len() implies c[j] != '\n' by {
            assert(c[j] == rest[k2 + j]);
            assert(rest[k2 + j] == t[8 + k2 + j]);
            assert(t[8 + k2 + j] == ls[0][k1 + 8 + k2 + j]);
        }
    } else {
        assert(both.drop_first() =~= ls.drop_first() + more);
        assert forall|k: int, j: int|
            0 <= k < ls.drop_first().len() && 0 <= j < ls.drop_first()[k].len() implies ls.drop_first()[k][j]
            != '\n' by {
            assert(ls.drop_first()[k] == ls[k + 1]);
        }
        lemma_command_in_prefix(ls.drop_first(), more);
    }
}

/// Law: text after a line break that follows the first command line never changes
/// the command found, and that command is trimmed and holds no line break.
pub proof fn law_command_unchanged_by_later_text(s: Seq<char>, r: Seq<char>)
    requires
        command_in_lines(lines(s)) is Some,
    ensures
        command_in_lines(lines(s + "\n"@ + r)) == command_in_lines(lines(s)),
        trimmed(command_in_lines(lines(s))->0) == command_in_lines(lines(s))->0,
        forall|j: int|
            0 <= j < command_in_lines(lines(s))->0.len() ==> command_in_lines(lines(s))->0[j]
                != '\n',
{
    lemma_lines_append(s, r, 0);
    lemma_lines_single(s, 0);
    lemma_command_in_prefix(lines(s), lines(r));
}

/// The index of the first line break at or after `start`, or the length of `s`.
fn find_line_end(s: &Vec<char>, start: usize) -> (e: usize)
    requires
        start <= s@.len(),
    ensures
        e == line_end(s@, start as int),
{
    let mut i = start;
    while i < s.len() && s[i] != '\n'
        invariant
            start <= i <= s@.len(),
            line_end(s@, start as int) == line_end(s@, i as int),
        decreases s@.len() - i,
    {
        i = i + 1;
    }
    i
}

/// Finds the command in a model reply: the first line that, trimmed, begins with
/// `COMMAND:` gives the command, which is the rest of that line, trimmed.
pub fn extract_command(response_text: &str) -> (r: Option<String>)
    ensures
        match r {
            Some(c) => command_in_lines(lines(response_text@)) == Some(c@),
            None => command_in_lines(lines(response_text@)) is None,
        },
{
    let s = chars_of(response_text);
    let prefix = chars_of("COMMAND:");
    let mut start: usize = 0;
    while start <= s.len()
        invariant
            s@ == response_text@,
            prefix@ == "COMMAND:"@,
            command_in_lines(lines(s@)) == command_in_lines(lines_from(s@, start as int)),
        decreases s@.len() + 1 - start,
    {
        let e = find_line_end(&s, start);
        proof {
            lemma_line_end(s@, start as int);
        }
        let (a, b) = trim_range(&s, start, e);
        let line = slice_range(&s, a, b);
        let ghost ls = lines_from(s@, start as int);
        assert(ls[0] == s@.subrange(start as int, e as int));
        if starts_with_chars(&line, &prefix) {
            let (c, d) = trim_range(&line, prefix.len(), line.len());
            let cmd = slice_range(&line, c, d);
            return Some(string_from_chars(cmd.as_slice()));
        }
        assert(ls.drop_first() =~= lines_from(s@, e + 1));
        assert(command_in_lines(ls) == command_in_lines(lines_from(s@, e + 1)));
        if e == s.len() {
            assert(lines_from(s@, e + 1) =~= Seq::<Seq<char>>::empty());
            assert(command_in_lines(lines_from(s@, e + 1)) is None);
            return None;
        }
        start = e + 1;
    }
    None
}

/// What to do with a command the model asked for.
pub enum CommandPlan {
    /// The safety filter refused it; `reason` says why.
    Blocked { reason: String },
    /// Run this command line (the requested one, trimmed).
    Run { command: String },
}

/// Decides on a requested command. A refused command gets an assistant message
/// `Safety block: <reason>` appended to the conversation; an allowed one is handed
/// back trimmed, to be run, with the conversation unchanged.
pub fn plan_command(messages: &mut Vec<Message>, command: &str, security: &SecurityConfig) -> (r:
    CommandPlan)
    ensures
        match safety_verdict(command@, security.denylist.deep_view()) {
            Ok(()) => r matches CommandPlan::Run { command: c } && c@ == trimmed(command@)
                && conversation(final(messages)@) == conversation(old(messages)@),
            Err(why) => r matches CommandPlan::Blocked { reason } && reason@ == why
                && conversation(final(messages)@) == conversation(old(messages)@).push(
                (Role::Assistant, "Safety block: "@ + why),
            ),
        },
{
    match is_command_safe(command, security) {
        Err(e) => {
            let text = concat("Safety block: ", e.as_str());
            let ghost before = messages@;
            messages.push(Message::new(Role::Assistant, text));
            assert(conversation(messages@) =~= conversation(before).push(
                (Role::Assistant, "Safety block: "@ + e@),
            ));
            CommandPlan::Blocked { reason: e }
        },
        Ok(()) => CommandPlan::Run { command: trim(command) },
    }
}

/// The text recorded for a refused command in the chat log: `Blocked: <reason>`.
pub fn blocked_log_entry(reason: &str) -> (r: String)
    ensures
        r@ == "Blocked: "@ + reason@,
{
    concat("Blocked: ", reason)
}

/// Appends the output of a command that ran to the conversation, as a tool message
/// `Tool output from COMMAND '<command trimmed>':\nSTDOUT:\n<out>\nSTDERR:\n<err>`.
pub fn record_command_output(messages: &mut Vec<Message>, command: &str, stdout: &str, stderr: &str)
    ensures
        conversation(final(messages)@) == conversation(old(messages)@).push(
            (
                Role::Tool,
                "Tool output from COMMAND '"@ + trimmed(command@) + "':\nSTDOUT:\n"@ + stdout@
                    + "\nSTDERR:\n"@ + stderr@,
            ),
        ),
{
    let mut text = String::from_str("Tool output from COMMAND '");
    let t = trim(command);
    text.append(t.as_str());
    text.append("':\nSTDOUT:\n");
    text.append(stdout);
    text.append("\nSTDERR:\n");
    text.append(stderr);
    let ghost before = messages@;
    let ghost content = text@;
    messages.push(Message::new(Role::Tool, text));
    assert(conversation(messages@) =~= conversation(before).push((Role::Tool, content)));
}

} // verus!

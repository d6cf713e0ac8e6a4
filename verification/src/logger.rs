//! Rendering of a message as one log line. Writing the daily-rotated files is
//! the program's part.

use vstd::prelude::*;

use crate::model::DebugMessage;
use crate::text::{decimal, replace_all, replace_str, u32_to_decimal};

verus! {

/// The placeholder of the capture time.
pub open spec fn time_placeholder() -> Seq<char> {
    "{time}"@
}

/// The placeholder of the process id.
pub open spec fn pid_placeholder() -> Seq<char> {
    "{pid}"@
}

/// The placeholder of the process name.
pub open spec fn process_placeholder() -> Seq<char> {
    "{process}"@
}

/// The placeholder of the message text.
pub open spec fn message_placeholder() -> Seq<char> {
    "{message}"@
}

/// What stands for an unknown process name.
pub open spec fn unknown_process() -> Seq<char> {
    "-"@
}

/// The line for `line_format`: `{time}`, `{pid}`, `{process}` and `{message}`
/// replaced in that order, each everywhere it occurs.
pub open spec fn render_line_spec(
    line_format: Seq<char>,
    time: Seq<char>,
    pid: Seq<char>,
    process: Seq<char>,
    message: Seq<char>,
) -> Seq<char> {
    replace_all(
        replace_all(
            replace_all(replace_all(line_format, time_placeholder(), time), pid_placeholder(), pid),
            process_placeholder(),
            process,
        ),
        message_placeholder(),
        message,
    )
}

/// The process name written for `name`.
pub open spec fn process_text(name: Option<String>) -> Seq<char> {
    match name {
        Some(n) => n@,
        None => unknown_process(),
    }
}

/// The line that `format_line` renders for `msg`.
pub open spec fn format_line_spec(line_format: Seq<char>, msg: DebugMessage) -> Seq<char> {
    render_line_spec(
        line_format,
        msg.timestamp.text_spec(),
        decimal(msg.pid as nat),
        process_text(msg.process_name),
        msg.text@,
    )
}

/// Fills the placeholders of `line_format` with a written time, a process id,
/// a process name (`-` when unknown) and a message text.
pub fn render_line(
    line_format: &str,
    time: &str,
    pid: u32,
    process: Option<&str>,
    message: &str,
) -> (line: String)
    ensures
        line@ == render_line_spec(
            line_format@,
            time@,
            decimal(pid as nat),
            match process {
                Some(p) => p@,
                None => unknown_process(),
            },
            message@,
        ),
{
    proof {
        reveal_strlit("{time}");
        reveal_strlit("{pid}");
        reveal_strlit("{process}");
        reveal_strlit("{message}");
    }
    let process_name = match process {
        Some(p) => p,
        None => "-",
    };
    let pid_text = u32_to_decimal(pid);
    let a = replace_str(line_format, "{time}", time);
    let b = replace_str(a.as_str(), "{pid}", pid_text.as_str());
    let c = replace_str(b.as_str(), "{process}", process_name);
    replace_str(c.as_str(), "{message}", message)
}

/// Renders `msg` as one line (without line break) after `line_format`, whose
/// placeholders are `{time}` `{pid}` `{process}` `{message}`.
pub fn format_line(line_format: &str, msg: &DebugMessage) -> (line: String)
    ensures
        line@ == format_line_spec(line_format@, *msg),
{
    let time = msg.timestamp.text();
    let process = match &msg.process_name {
        Some(n) => Some(n.as_str()),
        None => None,
    };
    render_line(line_format, time.as_str(), msg.pid, process, msg.text.as_str())
}

/// Text with no `{` is left as it is by every replacement of a placeholder.
proof fn lemma_replace_without_brace(s: Seq<char>, pat: Seq<char>, rep: Seq<char>)
    requires
        pat.len() > 0,
        pat[0] == '{',
        forall|i: int| 0 <= i < s.len() ==> s[i] != '{',
    ensures
        replace_all(s, pat, rep) == s,
    decreases s.len(),
{
    if s.len() >= pat.len() {
        assert(s.take(pat.len() as int)[0] != pat[0]);
        let t = s.skip(1);
        assert forall|i: int| 0 <= i < t.len() implies t[i] != '{' by {
            assert(t[i] == s[i + 1]);
        }
        lemma_replace_without_brace(t, pat, rep);
        assert(seq![s[0]] + t =~= s);
    }
}

/// Replacing a pattern that occurs nowhere in `s` leaves `s` as it is.
proof fn lemma_replace_absent(s: Seq<char>, pat: Seq<char>, rep: Seq<char>)
    requires
        pat.len() > 0,
        forall|i: int|
            0 <= i && i + pat.len() <= s.len() ==> #[trigger] s.subrange(i, i + pat.len()) != pat,
    ensures
        replace_all(s, pat, rep) == s,
    decreases s.len(),
{
    if s.len() >= pat.len() {
        let z: int = 0;
        assert(s.take(pat.len() as int) =~= s.subrange(z, z + pat.len()));
        assert(s.subrange(z, z + pat.len()) != pat);
        let t = s.skip(1);
        assert forall|i: int| 0 <= i && i + pat.len() <= t.len() implies #[trigger] t.subrange(
            i,
            i + pat.len(),
        ) != pat by {
            assert(t.subrange(i, i + pat.len()) =~= s.subrange(i + 1, i + 1 + pat.len()));
        }
        lemma_replace_absent(t, pat, rep);
        assert(seq![s[0]] + t =~= s);
    }
}

/// A placeholder that starts with `{` and differs from `s` at position `d`
/// does not occur in `s` when `s` has `{` only at its start.
proof fn lemma_placeholder_absent(s: Seq<char>, pat: Seq<char>, d: int)
    requires
        1 <= d < s.len(),
        d < pat.len(),
        pat[0] == '{',
        s[d] != pat[d],
        forall|k: int| 1 <= k < s.len() ==> s[k] != '{',
    ensures
        forall|i: int|
            0 <= i && i + pat.len() <= s.len() ==> #[trigger] s.subrange(i, i + pat.len()) != pat,
{
    assert forall|i: int| 0 <= i && i + pat.len() <= s.len() implies #[trigger] s.subrange(
        i,
        i + pat.len(),
    ) != pat by {
        if i == 0 {
            assert(s.subrange(i, i + pat.len())[d] == s[d]);
        } else {
            assert(s.subrange(i, i + pat.len())[0] == s[i]);
        }
    }
}

/// The format `{message}` writes the message text exactly as it stands,
/// whatever the time, process id and process name.
pub proof fn law_message_is_written_verbatim(
    time: Seq<char>,
    pid: Seq<char>,
    process: Seq<char>,
    message: Seq<char>,
)
    ensures
        render_line_spec("{message}"@, time, pid, process, message) == message,
{
    reveal_strlit("{message}");
    reveal_strlit("{time}");
    reveal_strlit("{pid}");
    reveal_strlit("{process}");
    let f = "{message}"@;
    assert(forall|k: int| 1 <= k < f.len() ==> f[k] != '{');
    lemma_placeholder_absent(f, time_placeholder(), 1);
    lemma_replace_absent(f, time_placeholder(), time);
    lemma_placeholder_absent(f, pid_placeholder(), 1);
    lemma_replace_absent(f, pid_placeholder(), pid);
    lemma_placeholder_absent(f, process_placeholder(), 1);
    lemma_replace_absent(f, process_placeholder(), process);
    assert(f.take(9) =~= message_placeholder());
    assert(f.skip(9) =~= Seq::<char>::empty());
    assert(replace_all(f.skip(9), message_placeholder(), message) == f.skip(9));
    assert(replace_all(f, message_placeholder(), message) =~= message);
}

/// A message rendered with the format `{message}` is its text, unchanged.
pub proof fn law_format_line_keeps_message_text(msg: DebugMessage)
    ensures
        format_line_spec("{message}"@, msg) == msg.text@,
{
    law_message_is_written_verbatim(
        msg.timestamp.text_spec(),
        decimal(msg.pid as nat),
        process_text(msg.process_name),
        msg.text@,
    );
}

/// The format `{pid}` writes the process id text, when that text holds no `{`.
pub proof fn law_pid_is_written(time: Seq<char>, pid: Seq<char>, process: Seq<char>, message: Seq<char>)
    requires
        forall|k: int| 0 <= k < pid.len() ==> pid[k] != '{',
    ensures
        render_line_spec("{pid}"@, time, pid, process, message) == pid,
{
    reveal_strlit("{message}");
    reveal_strlit("{time}");
    reveal_strlit("{pid}");
    reveal_strlit("{process}");
    let f = "{pid}"@;
    assert(forall|k: int| 1 <= k < f.len() ==> f[k] != '{');
    lemma_placeholder_absent(f, time_placeholder(), 1);
    lemma_replace_absent(f, time_placeholder(), time);
    assert(f.take(5) =~= pid_placeholder());
    assert(f.skip(5) =~= Seq::<char>::empty());
    assert(replace_all(f.skip(5), pid_placeholder(), pid) == f.skip(5));
    assert(replace_all(f, pid_placeholder(), pid) =~= pid);
    lemma_replace_without_brace(pid, process_placeholder(), process);
    lemma_replace_without_brace(pid, message_placeholder(), message);
}

/// The format `{process}` writes the process name, when it holds no `{`.
pub proof fn law_process_is_written(
    time: Seq<char>,
    pid: Seq<char>,
    process: Seq<char>,
    message: Seq<char>,
)
    requires
        forall|k: int| 0 <= k < process.len() ==> process[k] != '{',
    ensures
        render_line_spec("{process}"@, time, pid, process, message) == process,
{
    reveal_strlit("{message}");
    reveal_strlit("{time}");
    reveal_strlit("{pid}");
    reveal_strlit("{process}");
    let f = "{process}"@;
    assert(forall|k: int| 1 <= k < f.len() ==> f[k] != '{');
    lemma_placeholder_absent(f, time_placeholder(), 1);
    lemma_replace_absent(f, time_placeholder(), time);
    lemma_placeholder_absent(f, pid_placeholder(), 2);
    lemma_replace_absent(f, pid_placeholder(), pid);
    assert(f.take(9) =~= process_placeholder());
    assert(f.skip(9) =~= Seq::<char>::empty());
    assert(replace_all(f.skip(9), process_placeholder(), process) == f.skip(9));
    assert(replace_all(f, process_placeholder(), process) =~= process);
    lemma_replace_without_brace(process, message_placeholder(), message);
}

proof fn lemma_decimal_has_no_brace(n: nat)
    ensures
        forall|k: int| 0 <= k < decimal(n).len() ==> decimal(n)[k] != '{',
    decreases n,
{
    if n >= 10 {
        lemma_decimal_has_no_brace(n / 10);
        let d = decimal(n);
        assert forall|k: int| 0 <= k < d.len() implies d[k] != '{' by {
            if k < decimal(n / 10).len() {
                assert(d[k] == decimal(n / 10)[k]);
            }
        }
    }
}

/// A message rendered with the format `{pid}` is its process id in decimal.
pub proof fn law_format_line_writes_pid(msg: DebugMessage)
    ensures
        format_line_spec("{pid}"@, msg) == decimal(msg.pid as nat),
{
    lemma_decimal_has_no_brace(msg.pid as nat);
    law_pid_is_written(
        msg.timestamp.text_spec(),
        decimal(msg.pid as nat),
        process_text(msg.process_name),
        msg.text@,
    );
}

/// A line format without placeholders is written as it stands, whatever the message.
pub proof fn law_format_without_placeholders_is_kept(
    line_format: Seq<char>,
    time: Seq<char>,
    pid: Seq<char>,
    process: Seq<char>,
    message: Seq<char>,
)
    requires
        forall|i: int| 0 <= i < line_format.len() ==> line_format[i] != '{',
    ensures
        render_line_spec(line_format, time, pid, process, message) == line_format,
{
    reveal_strlit("{time}");
    reveal_strlit("{pid}");
    reveal_strlit("{process}");
    reveal_strlit("{message}");
    lemma_replace_without_brace(line_format, time_placeholder(), time);
    lemma_replace_without_brace(line_format, pid_placeholder(), pid);
    lemma_replace_without_brace(line_format, process_placeholder(), process);
    lemma_replace_without_brace(line_format, message_placeholder(), message);
}

} // verus!

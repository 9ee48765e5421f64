//! `tether exec`: running one command on the device's shell and capturing just
//! its output and status.
//!
//! The command is bracketed by two markers with a random tag. The caller keeps
//! only what stands between the begin marker's line and the end marker, which
//! is immune to terminal line-wrapping of the echoed command.

use vstd::prelude::*;
use vstd::slice::*;
use vstd::string::*;

use crate::client::CliError;
use crate::command::{apply_newline, terminator, ExecArgs};
use crate::ids::{fresh_hex_tag, is_lower_hex};
use crate::message::{RunParams, UntilSpec};
use crate::text::{
    all_digits, cat2, cat3, cat4, cat5, chars_eq, chars_of, dec_u64, decimal, digits_value,
    find_char, law_decimal_digits, law_trim, law_unsigned, law_white_space, lemma_find_char_at,
    lemma_trim_keeps, opt_view, parse_unsigned, position_of, str_eq, string_of, trim, trim_chars,
};

verus! {

// ---------- The wrapper ----------

/// A tag: twelve lower-case hexadecimal digits.
pub open spec fn is_tag(t: Seq<char>) -> bool {
    t.len() == 12 && forall|i: int| 0 <= i < 12 ==> is_lower_hex(#[trigger] t[i])
}

/// What the shell prints before the command's output.
pub open spec fn begin_marker(tag: Seq<char>) -> Seq<char> {
    "TETHEREXECBEG"@ + tag
}

/// What the shell prints after it, before the status.
pub open spec fn end_marker(tag: Seq<char>) -> Seq<char> {
    "TETHEREXECEND"@ + tag
}

/// The line that is typed. Each marker is split by an empty-string quote, so
/// only the shell's evaluated output holds it in one piece. The status is
/// expanded before the last `echo` runs, so it is the command's.
pub open spec fn wrapped(cmd: Seq<char>, tag: Seq<char>) -> Seq<char> {
    "echo \"TETHEREXECBE\"\"G"@ + tag + "\"; "@ + cmd + "; echo \"TETHEREXECEN\"\"D"@ + tag
        + "=$?\""@
}

/// The pattern that ends the wait: the end marker and whatever stands for the
/// status.
pub open spec fn end_pattern(tag: Seq<char>) -> Seq<char> {
    "TETHEREXECEND"@ + tag + "=(\\S*)"@
}

/// A command as it is sent, and what to look for.
#[derive(Debug)]
pub struct Wrapping {
    pub line: String,
    pub end_pattern: String,
    pub begin_marker: String,
}

pub open spec fn is_wrapping(w: Wrapping, cmd: Seq<char>, tag: Seq<char>) -> bool {
    &&& w.line@ == wrapped(cmd, tag)
    &&& w.end_pattern@ == end_pattern(tag)
    &&& w.begin_marker@ == begin_marker(tag)
}

/// Wraps a command with a given tag.
pub fn wrap_with_tag(cmd: &str, tag: &str) -> (w: Wrapping)
    ensures
        is_wrapping(w, cmd@, tag@),
{
    let mut line = cat5(
        "echo \"TETHEREXECBE\"\"G",
        tag,
        "\"; ",
        cmd,
        "; echo \"TETHEREXECEN\"\"D",
    );
    line.append(tag);
    line.append("=$?\"");
    Wrapping {
        line,
        end_pattern: cat3("TETHEREXECEND", tag, "=(\\S*)"),
        begin_marker: cat2("TETHEREXECBEG", tag),
    }
}

/// Wraps a command so the device shell brackets its output with two unique
/// markers and reports the command's exit status. The random tag makes an
/// accidental match in real command output effectively impossible.
pub fn wrap_exec_command(cmd: &str) -> (w: Wrapping)
    ensures
        exists|tag: Seq<char>| #[trigger] is_wrapping(w, cmd@, tag) && is_tag(tag),
{
    let digits = chars_of(fresh_hex_tag().as_str());
    let tag = string_of(slice_subrange(digits.as_slice(), 0, 12));
    let w = wrap_with_tag(cmd, tag.as_str());
    assert(is_wrapping(w, cmd@, tag@) && is_tag(tag@));
    w
}

/// `needle` stands in `hay` at position `i`.
pub open spec fn text_at(hay: Seq<char>, needle: Seq<char>, i: int) -> bool {
    0 <= i && i + needle.len() <= hay.len() && hay.subrange(i, i + needle.len()) == needle
}

/// Neither marker stands in the typed line, wherever it may be echoed, unless
/// the command itself holds the random tag: only evaluating the line produces
/// them.
pub proof fn law_typed_line_hides_markers(cmd: Seq<char>, tag: Seq<char>, p: int)
    requires
        is_tag(tag),
        forall|i: int| !text_at(cmd, tag, i),
    ensures
        !text_at(wrapped(cmd, tag), begin_marker(tag), p),
        !text_at(wrapped(cmd, tag), end_marker(tag), p),
{
    reveal_strlit("echo \"TETHEREXECBE\"\"G");
    reveal_strlit("\"; ");
    reveal_strlit("; echo \"TETHEREXECEN\"\"D");
    reveal_strlit("=$?\"");
    reveal_strlit("TETHEREXECBEG");
    reveal_strlit("TETHEREXECEND");
    let a = "echo \"TETHEREXECBE\"\"G"@ + tag + "\"; "@;
    let c = "; echo \"TETHEREXECEN\"\"D"@ + tag + "=$?\""@;
    let w = wrapped(cmd, tag);
    assert(w =~= a + cmd + c);
    assert(a.len() == 36 && c.len() == 39);
    lemma_marker_not_at(a, cmd, c, tag, begin_marker(tag), p);
    lemma_marker_not_at(a, cmd, c, tag, end_marker(tag), p);
}

proof fn lemma_marker_not_at(
    a: Seq<char>,
    cmd: Seq<char>,
    c: Seq<char>,
    tag: Seq<char>,
    marker: Seq<char>,
    p: int,
)
    requires
        is_tag(tag),
        forall|i: int| !text_at(cmd, tag, i),
        a == "echo \"TETHEREXECBE\"\"G"@ + tag + "\"; "@,
        c == "; echo \"TETHEREXECEN\"\"D"@ + tag + "=$?\""@,
        marker == begin_marker(tag) || marker == end_marker(tag),
    ensures
        !text_at(a + cmd + c, marker, p),
{
    reveal_strlit("echo \"TETHEREXECBE\"\"G");
    reveal_strlit("\"; ");
    reveal_strlit("; echo \"TETHEREXECEN\"\"D");
    reveal_strlit("=$?\"");
    reveal_strlit("TETHEREXECBEG");
    reveal_strlit("TETHEREXECEND");
    let w = a + cmd + c;
    let n = cmd.len() as int;
    assert(a.len() == 36 && c.len() == 39 && marker.len() == 25);
    if text_at(w, marker, p) {
        let t = p + 13;
        let sub = w.subrange(p, p + 25);
        assert forall|k: int| 0 <= k < 12 implies #[trigger] w[t + k] == tag[k] by {
            assert(sub[13 + k] == marker[13 + k]);
        }
        assert(w[t - 2] == marker[11]) by {
            assert(sub[11] == marker[11]);
        }
        assert(marker[11] != '"');
        if t < 36 {
            if t < 6 {
                assert(w[t + (6 - t)] == tag[6 - t]);
                assert(w[6] == a[6]);
            } else if t < 18 {
                assert(w[t + 0] == tag[0]);
                assert(w[t] == a[t]);
            } else if t < 21 {
                assert(w[t + (20 - t)] == tag[20 - t]);
                assert(w[20] == a[20]);
            } else if t == 21 {
                assert(w[19] == a[19]);
            } else if t <= 33 {
                assert(w[t + (33 - t)] == tag[33 - t]);
                assert(w[33] == a[33]);
            } else {
                assert(w[t + (35 - t)] == tag[35 - t]);
                assert(w[35] == a[35]);
            }
        } else if t + 12 <= 36 + n {
            assert(cmd.subrange(t - 36, t - 36 + 12) =~= tag) by {
                assert forall|k: int| 0 <= k < 12 implies cmd.subrange(t - 36, t - 36 + 12)[k]
                    == tag[k] by {
                    assert(w[t + k] == cmd[t - 36 + k]);
                }
            }
            assert(text_at(cmd, tag, t - 36));
        } else {
            let s = 36 + n;
            if t <= s {
                assert(w[t + (s - t)] == tag[s - t]);
                assert(w[s] == c[0]);
            } else {
                let u = t - s;
                if u < 8 {
                    assert(w[t + (8 - u)] == tag[8 - u]);
                    assert(w[s + 8] == c[8]);
                } else if u < 20 {
                    assert(w[t + 0] == tag[0]);
                    assert(w[s + u] == c[u]);
                } else if u < 23 {
                    assert(w[t + (22 - u)] == tag[22 - u]);
                    assert(w[s + 22] == c[22]);
                } else if u == 23 {
                    assert(w[s + 21] == c[21]);
                } else {
                    assert(u + 12 <= 39);
                    assert(w[t + (35 - u)] == tag[35 - u]);
                    assert(w[s + 35] == c[35]);
                }
            }
        }
    }
}

// ---------- Parameters ----------

/// Refuses `exec` on a device that is known to have no shell.
pub fn check_exec_shell(shell: &str) -> (r: Result<(), CliError>)
    ensures
        match r {
            Ok(()) => shell@ != "none"@,
            Err(e) => shell@ == "none"@ && (e matches CliError::Usage(m) && m@
                == "device registered shell=none — use run/send/expect"@),
        },
{
    if str_eq(shell, "none") {
        return Err(
            CliError::Usage("device registered shell=none — use run/send/expect".to_owned()),
        );
    }
    Ok(())
}

/// A terminator that submits a line.
pub open spec fn submits(name: Seq<char>) -> bool {
    name == "lf"@ || name == "cr"@ || name == "crlf"@
}

/// The terminator that submits an `exec`: always `cr` for U-Boot, whose line
/// editor runs a command twice on CR LF; else the one given, or the device's,
/// or `cr`.
pub open spec fn exec_terminator(
    shell: Seq<char>,
    given: Option<Seq<char>>,
    device: Option<Seq<char>>,
) -> Seq<char> {
    if shell == "uboot"@ {
        "cr"@
    } else {
        match (given, device) {
            (Some(n), _) => n,
            (None, Some(n)) => if submits(n) {
                n
            } else {
                "cr"@
            },
            (None, None) => "cr"@,
        }
    }
}

pub fn exec_newline(shell: &str, given: &Option<String>, device: &Option<String>) -> (s: String)
    ensures
        s@ == exec_terminator(shell@, opt_view(*given), opt_view(*device)),
{
    if str_eq(shell, "uboot") {
        return "cr".to_owned();
    }
    match (given, device) {
        (Some(n), _) => n.clone(),
        (None, Some(n)) => {
            let w = n.as_str();
            if str_eq(w, "lf") || str_eq(w, "cr") || str_eq(w, "crlf") {
                n.clone()
            } else {
                "cr".to_owned()
            }
        },
        (None, None) => "cr".to_owned(),
    }
}

/// The given terminator is not the one that is used, so the user is told.
pub fn newline_overridden(shell: &str, given: &Option<String>) -> (b: bool)
    ensures
        b == (shell@ == "uboot"@ && (given matches Some(n) && n@ != "cr"@)),
{
    match given {
        Some(n) => str_eq(shell, "uboot") && !str_eq(n.as_str(), "cr"),
        None => false,
    }
}

/// The parameters of `tether exec`. The markers make the daemon's own echo
/// stripping, which breaks on wrapped command lines, unnecessary.
pub fn exec_params(session_id: &str, args: &ExecArgs, w: &Wrapping, newline: &str) -> (p: RunParams)
    ensures
        p.session_id@ == session_id@,
        p.data is None,
        opt_view(p.data_text) == Some(w.line@ + terminator(newline@)),
        p.until.pattern@ == w.end_pattern@,
        p.until.regex,
        p.until.strip_ansi == args.strip_ansi,
        p.timeout_ms == Some(args.timeout_ms),
        p.preempt@ == args.preempt@,
        !p.strip_echo,
        p.max_bytes is None,
        p.max_output_bytes == Some(args.max_output_bytes),
{
    RunParams {
        session_id: session_id.to_owned(),
        data: None,
        data_text: Some(apply_newline(w.line.as_str(), newline)),
        until: UntilSpec {
            pattern: w.end_pattern.clone(),
            regex: true,
            strip_ansi: args.strip_ansi,
        },
        timeout_ms: Some(args.timeout_ms),
        preempt: args.preempt.clone(),
        strip_echo: false,
        max_bytes: None,
        max_output_bytes: Some(args.max_output_bytes),
    }
}

// ---------- The result ----------

/// The first position of `needle` in `hay`, as `found`.
pub open spec fn is_first_text(hay: Seq<char>, needle: Seq<char>, found: Option<int>) -> bool {
    match found {
        Some(i) => text_at(hay, needle, i) && forall|j: int|
            0 <= j < i ==> !text_at(hay, needle, j),
        None => forall|j: int| !text_at(hay, needle, j),
    }
}

pub open spec fn opt_int(i: Option<usize>) -> Option<int> {
    match i {
        Some(n) => Some(n as int),
        None => None,
    }
}

pub fn find_text(hay: &[char], needle: &[char]) -> (found: Option<usize>)
    ensures
        is_first_text(hay@, needle@, opt_int(found)),
{
    if hay.len() < needle.len() {
        return None;
    }
    let n: usize = hay.len();
    let last: usize = n - needle.len();
    let mut i: usize = 0;
    loop
        invariant
            i <= last,
            n == hay@.len(),
            last == hay@.len() - needle@.len(),
            forall|j: int| 0 <= j < i ==> !text_at(hay@, needle@, j),
        decreases last - i,
    {
        if chars_eq(slice_subrange(hay, i, i + needle.len()), needle) {
            return Some(i);
        }
        if i == last {
            return None;
        }
        i = i + 1;
    }
}

/// What follows the line on which a marker, starting at `i`, ends.
pub open spec fn after_marker_line(raw: Seq<char>, marker: Seq<char>, i: int) -> Seq<char> {
    let rest = raw.skip(i + marker.len());
    let j = find_char(rest, '\n') as int;
    if j < rest.len() {
        rest.skip(j + 1)
    } else {
        Seq::empty()
    }
}

/// `out` is a command's output within what was captured: what follows the
/// begin marker's line, or everything if the marker is not there.
pub open spec fn is_exec_output(raw: Seq<char>, marker: Seq<char>, out: Seq<char>) -> bool {
    if exists|i: int| text_at(raw, marker, i) {
        exists|i: int|
            #[trigger] is_first_text(raw, marker, Some(i)) && out == after_marker_line(
                raw,
                marker,
                i,
            )
    } else {
        out == raw
    }
}

/// Extracts a command's output from what was captured.
pub fn exec_output(raw: &str, marker: &str) -> (out: String)
    ensures
        is_exec_output(raw@, marker@, out@),
{
    let hay = chars_of(raw);
    let needle = chars_of(marker);
    match find_text(hay.as_slice(), needle.as_slice()) {
        Some(i) => {
            let total: usize = hay.len();
            assert(i + needle@.len() <= total);
            let rest = slice_subrange(hay.as_slice(), i + needle.len(), total);
            assert(rest@ =~= raw@.skip(i + marker@.len()));
            let j: usize = position_of(rest, '\n');
            let from: usize = if j < rest.len() {
                j + 1
            } else {
                rest.len()
            };
            let out = slice_subrange(rest, from, rest.len());
            assert(out@ =~= after_marker_line(raw@, marker@, i as int));
            assert(is_first_text(raw@, marker@, Some(i as int)));
            string_of(out)
        },
        None => string_of(hay.as_slice()),
    }
}

/// Whatever precedes the begin marker — the echoed command, wrapped by the
/// terminal or not — and whatever else stands on its line, the output is
/// exactly what follows that line.
pub proof fn law_exec_output_is_what_follows(
    echoed: Seq<char>,
    marker: Seq<char>,
    line_rest: Seq<char>,
    output: Seq<char>,
    out: Seq<char>,
)
    requires
        marker.len() > 0,
        !line_rest.contains('\n'),
        forall|j: int|
            0 <= j < echoed.len() ==> !text_at(
                echoed + marker + line_rest + seq!['\n'] + output,
                marker,
                j,
            ),
        is_exec_output(echoed + marker + line_rest + seq!['\n'] + output, marker, out),
    ensures
        out == output,
{
    let raw = echoed + marker + line_rest + seq!['\n'] + output;
    let e = echoed.len() as int;
    assert(raw.subrange(e, e + marker.len()) =~= marker);
    assert(text_at(raw, marker, e));
    let i = choose|i: int|
        #[trigger] is_first_text(raw, marker, Some(i)) && out == after_marker_line(raw, marker, i);
    assert(i == e) by {
        if i < e {
            assert(!text_at(raw, marker, i));
        } else if i > e {
            assert(!text_at(raw, marker, e));
        }
    }
    let rest = raw.skip(e + marker.len());
    let n = line_rest.len() as int;
    assert(rest =~= line_rest + seq!['\n'] + output);
    assert forall|k: int| 0 <= k < n implies #[trigger] rest[k] != '\n' by {
        assert(rest[k] == line_rest[k]);
        assert(line_rest.contains(line_rest[k]));
    }
    assert(rest[n] == '\n');
    lemma_find_char_at(rest, '\n', n);
    assert(rest.skip(n + 1) =~= output);
}

/// The status that the text after the end marker's `=` reports: a decimal
/// number, capped at 255. Anything else reports none; a status is never made
/// up.
pub open spec fn status_of(match_text: Seq<char>) -> Option<int> {
    let i = crate::client::after_last(match_text, '=') as int;
    let word = trim(match_text.skip(i));
    if i == 0 || !all_digits(word) || digits_value(word) > 0x7fff_ffff_ffff_ffff {
        None
    } else if digits_value(word) > 255 {
        Some(255)
    } else {
        Some(digits_value(word) as int)
    }
}

/// Reads the device-side exit status out of the matched end marker.
pub fn exec_status(match_text: &str) -> (code: Option<u8>)
    ensures
        match status_of(match_text@) {
            Some(n) => code matches Some(c) && c == n,
            None => code is None,
        },
{
    let chars = chars_of(match_text);
    let mut i: usize = chars.len();
    assert(match_text@.take(i as int) =~= match_text@);
    while i > 0 && chars[i - 1] != '='
        invariant
            i <= chars@.len(),
            chars@ == match_text@,
            crate::client::after_last(match_text@.take(i as int), '=')
                == crate::client::after_last(match_text@, '='),
        decreases i,
    {
        assert(match_text@.take(i as int).last() == chars@[i - 1]);
        assert(match_text@.take(i as int).drop_last() =~= match_text@.take(i - 1));
        i = i - 1;
    }
    assert(i > 0 ==> match_text@.take(i as int).last() == chars@[i - 1]);
    if i == 0 {
        return None;
    }
    let tail = slice_subrange(chars.as_slice(), i, chars.len());
    assert(tail@ =~= match_text@.skip(i as int));
    let word = trim_chars(tail);
    if word.len() > 0 && word[0] == '+' {
        assert(!crate::text::is_digit(word@[0]));
        return None;
    }
    match parse_unsigned(word.as_slice(), 0x7fff_ffff_ffff_ffff) {
        Some(n) => {
            if n > 255 {
                Some(255)
            } else {
                Some(n as u8)
            }
        },
        None => None,
    }
}

/// How the client ends after the command ran: as the command did, or with the
/// code for an unknown status.
pub fn exec_outcome(status: Option<u8>) -> (r: Result<(), CliError>)
    ensures
        match status {
            Some(n) => if n == 0 {
                r is Ok
            } else {
                r matches Err(CliError::RemoteExit(c)) && c == n
            },
            None => r matches Err(CliError::UnknownStatus),
        },
{
    match status {
        Some(n) => {
            if n == 0 {
                Ok(())
            } else {
                Err(CliError::RemoteExit(n))
            }
        },
        None => Err(CliError::UnknownStatus),
    }
}

/// The client only succeeds when the device reported success.
pub proof fn law_no_made_up_success(match_text: Seq<char>)
    ensures
        status_of(match_text) == Some(0int) ==> all_digits(
            trim(match_text.skip(crate::client::after_last(match_text, '=') as int)),
        ) && digits_value(
            trim(match_text.skip(crate::client::after_last(match_text, '=') as int)),
        ) == 0,
{
}

pub proof fn lemma_after_last_at(s: Seq<char>, c: char, i: int)
    requires
        0 <= i < s.len(),
        s[i] == c,
        forall|k: int| i < k < s.len() ==> #[trigger] s[k] != c,
    ensures
        crate::client::after_last(s, c) == i + 1,
    decreases s.len(),
{
    if i + 1 < s.len() {
        assert(s[s.len() - 1] != c);
        let t = s.drop_last();
        assert(t[i] == c);
        assert forall|k: int| i < k < t.len() implies #[trigger] t[k] != c by {
            assert(t[k] == s[k]);
        }
        lemma_after_last_at(t, c, i);
    }
}

pub proof fn lemma_after_last_none(s: Seq<char>, c: char)
    requires
        !s.contains(c),
    ensures
        crate::client::after_last(s, c) == 0,
    decreases s.len(),
{
    if s.len() > 0 {
        assert(s.contains(s.last()));
        let t = s.drop_last();
        assert(!t.contains(c)) by {
            if t.contains(c) {
                let k = choose|k: int| 0 <= k < t.len() && t[k] == c;
                assert(s[k] == c);
            }
        }
        lemma_after_last_none(t, c);
    }
}

/// The status that the device printed is the status that is reported, for every
/// status: the decimal numeral after the last `=` is read back, up to 255 as it
/// is, beyond as 255. What else stands before does not matter.
pub proof fn law_status_read_back(
    match_text: &str,
    before: Seq<char>,
    n: nat,
    code: Option<u8>,
)
    requires
        match_text@ == before + seq!['='] + decimal(n),
        n <= i64::MAX,
        call_ensures(exec_status, (match_text,), code),
    ensures
        n <= 255 ==> code == Some(n as u8),
        n > 255 ==> code == Some(255u8),
{
    let s = match_text@;
    let d = decimal(n);
    let b = before.len() as int;
    law_decimal_digits(n);
    law_unsigned(n, n, d, 0);
    assert(s[b] == '=');
    assert forall|k: int| b < k < s.len() implies #[trigger] s[k] != '=' by {
        assert(s[k] == d[k - b - 1]);
    }
    lemma_after_last_at(s, '=', b);
    assert(s.skip(b + 1) =~= d);
    law_white_space(d[0]);
    law_white_space(d.last());
    let none = Seq::<char>::empty();
    assert(none + d + none =~= d);
    law_trim(none, d, none);
}

/// Any digits are read by their places, with white space around them or not.
pub proof fn law_status_of_digits(
    match_text: &str,
    before: Seq<char>,
    a: Seq<char>,
    word: Seq<char>,
    b: Seq<char>,
    code: Option<u8>,
)
    requires
        match_text@ == before + seq!['='] + (a + word + b),
        word.len() > 0,
        forall|k: int| 0 <= k < word.len() ==> '0' <= #[trigger] word[k] <= '9',
        forall|k: int| 0 <= k < a.len() ==> #[trigger] a[k] == ' ',
        forall|k: int| 0 <= k < b.len() ==> #[trigger] b[k] == ' ' || b[k] == '\r' || b[k] == '\n',
        call_ensures(exec_status, (match_text,), code),
    ensures
        digits_value(word) <= 255 ==> code == Some(digits_value(word) as u8),
        255 < digits_value(word) <= i64::MAX ==> code == Some(255u8),
        digits_value(word) > i64::MAX ==> code is None,
{
    let s = match_text@;
    let t = a + word + b;
    let n = before.len() as int;
    assert(s[n] == '=');
    assert forall|k: int| n < k < s.len() implies #[trigger] s[k] != '=' by {
        let j = k - n - 1;
        assert(s[k] == t[j]);
        if j < a.len() {
            assert(t[j] == a[j]);
        } else if j < a.len() + word.len() {
            assert(t[j] == word[j - a.len()]);
        } else {
            assert(t[j] == b[j - a.len() - word.len()]);
        }
    }
    lemma_after_last_at(s, '=', n);
    assert(s.skip(n + 1) =~= t);
    assert forall|k: int| 0 <= k < a.len() implies crate::text::is_white(#[trigger] a[k]) by {
        law_white_space(a[k]);
    }
    assert forall|k: int| 0 <= k < b.len() implies crate::text::is_white(#[trigger] b[k]) by {
        law_white_space(b[k]);
    }
    assert('0' <= word[0] <= '9');
    assert('0' <= word[word.len() - 1] <= '9');
    law_white_space(word[0]);
    law_white_space(word.last());
    law_trim(a, word, b);
    assert forall|k: int| 0 <= k < word.len() implies crate::text::is_digit(#[trigger] word[k]) by {
        assert('0' <= word[k] <= '9');
    }
}

/// No status is reported where none was printed: without an `=`, with nothing
/// but white space after the last one, or with anything there that is no digit.
pub proof fn law_status_never_guessed(
    match_text: &str,
    before: Seq<char>,
    word: Seq<char>,
    k: int,
    code: Option<u8>,
)
    requires
        !word.contains('='),
        match_text@ == word || (match_text@ == before + seq!['='] + word && ((forall|j: int|
            0 <= j < word.len() ==> #[trigger] word[j] == ' ') || (0 <= k < word.len() && (
        '!' <= word[k] <= '/' || ':' <= word[k] <= '~')))),
        call_ensures(exec_status, (match_text,), code),
    ensures
        code is None,
{
    let s = match_text@;
    if s == word {
        lemma_after_last_none(s, '=');
    } else {
        let b = before.len() as int;
        assert(s[b] == '=');
        assert forall|j: int| b < j < s.len() implies #[trigger] s[j] != '=' by {
            assert(s[j] == word[j - b - 1]);
            assert(word.contains(word[j - b - 1]));
        }
        lemma_after_last_at(s, '=', b);
        assert(s.skip(b + 1) =~= word);
        if forall|j: int| 0 <= j < word.len() ==> #[trigger] word[j] == ' ' {
            let none = Seq::<char>::empty();
            assert(word + none + none =~= word);
            law_trim(word, none, none);
        } else {
            law_white_space(word[k]);
            lemma_trim_keeps(word, k);
            let t = trim(word);
            let j = choose|j: int| 0 <= j < t.len() && t[j] == word[k];
            assert(!crate::text::is_digit(t[j]));
        }
    }
}

/// The client ends as the command did: well for status 0 and with that very
/// exit code for any other; and with 8 where the status is unknown.
pub proof fn law_exit_as_the_command(
    status: Option<u8>,
    r: Result<(), CliError>,
    e: CliError,
    exit: u8,
)
    requires
        call_ensures(exec_outcome, (status,), r),
        r is Err ==> r == Err::<(), CliError>(e) && call_ensures(CliError::exit_code, (&e,), exit),
    ensures
        r is Ok <==> status == Some(0u8),
        status matches Some(n) ==> n != 0 ==> exit == n,
        status is None ==> r is Err && exit == 8,
{
}

/// What the device prints between the begin marker's line and the end is what
/// is returned, and everything where no marker came.
pub proof fn law_exec_returns_the_output(
    raw: &str,
    marker: &str,
    echoed: Seq<char>,
    line_rest: Seq<char>,
    output: Seq<char>,
    out: String,
)
    requires
        call_ensures(exec_output, (raw, marker), out),
    ensures
        (marker@.len() > 0 && !line_rest.contains('\n') && raw@ == echoed + marker@ + line_rest
            + seq!['\n'] + output && forall|j: int|
            0 <= j < echoed.len() ==> !text_at(raw@, marker@, j))
            ==> out@ == output,
        (forall|j: int| !text_at(raw@, marker@, j)) ==> out@ == raw@,
{
    if marker@.len() > 0 && !line_rest.contains('\n') && raw@ == echoed + marker@ + line_rest
        + seq!['\n'] + output && forall|j: int|
        0 <= j < echoed.len() ==> !text_at(raw@, marker@, j) {
        law_exec_output_is_what_follows(echoed, marker@, line_rest, output, out@);
    }
}

/// The typed line is `echo "<begin>"; <command>; echo "<end>=$?"` with an empty
/// quote inside each marker, so that the shell prints the begin marker, the
/// command's output, and the end marker with the command's status; and the
/// pattern that ends the wait is that end marker with whatever follows its `=`.
pub proof fn law_wrapping_brackets_the_command(cmd: &str, tag: &str, w: Wrapping)
    requires
        call_ensures(wrap_with_tag, (cmd, tag), w),
    ensures
        exists|b1: Seq<char>, b2: Seq<char>, e1: Seq<char>, e2: Seq<char>|
            b1.len() > 0 && b2.len() > 0 && e1.len() > 0 && e2.len() > 0 && #[trigger] (b1 + b2)
                == w.begin_marker@ && w.end_pattern@ == #[trigger] (e1 + e2) + "=(\\S*)"@
                && w.line@ == "echo \""@ + b1 + "\"\""@ + b2 + "\"; "@ + cmd@ + "; echo \""@ + e1
                + "\"\""@ + e2 + "=$?\""@,
        w.begin_marker@ == "TETHEREXECBEG"@ + tag@,
        w.end_pattern@ == "TETHEREXECEND"@ + tag@ + "=(\\S*)"@,
{
    reveal_strlit("echo \"TETHEREXECBE\"\"G");
    reveal_strlit("; echo \"TETHEREXECEN\"\"D");
    reveal_strlit("TETHEREXECBEG");
    reveal_strlit("TETHEREXECEND");
    reveal_strlit("echo \"");
    reveal_strlit("; echo \"");
    reveal_strlit("\"\"");
    let b1 = "TETHEREXECBEG"@.take(12);
    let b2 = "TETHEREXECBEG"@.skip(12) + tag@;
    let e1 = "TETHEREXECEND"@.take(12);
    let e2 = "TETHEREXECEND"@.skip(12) + tag@;
    assert(b1 + b2 =~= w.begin_marker@);
    assert(e1 + e2 =~= "TETHEREXECEND"@ + tag@);
    assert("echo \"TETHEREXECBE\"\"G"@ =~= "echo \""@ + b1 + "\"\""@
        + "TETHEREXECBEG"@.skip(12));
    assert("; echo \"TETHEREXECEN\"\"D"@ =~= "; echo \""@ + e1 + "\"\""@
        + "TETHEREXECEND"@.skip(12));
    assert(w.line@ =~= "echo \""@ + b1 + "\"\""@ + b2 + "\"; "@ + cmd@ + "; echo \""@ + e1
        + "\"\""@ + e2 + "=$?\""@);
}

/// An `exec` sends the wrapped line with its terminator and nothing else, waits
/// for its end marker as a regular expression, takes its options over as they
/// were given, and leaves the echo to the markers.
pub proof fn law_exec_asks_for_its_command(
    session_id: &str,
    args: &ExecArgs,
    w: &Wrapping,
    newline: &str,
    p: RunParams,
)
    requires
        call_ensures(exec_params, (session_id, args, w, newline), p),
    ensures
        p.session_id@ == session_id@ && p.data is None,
        newline@ == "cr"@ ==> opt_view(p.data_text) == Some(w.line@ + "\r"@),
        newline@ == "lf"@ ==> opt_view(p.data_text) == Some(w.line@ + "\n"@),
        newline@ == "crlf"@ ==> opt_view(p.data_text) == Some(w.line@ + "\r\n"@),
        p.until.pattern@ == w.end_pattern@ && p.until.regex,
        p.until.strip_ansi == args.strip_ansi && !p.strip_echo,
        p.timeout_ms == Some(args.timeout_ms) && p.preempt@ == args.preempt@,
        p.max_bytes is None && p.max_output_bytes == Some(args.max_output_bytes),
{
    reveal_strlit("cr");
    reveal_strlit("lf");
    reveal_strlit("crlf");
    assert("cr"@.len() == 2 && "lf"@.len() == 2 && "crlf"@.len() == 4);
    assert("cr"@[0] != "lf"@[0]);
}

/// A U-Boot console is always sent a bare CR; any other is sent what was asked
/// for, or else what the device is set to where that submits a line, or CR. On
/// a console without a shell `exec` is refused.
pub proof fn law_exec_terminator(
    shell: &str,
    given: &Option<String>,
    device: &Option<String>,
    s: String,
    told: bool,
    allowed: Result<(), CliError>,
)
    requires
        call_ensures(exec_newline, (shell, given, device), s),
        call_ensures(newline_overridden, (shell, given), told),
        call_ensures(check_exec_shell, (shell,), allowed),
    ensures
        shell@ == "uboot"@ ==> s@ == "cr"@,
        shell@ != "uboot"@ ==> (given matches Some(g) ==> s@ == g@),
        shell@ != "uboot"@ && given is None ==> (device matches Some(d) ==> (d@ == "lf"@ || d@
            == "cr"@ || d@ == "crlf"@) ==> s@ == d@),
        shell@ != "uboot"@ && given is None && (device is None || device->Some_0@ == "none"@) ==> s@
            == "cr"@,
        told <==> (given matches Some(g) && s@ != g@),
        allowed is Err <==> shell@ == "none"@,
{
    reveal_strlit("none");
    reveal_strlit("cr");
    reveal_strlit("lf");
    reveal_strlit("crlf");
    assert("none"@.len() == 4 && "cr"@.len() == 2 && "lf"@.len() == 2 && "crlf"@.len() == 4);
    assert("none"@[0] != "crlf"@[0]);
}

/// What is said when the device reported no status.
pub fn unknown_status_hint() -> (s: &'static str)
    ensures
        s@
            == "device shell did not report a numeric status (non-POSIX console?) — see docs/EXEC_NONPOSIX_SHELLS.md"@,
{
    "device shell did not report a numeric status (non-POSIX console?) — see docs/EXEC_NONPOSIX_SHELLS.md"
}

// ---------- Timeouts ----------

/// The captured text shows a shell that knows no such command.
pub open spec fn shows_unknown_command(captured: Seq<char>) -> bool {
    exists|i: int| text_at(captured, "Unknown command"@, i)
}

/// `tether [-d <id> ]run "<cmd>" -u "=> " --newline cr`.
pub open spec fn run_recipe(device_id: Option<Seq<char>>, cmd: Seq<char>) -> Seq<char> {
    "tether "@ + (match device_id {
        Some(id) => "-d "@ + id + " "@,
        None => ""@,
    }) + "run \""@ + cmd + "\" -u \"=> \" --newline cr"@
}

fn run_recipe_text(device_id: &Option<String>, cmd: &str) -> (s: String)
    ensures
        s@ == run_recipe(opt_view(*device_id), cmd@),
{
    let target = match device_id {
        Some(id) => cat3("-d ", id.as_str(), " "),
        None => "".to_owned(),
    };
    cat5("tether ", target.as_str(), "run \"", cmd, "\" -u \"=> \" --newline cr")
}

/// What is said when the end marker did not come: the most specific advice
/// that the captured text and the device's personality allow.
pub open spec fn exec_timeout_text(
    captured: Seq<char>,
    shell: Seq<char>,
    device_id: Option<Seq<char>>,
    cmd: Seq<char>,
    timeout_ms: u32,
) -> Seq<char> {
    "tether: exec timed out after "@ + decimal(timeout_ms as nat) + "ms"@ + (
    if shows_unknown_command(captured) {
        " — the device looks like a U-Boot / raw console (saw \"Unknown command\"). Try: "@
            + run_recipe(device_id, cmd) + " or set shell=uboot on the device"@
    } else if shell == "uboot"@ {
        " on a shell=uboot device — no end marker seen. A U-Boot built without the hush parser can't run exec; fall back to "@
            + run_recipe(device_id, cmd)
    } else {
        " — no end-marker seen. Is the device at a shell prompt? (exec needs a POSIX-ish shell; for raw consoles use `send` + `expect`.)"@
    })
}

pub fn exec_timeout_line(
    captured: &str,
    shell: &str,
    device_id: &Option<String>,
    cmd: &str,
    timeout_ms: u32,
) -> (s: String)
    ensures
        s@ == exec_timeout_text(captured@, shell@, opt_view(*device_id), cmd@, timeout_ms),
{
    let hay = chars_of(captured);
    let needle = chars_of("Unknown command");
    let seen: bool = find_text(hay.as_slice(), needle.as_slice()).is_some();
    let advice = if seen {
        cat3(
            " — the device looks like a U-Boot / raw console (saw \"Unknown command\"). Try: ",
            run_recipe_text(device_id, cmd).as_str(),
            " or set shell=uboot on the device",
        )
    } else if str_eq(shell, "uboot") {
        cat2(
            " on a shell=uboot device — no end marker seen. A U-Boot built without the hush parser can't run exec; fall back to ",
            run_recipe_text(device_id, cmd).as_str(),
        )
    } else {
        " — no end-marker seen. Is the device at a shell prompt? (exec needs a POSIX-ish shell; for raw consoles use `send` + `expect`.)".to_owned()
    };
    cat4(
        "tether: exec timed out after ",
        dec_u64(timeout_ms as u64).as_str(),
        "ms",
        advice.as_str(),
    )
}

} // verus!

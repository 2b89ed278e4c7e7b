//! What a worker prints when its run is over: one progress line and, where
//! the configuration asks for it, the output of the run.

use vstd::prelude::*;
use vstd::string::StringExecFns;
use vstd::utf8::encode_utf8;
use crate::fileio::ExecutionSettings;
use crate::print_console::{painted, Hue, PrintColorize};
use crate::text::{decimal, pad_left, push_chars, push_decimal, push_padded, to_chars};

verus! {

/// How a line break is shown once the kept lines are used up: a yellow `\n`,
/// written as `ESC [ 3 3 m \ n ESC [ m`.
pub open spec fn break_mark() -> Seq<char> {
    seq!['\x1b', '[', '3', '3', 'm', '\\', 'n', '\x1b', '[', 'm']
}

/// `s` with every line break replaced by the break mark.
pub open spec fn marked(s: Seq<char>) -> Seq<char>
    decreases s.len(),
{
    if s.len() == 0 {
        s
    } else if s[0] == '\n' {
        break_mark() + marked(s.skip(1))
    } else {
        seq![s[0]] + marked(s.skip(1))
    }
}

/// One replacement fewer; no limit stays no limit.
pub open spec fn one_fewer(limit: Option<nat>) -> Option<nat> {
    match limit {
        Some(n) => Some((n - 1) as nat),
        None => None,
    }
}

/// A count of the machine as a limit in the large.
pub open spec fn limit_of(limit: Option<usize>) -> Option<nat> {
    match limit {
        Some(n) => Some(n as nat),
        None => None,
    }
}

/// `s` with break marks turned back into line breaks, from the left and
/// without overlap: the first `limit` of them, or all where `limit` is `None`.
pub open spec fn restored(s: Seq<char>, limit: Option<nat>) -> Seq<char>
    decreases s.len(),
{
    if s.len() == 0 || limit == Some(0nat) {
        s
    } else if break_mark().is_prefix_of(s) {
        seq!['\n'] + restored(s.skip(break_mark().len() as int), one_fewer(limit))
    } else {
        seq![s[0]] + restored(s.skip(1), limit)
    }
}

/// `output` laid out for display: all line breaks are marked, then the first
/// `kept` marks become line breaks again.
pub open spec fn laid_out(output: Seq<char>, kept: Option<nat>) -> Seq<char> {
    restored(marked(output), kept)
}

/// `s` with its first `limit` line breaks kept, or all of them where `limit`
/// is `None`, and every later line break replaced by the break mark.
pub open spec fn with_breaks_kept(s: Seq<char>, limit: Option<nat>) -> Seq<char>
    decreases s.len(),
{
    if s.len() == 0 {
        s
    } else if s[0] == '\n' {
        if limit == Some(0nat) {
            break_mark() + with_breaks_kept(s.skip(1), limit)
        } else {
            seq!['\n'] + with_breaks_kept(s.skip(1), one_fewer(limit))
        }
    } else {
        seq![s[0]] + with_breaks_kept(s.skip(1), limit)
    }
}

/// Output that holds no escape character is laid out with its first `limit`
/// line breaks kept and every later one shown as the break mark. (Output
/// that itself holds the break mark has those marks turned into line breaks
/// as well, as long as the limit lasts.)
pub proof fn lemma_laid_out_keeps_breaks(output: Seq<char>, limit: Option<nat>)
    requires
        forall|i: int| 0 <= i < output.len() ==> output[i] != '\x1b',
    ensures
        laid_out(output, limit) == with_breaks_kept(output, limit),
    decreases output.len(),
{
    if output.len() > 0 {
        let rest = output.skip(1);
        let mark = break_mark();
        assert forall|i: int| 0 <= i < rest.len() implies rest[i] != '\x1b' by {
            assert(rest[i] == output[i + 1]);
        }
        if output[0] == '\n' {
            let all = mark + marked(rest);
            assert(marked(output) == all);
            if limit == Some(0nat) {
                lemma_laid_out_keeps_breaks(rest, limit);
            } else {
                lemma_laid_out_keeps_breaks(rest, one_fewer(limit));
                assert(all.subrange(0, mark.len() as int) =~= mark);
                assert(all.skip(mark.len() as int) =~= marked(rest));
            }
        } else {
            let all = seq![output[0]] + marked(rest);
            assert(marked(output) == all);
            lemma_laid_out_keeps_breaks(rest, limit);
            if limit != Some(0nat) {
                if mark.is_prefix_of(all) {
                    assert(all.subrange(0, mark.len() as int)[0] == all[0]);
                    assert(mark[0] == '\x1b');
                }
                assert(all.skip(1) =~= marked(rest));
            }
        }
    }
}

/// `s` cut to at most `n` characters.
pub open spec fn first_chars(s: Seq<char>, n: nat) -> Seq<char> {
    if n < s.len() {
        s.take(n as int)
    } else {
        s
    }
}

/// The text shown for `output` after the progress line. Output that the
/// settings show in full is the text itself. Longer output is a notice with
/// its size in bytes, then at most `max_output_len` characters of the output
/// as laid out, then a reset sequence and a line of dots.
pub open spec fn dump_text(output: Seq<char>, settings: ExecutionSettings) -> Seq<char> {
    let size = encode_utf8(output).len();
    if settings.shows_in_full(size) {
        output
    } else {
        "Output data is too large. (content-size: "@ + decimal(size) + ")\n"@ + first_chars(
            laid_out(output, settings.kept_breaks()),
            settings.max_output_len as nat,
        ) + "\x1b[m\n......\n"@
    }
}

/// Appends the break mark to `out`.
fn push_break_mark(out: &mut Vec<char>)
    ensures
        final(out)@ == old(out)@ + break_mark(),
{
    out.push('\x1b');
    out.push('[');
    out.push('3');
    out.push('3');
    out.push('m');
    out.push('\\');
    out.push('n');
    out.push('\x1b');
    out.push('[');
    out.push('m');
    assert(out@ =~= old(out)@ + break_mark());
}

/// Whether the break mark stands in `v` at position `at`.
fn mark_at(v: &Vec<char>, at: usize) -> (found: bool)
    requires
        at <= v.len(),
    ensures
        found == break_mark().is_prefix_of(v@.skip(at as int)),
{
    if v.len() - at < 10 {
        return false;
    }
    let found = v[at] == '\x1b' && v[at + 1] == '[' && v[at + 2] == '3' && v[at + 3] == '3' && v[at
        + 4] == 'm' && v[at + 5] == '\\' && v[at + 6] == 'n' && v[at + 7] == '\x1b' && v[at + 8]
        == '[' && v[at + 9] == 'm';
    proof {
        let rest = v@.skip(at as int);
        let mark = break_mark();
        if found {
            assert(rest.subrange(0, 10) =~= mark);
        } else {
            if mark.is_prefix_of(rest) {
                assert(rest.subrange(0, 10) == mark);
                assert(forall|k: int| 0 <= k < 10 ==> rest.subrange(0, 10)[k] == rest[k]);
                assert(rest[0] == mark[0] && rest[1] == mark[1] && rest[2] == mark[2] && rest[3]
                    == mark[3] && rest[4] == mark[4] && rest[5] == mark[5] && rest[6] == mark[6]
                    && rest[7] == mark[7] && rest[8] == mark[8] && rest[9] == mark[9]);
            }
        }
    }
    found
}

/// `v` with every line break replaced by the break mark.
pub fn mark_breaks(v: &Vec<char>) -> (out: Vec<char>)
    ensures
        out@ == marked(v@),
{
    let mut out: Vec<char> = Vec::new();
    let mut i: usize = 0;
    assert(v@.skip(0) =~= v@);
    while i < v.len()
        invariant
            i <= v.len(),
            out@ + marked(v@.skip(i as int)) == marked(v@),
        decreases v.len() - i,
    {
        let ghost before = out@;
        let ghost rest = v@.skip(i as int);
        assert(rest.skip(1) =~= v@.skip(i + 1));
        if v[i] == '\n' {
            push_break_mark(&mut out);
            assert(out@ + marked(rest.skip(1)) =~= before + marked(rest));
        } else {
            out.push(v[i]);
            assert(out@ + marked(rest.skip(1)) =~= before + marked(rest));
        }
        i += 1;
    }
    assert(out@ + marked(v@.skip(i as int)) =~= out@);
    out
}

/// `v` with the first `limit` break marks, or all of them, turned back into
/// line breaks.
pub fn restore_breaks(v: &Vec<char>, limit: Option<usize>) -> (out: Vec<char>)
    ensures
        out@ == restored(v@, limit_of(limit)),
{
    let mut out: Vec<char> = Vec::new();
    let mut left = limit;
    let mut i: usize = 0;
    assert(v@.skip(0) =~= v@);
    while i < v.len()
        invariant
            i <= v.len(),
            out@ + restored(v@.skip(i as int), limit_of(left)) == restored(v@, limit_of(limit)),
        decreases v.len() - i,
    {
        let ghost before = out@;
        let ghost rest = v@.skip(i as int);
        let ghost now = limit_of(left);
        let exhausted = match left {
            Some(n) => n == 0,
            None => false,
        };
        if exhausted {
            out.push(v[i]);
            assert(rest.skip(1) =~= v@.skip(i + 1));
            assert(restored(rest.skip(1), now) == rest.skip(1));
            assert(out@ + rest.skip(1) =~= before + rest);
            i += 1;
        } else if mark_at(v, i) {
            out.push('\n');
            assert(rest.skip(10) =~= v@.skip(i + 10));
            left =
            match left {
                Some(n) => Some((n - 1) as usize),
                None => None,
            };
            assert(out@ + restored(rest.skip(10), one_fewer(now)) =~= before + restored(rest, now));
            i += 10;
        } else {
            out.push(v[i]);
            assert(rest.skip(1) =~= v@.skip(i + 1));
            assert(out@ + restored(rest.skip(1), now) =~= before + restored(rest, now));
            i += 1;
        }
    }
    assert(out@ + v@.skip(i as int) =~= out@);
    out
}

/// The text to show for `output` after the progress line of its run.
pub fn dump(output: &str, settings: &ExecutionSettings) -> (text: String)
    ensures
        text@ == dump_text(output@, *settings),
{
    let size: usize = output.as_bytes().len();
    if settings.max_output_len < 0 || size < settings.max_output_len as usize {
        return String::from_str(output);
    }
    let kept: Option<usize> = if settings.max_output_line >= 1 {
        Some((settings.max_output_line - 1) as usize)
    } else {
        None
    };
    let chars = to_chars(output);
    let marks = mark_breaks(&chars);
    let mut lines = restore_breaks(&marks, kept);
    let most: usize = settings.max_output_len as usize;
    if most < lines.len() {
        lines.truncate(most);
    }
    let mut text = String::from_str("Output data is too large. (content-size: ");
    push_decimal(&mut text, size as u128);
    text.append(")\n");
    push_chars(&mut text, &lines);
    text.append("\x1b[m\n......\n");
    assert(text@ =~= dump_text(output@, *settings));
    text
}

/// How the end of a run is told: `done`, or `TLE` in bold yellow where the
/// time limit was passed.
pub open spec fn status_text(timed_out: bool) -> Seq<char> {
    if timed_out {
        painted(Hue::Yellow, "TLE"@)
    } else {
        "done"@
    }
}

/// The progress line of one finished run: the program's label in bold cyan,
/// the number of the test case in two digits, how many runs of the sweep are
/// over and how many there are, the status, and the elapsed time in seconds
/// with three decimals.
pub open spec fn progress_text(
    label: Seq<char>,
    number: nat,
    finished: nat,
    total: nat,
    timed_out: bool,
    elapsed_ms: nat,
) -> Seq<char> {
    painted(Hue::Cyan, "[ "@ + label + " ]"@) + " testcase::"@ + pad_left(decimal(number), 2, '0')
        + " ("@ + pad_left(decimal(finished), 2, ' ') + "/"@ + pad_left(decimal(total), 2, ' ')
        + ") is "@ + status_text(timed_out) + ". ("@ + decimal(elapsed_ms / 1000) + "."@
        + pad_left(decimal(elapsed_ms % 1000), 3, '0') + " sec)"@
}

/// The progress line of the run on the test case at `index`, counted from 0,
/// once `finished` of the `total` runs of the sweep are over.
pub fn progress_line(
    label: &str,
    index: usize,
    finished: usize,
    total: usize,
    timed_out: bool,
    elapsed_ms: u64,
) -> (line: String)
    ensures
        line@ == progress_text(
            label@,
            (index + 1) as nat,
            finished as nat,
            total as nat,
            timed_out,
            elapsed_ms as nat,
        ),
{
    let mut tag = String::from_str("[ ");
    tag.append(label);
    tag.append(" ]");
    let mut line = PrintColorize::print_cyan(tag);
    line.append(" testcase::");
    push_padded(&mut line, index as u128 + 1, 2, '0');
    line.append(" (");
    push_padded(&mut line, finished as u128, 2, ' ');
    line.append("/");
    push_padded(&mut line, total as u128, 2, ' ');
    line.append(") is ");
    if timed_out {
        let status = PrintColorize::print_yellow(String::from_str("TLE"));
        line.append(status.as_str());
    } else {
        line.append("done");
    }
    line.append(". (");
    push_decimal(&mut line, (elapsed_ms / 1000) as u128);
    line.append(".");
    push_padded(&mut line, (elapsed_ms % 1000) as u128, 3, '0');
    line.append(" sec)");
    assert(line@ =~= progress_text(
        label@,
        (index + 1) as nat,
        finished as nat,
        total as nat,
        timed_out,
        elapsed_ms as nat,
    ));
    line
}

} // verus!

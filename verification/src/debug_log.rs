//! The entries of the debug log: what is written for each call of the
//! multiplexer and for each line of the control connection. The library
//! makes the text; writing it to a file is the caller's part.

use crate::text::{copy_text, decimal, push_decimal, to_chars};
use crate::tmux_control::{push_quoted, quoted, unique_nonce};
use vstd::prelude::*;

verus! {

/// How many characters of an output are kept in an entry.
pub const DEFAULT_PREVIEW_LEN: usize = 400;

/// The arguments, each quoted, with one space between them.
pub open spec fn command_line(args: Seq<Seq<char>>) -> Seq<char>
    decreases args.len(),
{
    if args.len() == 0 {
        Seq::empty()
    } else if args.len() == 1 {
        quoted(args[0])
    } else {
        command_line(args.drop_last()).push(' ') + quoted(args.last())
    }
}

fn push_command_line(out: &mut String, args: &[&str])
    ensures
        final(out)@ == old(out)@ + command_line(args.deep_view()),
{
    let ghost start = out@;
    let ghost all = args.deep_view();
    let mut i: usize = 0;
    assert(all.take(0) =~= Seq::<Seq<char>>::empty());
    assert(out@ =~= start + command_line(all.take(0)));
    while i < args.len()
        invariant
            i <= args.len(),
            all == args.deep_view(),
            all.len() == args.len(),
            out@ == start + command_line(all.take(i as int)),
        decreases args.len() - i,
    {
        proof {
            assert(all.take(i + 1).drop_last() =~= all.take(i as int));
            assert(all.take(i + 1).last() == args@[i as int]@);
            assert(all.take(i + 1)[0] == all[0]);
        }
        if i > 0 {
            out.push(' ');
        }
        push_quoted(out, args[i]);
        i += 1;
        assert(out@ =~= start + command_line(all.take(i as int)));
    }
    assert(all.take(i as int) =~= all);
}

/// The arguments of a call as one line.
pub fn command_to_string(args: &[&str]) -> (out: String)
    ensures
        out@ == command_line(args.deep_view()),
{
    let mut out = String::new();
    push_command_line(&mut out, args);
    assert(Seq::<char>::empty() + command_line(args.deep_view()) =~= command_line(
        args.deep_view(),
    ));
    out
}

/// `text` with each line feed written as `\n` and each carriage return
/// as `\r`.
pub open spec fn one_line(text: Seq<char>) -> Seq<char>
    decreases text.len(),
{
    if text.len() == 0 {
        Seq::empty()
    } else if text.last() == '\n' {
        one_line(text.drop_last()).push('\\').push('n')
    } else if text.last() == '\r' {
        one_line(text.drop_last()).push('\\').push('r')
    } else {
        one_line(text.drop_last()).push(text.last())
    }
}

/// The preview of an output: its text on one line, cut after the first 400
/// characters, with `...` where something was cut.
pub open spec fn preview(text: Seq<char>) -> Seq<char> {
    let line = one_line(text);
    if line.len() > DEFAULT_PREVIEW_LEN {
        line.take(DEFAULT_PREVIEW_LEN as int) + "..."@
    } else {
        line
    }
}

/// The text that bytes stand for, with the replacement character in place
/// of what is not UTF-8, as `String::from_utf8_lossy` gives it.
pub uninterp spec fn lossy_text(bytes: Seq<u8>) -> Seq<char>;

/// `String::from_utf8_lossy`: the text depends on the bytes alone.
#[verifier::external_body]
fn text_from_bytes(data: &[u8]) -> (out: String)
    ensures
        out@ == lossy_text(data@),
{
    String::from_utf8_lossy(data).into_owned()
}

/// The preview of a text.
pub fn summarize_text(text: &str) -> (out: String)
    ensures
        out@ == preview(text@),
{
    let v = to_chars(text);
    let mut line: Vec<char> = Vec::new();
    let mut i: usize = 0;
    assert(v@.take(0) =~= Seq::<char>::empty());
    while i < v.len()
        invariant
            i <= v.len(),
            line@ == one_line(v@.take(i as int)),
        decreases v.len() - i,
    {
        assert(v@.take(i + 1).drop_last() =~= v@.take(i as int));
        let c = v[i];
        if c == '\n' {
            line.push('\\');
            line.push('n');
        } else if c == '\r' {
            line.push('\\');
            line.push('r');
        } else {
            line.push(c);
        }
        i += 1;
    }
    assert(v@.take(i as int) =~= v@);
    let mut out = String::new();
    let cut: bool = line.len() > DEFAULT_PREVIEW_LEN;
    let end: usize = if cut {
        DEFAULT_PREVIEW_LEN
    } else {
        line.len()
    };
    let mut k: usize = 0;
    while k < end
        invariant
            k <= end <= line.len(),
            out@ == line@.take(k as int),
        decreases end - k,
    {
        out.push(line[k]);
        k += 1;
        assert(out@ =~= line@.take(k as int));
    }
    if cut {
        out.append("...");
    } else {
        assert(line@.take(end as int) =~= line@);
    }
    out
}

/// What an entry says of an output: `<empty>` for none, else the preview of
/// its text.
pub open spec fn summary(data: Seq<u8>) -> Seq<char> {
    if data.len() == 0 {
        "<empty>"@
    } else {
        preview(lossy_text(data))
    }
}

/// What an entry says of an output.
pub fn summarize_bytes(data: &[u8]) -> (out: String)
    ensures
        out@ == summary(data@),
{
    if data.len() == 0 {
        return copy_text("<empty>");
    }
    let text = text_from_bytes(data);
    summarize_text(text.as_str())
}

/// `n` in decimal, with a `-` before it where it is negative.
pub open spec fn signed_decimal(n: int) -> Seq<char> {
    if n < 0 {
        seq!['-'] + decimal((-n) as nat)
    } else {
        decimal(n as nat)
    }
}

fn push_signed(out: &mut String, n: i32)
    ensures
        final(out)@ == old(out)@ + signed_decimal(n as int),
{
    if n < 0 {
        out.push('-');
        let magnitude: u128 = (-(n as i64)) as u128;
        push_decimal(out, magnitude);
        assert(out@ =~= old(out)@ + signed_decimal(n as int));
    } else {
        push_decimal(out, n as u128);
    }
}

/// The entry for a call of the multiplexer.
pub fn log_tmux_command(args: &[&str]) -> (out: String)
    ensures
        out@ == "[tmux] >> "@ + command_line(args.deep_view()),
{
    let mut out = copy_text("[tmux] >> ");
    push_command_line(&mut out, args);
    out
}

/// The entry for the result of a call of the multiplexer.
pub open spec fn result_entry(args: Seq<Seq<char>>, status: int, stdout: Seq<u8>, stderr: Seq<u8>)
    -> Seq<char> {
    "[tmux] << "@ + command_line(args) + " (exit "@ + signed_decimal(status) + ") stdout="@
        + summary(stdout) + " stderr="@ + summary(stderr)
}

/// The entry for the result of a call of the multiplexer.
pub fn log_tmux_command_result(args: &[&str], status: i32, stdout: &[u8], stderr: &[u8]) -> (out:
    String)
    ensures
        out@ == result_entry(args.deep_view(), status as int, stdout@, stderr@),
{
    let mut out = copy_text("[tmux] << ");
    push_command_line(&mut out, args);
    out.append(" (exit ");
    push_signed(&mut out, status);
    out.append(") stdout=");
    let first = summarize_bytes(stdout);
    out.append(first.as_str());
    out.append(" stderr=");
    let second = summarize_bytes(stderr);
    out.append(second.as_str());
    out
}

/// The entry for a call of the multiplexer that could not be made.
pub fn log_tmux_command_failure(args: &[&str], reason: &str) -> (out: String)
    ensures
        out@ == "[tmux] !! "@ + command_line(args.deep_view()) + " failed: "@ + reason@,
{
    let mut out = copy_text("[tmux] !! ");
    push_command_line(&mut out, args);
    out.append(" failed: ");
    out.append(reason);
    out
}

/// The entry for a line of the control connection, sent or received.
pub fn log_tmux_control(direction: &str, message: &str) -> (out: String)
    ensures
        out@ == "[tmux-control] "@ + direction@ + seq![' '] + message@,
{
    let mut out = copy_text("[tmux-control] ");
    out.append(direction);
    out.push(' ');
    out.append(message);
    assert(out@ =~= "[tmux-control] "@ + direction@ + seq![' '] + message@);
    out
}

/// `count` zeros.
pub open spec fn zeros(count: nat) -> Seq<char> {
    Seq::new(count, |i: int| '0')
}

/// `n` in decimal, with zeros before it up to nine digits.
pub open spec fn nine_digits(n: nat) -> Seq<char> {
    zeros((9 - decimal(n).len()) as nat) + decimal(n)
}

/// The time of an entry: the seconds since the epoch, a dot, and the
/// nanoseconds of the second in nine digits.
pub open spec fn timestamp_text(nanos: nat) -> Seq<char> {
    decimal(nanos / 1_000_000_000).push('.') + nine_digits(nanos % 1_000_000_000)
}

pub open spec fn power_of_ten(exponent: nat) -> nat
    decreases exponent,
{
    if exponent == 0 {
        1
    } else {
        10 * power_of_ten((exponent - 1) as nat)
    }
}

/// A number below the d-th power of ten has d digits at most.
pub proof fn lemma_decimal_length(n: nat, d: nat)
    requires
        d >= 1,
        n < power_of_ten(d),
    ensures
        decimal(n).len() <= d,
    decreases d,
{
    if n >= 10 {
        assert(power_of_ten(1) == 10) by {
            reveal_with_fuel(power_of_ten, 2);
        }
        lemma_decimal_length(n / 10, (d - 1) as nat);
    }
}

/// The time of an entry for a clock reading in nanoseconds.
pub fn timestamp_at(nanos: u128) -> (out: String)
    ensures
        out@ == timestamp_text(nanos as nat),
{
    let mut out = String::new();
    push_decimal(&mut out, nanos / 1_000_000_000);
    out.push('.');
    let ghost head = out@;
    assert(head =~= decimal((nanos / 1_000_000_000) as nat).push('.'));
    let rest: u128 = nanos % 1_000_000_000;
    let mut digits = String::new();
    push_decimal(&mut digits, rest);
    assert(digits@ =~= decimal(rest as nat));
    let count = digits.as_str().unicode_len();
    proof {
        assert(power_of_ten(9) == 1_000_000_000) by {
            reveal_with_fuel(power_of_ten, 10);
        }
        lemma_decimal_length(rest as nat, 9);
    }
    let mut k: usize = count;
    assert(out@ =~= head + zeros(0));
    while k < 9
        invariant
            count <= k <= 9,
            count == decimal(rest as nat).len(),
            out@ == head + zeros((k - count) as nat),
        decreases 9 - k,
    {
        out.push('0');
        k += 1;
        assert(out@ =~= head + zeros((k - count) as nat));
    }
    out.append(digits.as_str());
    out
}

/// The time of an entry made now.
pub fn timestamp() -> (out: String)
    ensures
        exists|nanos: nat| out@ == #[trigger] timestamp_text(nanos),
{
    let nanos = unique_nonce();
    let out = timestamp_at(nanos);
    assert(out@ == timestamp_text(nanos as nat));
    out
}

/// The line that the log gets for an entry: the time, the entry, and a
/// line feed.
pub fn log_line(time: &str, entry: &str) -> (out: String)
    ensures
        out@ == time@ + seq![' '] + entry@ + seq!['\n'],
{
    let mut out = copy_text(time);
    out.push(' ');
    out.append(entry);
    out.push('\n');
    assert(out@ =~= time@ + seq![' '] + entry@ + seq!['\n']);
    out
}

} // verus!

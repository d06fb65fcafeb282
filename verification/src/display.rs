//! Positions and lengths as text.

use vstd::prelude::*;
use vstd::string::StringExecFns;

use crate::engine::AudioEngine;

verus! {

/// The character of a decimal digit.
pub open spec fn digit(d: nat) -> char {
    (48 + d) as char
}

/// A number in decimal, without leading zeros.
pub open spec fn decimal(n: nat) -> Seq<char>
    decreases n,
{
    if n < 10 {
        seq![digit(n)]
    } else {
        decimal(n / 10).push(digit(n % 10))
    }
}

/// A number of seconds as minutes, a colon and the remaining seconds in two digits.
pub open spec fn clock(seconds: nat) -> Seq<char> {
    decimal(seconds / 60) + seq![':', digit(seconds % 60 / 10), digit(seconds % 60 % 10)]
}

/// A number in decimal, with at least two digits.
pub open spec fn two_digits(n: nat) -> Seq<char> {
    if n < 10 {
        seq!['0', digit(n)]
    } else {
        decimal(n)
    }
}

/// A number of seconds as minutes and remaining seconds, each in at least two digits, with a colon
/// between them.
pub open spec fn padded_clock(seconds: nat) -> Seq<char> {
    two_digits(seconds / 60) + seq![':'] + two_digits(seconds % 60)
}

/// A position and a length, both in milliseconds, the way the progress is shown.
pub open spec fn progress(position_ms: u64, duration_ms: u64) -> Seq<char> {
    padded_clock(position_ms as nat / 1000) + seq![' ', '/', ' '] + padded_clock(
        duration_ms as nat / 1000,
    )
}

/// The text of a decimal digit.
fn digit_text(d: u64) -> (text: &'static str)
    requires
        d < 10,
    ensures
        text@ == seq![digit(d as nat)],
{
    proof {
        reveal_strlit("0");
        reveal_strlit("1");
        reveal_strlit("2");
        reveal_strlit("3");
        reveal_strlit("4");
        reveal_strlit("5");
        reveal_strlit("6");
        reveal_strlit("7");
        reveal_strlit("8");
        reveal_strlit("9");
    }
    let text: &'static str = match d {
        0 => "0",
        1 => "1",
        2 => "2",
        3 => "3",
        4 => "4",
        5 => "5",
        6 => "6",
        7 => "7",
        8 => "8",
        _ => "9",
    };
    assert(text@ =~= seq![digit(d as nat)]);
    text
}

/// Appends a number in decimal.
fn append_decimal(out: &mut String, n: u64)
    ensures
        final(out)@ == old(out)@ + decimal(n as nat),
    decreases n,
{
    if n >= 10 {
        append_decimal(out, n / 10);
    }
    out.append(digit_text(n % 10));
    assert(out@ =~= old(out)@ + decimal(n as nat));
}

/// A number of seconds as minutes, a colon and the remaining seconds in two digits.
pub fn format_seconds(total_secs: u64) -> (text: String)
    ensures
        text@ == clock(total_secs as nat),
{
    let mut text = String::new();
    let secs: u64 = total_secs % 60;
    append_decimal(&mut text, total_secs / 60);
    proof {
        reveal_strlit(":");
    }
    text.append(":");
    text.append(digit_text(secs / 10));
    text.append(digit_text(secs % 10));
    assert(text@ =~= clock(total_secs as nat));
    text
}

/// Appends a number in decimal, with at least two digits.
fn append_two_digits(out: &mut String, n: u64)
    ensures
        final(out)@ == old(out)@ + two_digits(n as nat),
{
    if n < 10 {
        proof {
            reveal_strlit("0");
        }
        out.append("0");
    }
    append_decimal(out, n);
    assert(out@ =~= old(out)@ + two_digits(n as nat));
}

/// A time in milliseconds in the format MM:SS: minutes and remaining whole seconds, each in at
/// least two digits.
pub fn format_time(ms: u64) -> (text: String)
    ensures
        text@ == padded_clock(ms as nat / 1000),
{
    let total_secs: u64 = ms / 1000;
    let mut text = String::new();
    append_two_digits(&mut text, total_secs / 60);
    proof {
        reveal_strlit(":");
    }
    text.append(":");
    append_two_digits(&mut text, total_secs % 60);
    assert(text@ =~= padded_clock(ms as nat / 1000));
    text
}

/// The position and the length, both in milliseconds, with a slash between them.
pub fn progress_text(position_ms: u64, duration_ms: u64) -> (text: String)
    ensures
        text@ == progress(position_ms, duration_ms),
{
    let mut text = format_time(position_ms);
    proof {
        reveal_strlit(" / ");
    }
    text.append(" / ");
    text.append(format_time(duration_ms).as_str());
    assert(text@ =~= progress(position_ms, duration_ms));
    text
}

/// What the window shows of the engine.
pub struct ProgressView {
    pub position_ms: u64,
    pub duration_ms: u64,
    pub text: String,
    pub is_playing: bool,
    pub has_file: bool,
}

/// What the window shows of the engine.
pub fn progress_view(engine: &AudioEngine) -> (view: ProgressView)
    ensures
        view.position_ms == engine.status.position_ms,
        view.duration_ms == engine.status.duration_ms,
        view.text@ == progress(engine.status.position_ms, engine.status.duration_ms),
        view.is_playing == (engine.status.state is Playing),
        view.has_file == engine.status.has_file,
{
    let position_ms: u64 = engine.get_position_ms();
    let duration_ms: u64 = engine.get_duration_ms();
    ProgressView {
        position_ms,
        duration_ms,
        text: progress_text(position_ms, duration_ms),
        is_playing: engine.get_state() == crate::status::PlayerState::Playing,
        has_file: engine.has_file(),
    }
}

/// Different digits have different characters.
proof fn lemma_digits_differ(a: nat, b: nat)
    requires
        a < 10,
        b < 10,
        digit(a) == digit(b),
    ensures
        a == b,
{
}

/// A decimal is never empty.
proof fn lemma_decimal_len(n: nat)
    ensures
        0 < decimal(n).len(),
        10 <= n ==> 1 < decimal(n).len(),
    decreases n,
{
    if 10 <= n {
        lemma_decimal_len(n / 10);
    }
}

/// Numbers with the same decimal are the same.
pub proof fn decimals_are_unique(a: nat, b: nat)
    requires
        decimal(a) == decimal(b),
    ensures
        a == b,
    decreases a,
{
    lemma_decimal_len(a);
    lemma_decimal_len(b);
    assert(decimal(a).last() == digit(a % 10));
    assert(decimal(b).last() == digit(b % 10));
    lemma_digits_differ(a % 10, b % 10);
    if 10 <= a && 10 <= b {
        assert(decimal(a).drop_last() =~= decimal(a / 10));
        assert(decimal(b).drop_last() =~= decimal(b / 10));
        decimals_are_unique(a / 10, b / 10);
    }
}

/// A decimal of several digits does not start with a zero.
proof fn lemma_no_leading_zero(n: nat)
    requires
        0 < n,
    ensures
        decimal(n)[0] != '0',
    decreases n,
{
    if 10 <= n {
        lemma_no_leading_zero(n / 10);
        lemma_decimal_len(n / 10);
    }
}

/// Numbers that look the same in at least two digits are the same.
proof fn lemma_two_digits_unique(a: nat, b: nat)
    requires
        two_digits(a) == two_digits(b),
    ensures
        a == b,
{
    if a < 10 && b < 10 {
        assert(two_digits(a)[1] == digit(a) && two_digits(b)[1] == digit(b));
        lemma_digits_differ(a, b);
    } else if a < 10 {
        assert(two_digits(a)[0] == '0');
        lemma_no_leading_zero(b);
    } else if b < 10 {
        assert(two_digits(b)[0] == '0');
        lemma_no_leading_zero(a);
    } else {
        decimals_are_unique(a, b);
    }
}

/// Fewer than sixty seconds take two digits.
proof fn lemma_seconds_len(n: nat)
    requires
        n < 60,
    ensures
        two_digits(n).len() == 2,
{
    if 10 <= n {
        assert(decimal(n / 10).len() == 1);
    }
}

/// Two times show the same text exactly if they lie in the same whole second.
pub proof fn shown_times_tell_seconds_apart(a: u64, b: u64)
    ensures
        padded_clock(a as nat / 1000) == padded_clock(b as nat / 1000) <==> a as nat / 1000
            == b as nat / 1000,
{
    let x = a as nat / 1000;
    let y = b as nat / 1000;
    if padded_clock(x) == padded_clock(y) {
        let n = padded_clock(x).len() as int;
        lemma_seconds_len(x % 60);
        lemma_seconds_len(y % 60);
        assert(padded_clock(x).take(n - 3) =~= two_digits(x / 60));
        assert(padded_clock(y).take(n - 3) =~= two_digits(y / 60));
        lemma_two_digits_unique(x / 60, y / 60);
        assert(padded_clock(x).skip(n - 2) =~= two_digits(x % 60));
        assert(padded_clock(y).skip(n - 2) =~= two_digits(y % 60));
        lemma_two_digits_unique(x % 60, y % 60);
    }
}

/// Whether a character is a decimal digit.
pub open spec fn is_digit(c: char) -> bool {
    '0' <= c && c <= '9'
}

/// The number that decimal digits stand for.
pub open spec fn number(text: Seq<char>) -> int
    decreases text.len(),
{
    if text.len() == 0 {
        0
    } else {
        number(text.drop_last()) * 10 + (text.last() as int - '0' as int)
    }
}

/// A number in decimal reads back as the number, consists of digits, and does not start with a zero
/// unless that is all.
pub proof fn decimals_read_back(n: nat)
    ensures
        number(decimal(n)) == n,
        0 < decimal(n).len(),
        forall|i: int| 0 <= i < decimal(n).len() ==> is_digit(#[trigger] decimal(n)[i]),
        1 < decimal(n).len() ==> decimal(n)[0] != '0',
    decreases n,
{
    let text = decimal(n);
    if n < 10 {
        assert(text.drop_last() =~= Seq::empty());
        assert(number(text.drop_last()) == 0);
    } else {
        decimals_read_back(n / 10);
        assert(text.drop_last() =~= decimal(n / 10));
        assert forall|i: int| 0 <= i < text.len() implies is_digit(#[trigger] text[i]) by {
            if i < text.len() - 1 {
                assert(text[i] == decimal(n / 10)[i]);
            }
        }
        lemma_no_leading_zero(n);
    }
}

/// A number in at least two digits reads back as the number, consists of digits, and starts with a
/// zero only if it has just two.
proof fn lemma_two_digits_read_back(n: nat)
    ensures
        number(two_digits(n)) == n,
        2 <= two_digits(n).len(),
        forall|i: int| 0 <= i < two_digits(n).len() ==> is_digit(#[trigger] two_digits(n)[i]),
        2 < two_digits(n).len() ==> two_digits(n)[0] != '0',
{
    let text = two_digits(n);
    if n < 10 {
        assert(text.drop_last() =~= seq!['0']);
        assert(seq!['0'].drop_last() =~= Seq::empty());
        assert(number(Seq::<char>::empty()) == 0);
        assert(number(seq!['0']) == 0);
        assert(number(text) == n);
    } else {
        decimals_read_back(n);
        lemma_decimal_len(n);
    }
}

/// A time is shown as two numbers in at least two digits with a colon between them: the remaining
/// seconds, fewer than sixty, behind the colon, and in front of it the minutes, which start with a
/// zero only if they have just two digits. Read together they are the time.
pub proof fn shown_times_read_back(seconds: nat)
    ensures
        ({
            let text = padded_clock(seconds);
            let colon = text.len() - 3;
            let minutes = text.take(colon);
            let rest = text.skip(colon + 1);
            &&& 2 <= colon
            &&& text[colon] == ':'
            &&& forall|i: int| 0 <= i < text.len() && i != colon ==> is_digit(#[trigger] text[i])
            &&& number(minutes) * 60 + number(rest) == seconds
            &&& 0 <= number(rest) < 60
            &&& 2 < colon ==> text[0] != '0'
        }),
{
    let minutes = two_digits(seconds / 60);
    let rest = two_digits(seconds % 60);
    let text = padded_clock(seconds);
    lemma_two_digits_read_back(seconds / 60);
    lemma_two_digits_read_back(seconds % 60);
    lemma_seconds_len(seconds % 60);
    let colon = text.len() - 3;
    assert(text.take(colon) =~= minutes);
    assert(text.skip(colon + 1) =~= rest);
    assert(text[0] == minutes[0]);
    assert forall|i: int| 0 <= i < text.len() && i != colon implies is_digit(
        #[trigger] text[i],
    ) by {
        if i < colon {
            assert(text[i] == minutes[i]);
        } else {
            assert(text[i] == rest[i - colon - 1]);
        }
    }
}

/// A length is shown as the minutes, without leading zeros, a colon and the remaining seconds in two
/// digits. Read together they are the length.
pub proof fn shown_lengths_read_back(seconds: nat)
    ensures
        ({
            let text = clock(seconds);
            let colon = text.len() - 3;
            let minutes = text.take(colon);
            let rest = text.skip(colon + 1);
            &&& 1 <= colon
            &&& text[colon] == ':'
            &&& forall|i: int| 0 <= i < text.len() && i != colon ==> is_digit(#[trigger] text[i])
            &&& number(minutes) * 60 + number(rest) == seconds
            &&& 0 <= number(rest) < 60
            &&& 1 < colon ==> text[0] != '0'
        }),
{
    let minutes = decimal(seconds / 60);
    let text = clock(seconds);
    let tens = seconds % 60 / 10;
    let ones = seconds % 60 % 10;
    let rest = seq![digit(tens), digit(ones)];
    decimals_read_back(seconds / 60);
    let colon = text.len() - 3;
    assert(text.take(colon) =~= minutes);
    assert(text.skip(colon + 1) =~= rest);
    assert(rest.drop_last() =~= seq![digit(tens)]);
    assert(seq![digit(tens)].drop_last() =~= Seq::empty());
    assert(number(Seq::<char>::empty()) == 0);
    assert(number(seq![digit(tens)]) == tens);
    assert(number(rest) == tens * 10 + ones);
    assert(text[0] == minutes[0]);
    assert forall|i: int| 0 <= i < text.len() && i != colon implies is_digit(
        #[trigger] text[i],
    ) by {
        if i < colon {
            assert(text[i] == minutes[i]);
        }
    }
}

/// The progress is the position and the length, each shown as a time in whole seconds, with a slash
/// between them.
pub proof fn the_progress_shows_both_times(position_ms: u64, duration_ms: u64)
    ensures
        ({
            let position = padded_clock((position_ms / 1000) as nat);
            let duration = padded_clock((duration_ms / 1000) as nat);
            let text = progress(position_ms, duration_ms);
            let between = position.len() as int;
            &&& text.len() == position.len() + 3 + duration.len()
            &&& text.take(between) == position
            &&& text[between] == ' ' && text[between + 1] == '/' && text[between + 2] == ' '
            &&& text.skip(between + 3) == duration
        }),
{
    let position = padded_clock((position_ms / 1000) as nat);
    let duration = padded_clock((duration_ms / 1000) as nat);
    let text = progress(position_ms, duration_ms);
    assert(text.take(position.len() as int) =~= position);
    assert(text.skip(position.len() as int + 3) =~= duration);
}

} // verus!

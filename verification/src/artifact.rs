//! Names of capture artifacts.
//!
//! Each display's capture is written to a file of the cycle's temporary
//! directory before the recognizer reads it. The file is named after the
//! display, so that the captures of one cycle never share a file.
use vstd::prelude::*;

verus! {

/// Identifies one display within a session.
pub type ScreenId = u32;

/// The character for one decimal digit.
pub open spec fn digit_char(d: nat) -> char {
    if d == 0 {
        '0'
    } else if d == 1 {
        '1'
    } else if d == 2 {
        '2'
    } else if d == 3 {
        '3'
    } else if d == 4 {
        '4'
    } else if d == 5 {
        '5'
    } else if d == 6 {
        '6'
    } else if d == 7 {
        '7'
    } else if d == 8 {
        '8'
    } else {
        '9'
    }
}

/// `n` written in decimal, without leading zeros.
pub open spec fn decimal(n: nat) -> Seq<char>
    decreases n,
{
    if n < 10 {
        seq![digit_char(n)]
    } else {
        decimal(n / 10).push(digit_char(n % 10))
    }
}

/// The file name of the capture artifact of display `screen`.
pub open spec fn artifact_name(screen: ScreenId) -> Seq<char> {
    "temp_screenshot_"@ + decimal(screen as nat) + ".png"@
}

/// The one-character string for the decimal digit `d`.
fn digit_str(d: u32) -> (s: &'static str)
    requires
        d < 10,
    ensures
        s@ == seq![digit_char(d as nat)],
{
    proof {
        reveal_strlit("0");
        reveal_strlit("1");
        reveal_strlit("2");
        reveal_strlit("3");
        reveal_strlit("4");
        reveal_strlit("5");
        reveal_strlit("6");
        reveal_strlit("7");
        reveal_strlit("8");
        reveal_strlit("9");
    }
    if d == 0 {
        "0"
    } else if d == 1 {
        "1"
    } else if d == 2 {
        "2"
    } else if d == 3 {
        "3"
    } else if d == 4 {
        "4"
    } else if d == 5 {
        "5"
    } else if d == 6 {
        "6"
    } else if d == 7 {
        "7"
    } else if d == 8 {
        "8"
    } else {
        "9"
    }
}

/// Appends `n` in decimal to `out`.
fn push_decimal(out: &mut String, n: u32)
    ensures
        final(out)@ == old(out)@ + decimal(n as nat),
    decreases n,
{
    if n >= 10 {
        push_decimal(out, n / 10);
    }
    out.append(digit_str(n % 10));
}

/// The file name under which the capture of display `screen` is kept
/// while the recognizer reads it.
pub fn artifact_file_name(screen: ScreenId) -> (name: String)
    ensures
        name@ == artifact_name(screen),
{
    let mut name = String::from_str("temp_screenshot_");
    push_decimal(&mut name, screen);
    name.append(".png");
    name
}

/// Every number has at least one decimal digit.
proof fn lemma_decimal_nonempty(n: nat)
    ensures
        decimal(n).len() >= 1,
    decreases n,
{
    if n >= 10 {
        lemma_decimal_nonempty(n / 10);
    }
}

/// Different numbers are written differently.
pub proof fn lemma_decimal_injective(a: nat, b: nat)
    requires
        decimal(a) == decimal(b),
    ensures
        a == b,
    decreases a,
{
    if a < 10 && b < 10 {
        assert(decimal(a)[0] == digit_char(a));
        assert(decimal(b)[0] == digit_char(b));
        lemma_digit_injective(a, b);
    } else if a < 10 {
        // one digit against at least two
        lemma_decimal_nonempty(b / 10);
        assert(decimal(b).len() == decimal(b / 10).len() + 1);
    } else if b < 10 {
        lemma_decimal_nonempty(a / 10);
        assert(decimal(a).len() == decimal(a / 10).len() + 1);
    } else {
        // equal last digits and, by induction, equal fronts
        let front_a = decimal(a / 10);
        let front_b = decimal(b / 10);
        let last_a = digit_char(a % 10);
        let last_b = digit_char(b % 10);
        assert(front_a.push(last_a).last() == last_a);
        assert(front_b.push(last_b).last() == last_b);
        assert(front_a.push(last_a).drop_last() =~= front_a);
        assert(front_b.push(last_b).drop_last() =~= front_b);
        lemma_decimal_injective(a / 10, b / 10);
        lemma_digit_injective(a % 10, b % 10);
    }
}

/// Different digits have different characters.
proof fn lemma_digit_injective(a: nat, b: nat)
    requires
        a < 10,
        b < 10,
        digit_char(a) == digit_char(b),
    ensures
        a == b,
{
}

/// Two displays never share an artifact file.
pub proof fn law_artifact_names_differ(a: ScreenId, b: ScreenId)
    requires
        a != b,
    ensures
        artifact_name(a) != artifact_name(b),
{
    let head = "temp_screenshot_"@;
    let tail = ".png"@;
    let digits_a = decimal(a as nat);
    let digits_b = decimal(b as nat);
    if artifact_name(a) == artifact_name(b) {
        let from = head.len() as int;
        assert((head + digits_a + tail).len() == (head + digits_b + tail).len());
        assert((head + digits_a + tail).subrange(from, from + digits_a.len()) =~= digits_a);
        assert((head + digits_b + tail).subrange(from, from + digits_b.len()) =~= digits_b);
        lemma_decimal_injective(a as nat, b as nat);
    }
}

} // verus!

//! Decimal numbers and dotted object identifiers as text.

use vstd::prelude::*;

verus! {

/// The character of a decimal digit.
pub open spec fn digit_char(d: nat) -> char {
    ('0' as u32 + d) as char
}

/// The decimal notation of a number, without leading zeros.
pub open spec fn decimal_text(n: nat) -> Seq<char>
    decreases n,
{
    if n < 10 {
        seq![digit_char(n)]
    } else {
        decimal_text(n / 10).push(digit_char(n % 10))
    }
}

/// The arcs of an object identifier in decimal, with a dot between them.
pub open spec fn dotted_text(arcs: Seq<u32>) -> Seq<char>
    decreases arcs.len(),
{
    if arcs.len() == 0 {
        Seq::empty()
    } else if arcs.len() == 1 {
        decimal_text(arcs[0] as nat)
    } else {
        dotted_text(arcs.drop_last()).push('.') + decimal_text(arcs.last() as nat)
    }
}

/// Writes one decimal digit.
fn digit(d: u64) -> (text: &'static str)
    requires
        d < 10,
    ensures
        text@ == seq![digit_char(d as nat)],
{
    proof {
        reveal_strlit("0");
        reveal_strlit("1");
        reveal_strlit("2");
        reveal_strlit("3");
        reveal_strlit("4");
        reveal_strlit("5");
        reveal_strlit("6");
        reveal_strlit("7");
        reveal_strlit("8");
        reveal_strlit("9");
    }
    match d {
        0 => "0",
        1 => "1",
        2 => "2",
        3 => "3",
        4 => "4",
        5 => "5",
        6 => "6",
        7 => "7",
        8 => "8",
        _ => "9",
    }
}

/// Writes a number in decimal.
pub fn decimal(n: u64) -> (text: String)
    ensures
        text@ == decimal_text(n as nat),
    decreases n,
{
    if n < 10 {
        digit(n).to_string()
    } else {
        let mut text: String = decimal(n / 10);
        text.append(digit(n % 10));
        text
    }
}

/// Writes an object identifier in dotted form.
pub fn dotted(arcs: &[u32]) -> (text: String)
    ensures
        text@ == dotted_text(arcs@),
{
    let mut text: String = String::new();
    let mut i: usize = 0;
    while i < arcs.len()
        invariant
            i <= arcs@.len(),
            text@ == dotted_text(arcs@.take(i as int)),
        decreases arcs@.len() - i,
    {
        proof {
            reveal_strlit(".");
            assert(arcs@.take(i + 1).drop_last() =~= arcs@.take(i as int));
            assert("."@ =~= seq!['.']);
        }
        if i > 0 {
            text.append(".");
        }
        let arc: String = decimal(arcs[i] as u64);
        text.append(arc.as_str());
        i = i + 1;
    }
    proof {
        assert(arcs@.take(i as int) =~= arcs@);
    }
    text
}

/// Whether a character is a decimal digit.
pub open spec fn is_digit(c: char) -> bool {
    '0' <= c && c <= '9'
}

/// The number that the digits at the end of the text stand for; 0 where the text does not end
/// in a digit.
pub open spec fn last_arc(text: Seq<char>) -> nat
    decreases text.len(),
{
    if text.len() == 0 || !is_digit(text.last()) {
        0
    } else {
        last_arc(text.drop_last()) * 10 + (text.last() as u32 - '0' as u32) as nat
    }
}

/// No run of digits in the text stands for a number above `u32::MAX`.
pub open spec fn all_arcs_fit(text: Seq<char>) -> bool {
    forall|k: int| 0 <= k <= text.len() ==> last_arc(#[trigger] text.take(k)) <= u32::MAX
}

/// Tells whether every run of digits in a text fits a `u32`.
pub fn arcs_fit(text: &str) -> (fits: bool)
    ensures
        fits == all_arcs_fit(text@),
{
    let mut arc: u64 = 0;
    let ghost whole: Seq<char> = text@;
    for c in it: text.chars()
        invariant
            whole == text@,
            it.seq() == whole,
            arc == last_arc(whole.take(it.index())),
            arc <= u32::MAX,
            forall|k: int| 0 <= k <= it.index() ==> last_arc(#[trigger] whole.take(k)) <= u32::MAX,
    {
        proof {
            let k: int = it.index();
            assert(whole.take(k + 1).drop_last() =~= whole.take(k));
            assert(whole.take(k + 1).last() == c);
        }
        if '0' <= c && c <= '9' {
            arc = arc * 10 + (c as u64 - '0' as u64);
            if arc > u32::MAX as u64 {
                assert(last_arc(whole.take(it.index() + 1)) > u32::MAX);
                return false;
            }
        } else {
            arc = 0;
        }
    }
    proof {
        assert(whole.take(whole.len() as int) =~= whole);
    }
    true
}

} // verus!

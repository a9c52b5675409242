//! The printed form of a value.

use crate::value::{Value, ValueView};
use vstd::prelude::*;

verus! {

/// The character of a decimal digit.
pub open spec fn digit_char(d: int) -> char {
    if d == 0 {
        '0'
    } else if d == 1 {
        '1'
    } else if d == 2 {
        '2'
    } else if d == 3 {
        '3'
    } else if d == 4 {
        '4'
    } else if d == 5 {
        '5'
    } else if d == 6 {
        '6'
    } else if d == 7 {
        '7'
    } else if d == 8 {
        '8'
    } else {
        '9'
    }
}

/// A natural number in decimal, without leading zeros.
pub open spec fn decimal_nat(n: nat) -> Seq<char>
    decreases n,
{
    if n < 10 {
        seq![digit_char(n as int)]
    } else {
        decimal_nat(n / 10).push(digit_char((n % 10) as int))
    }
}

/// An integer in decimal, with a minus sign when it is negative.
pub open spec fn decimal(n: int) -> Seq<char> {
    if n < 0 {
        seq!['-'] + decimal_nat((-n) as nat)
    } else {
        decimal_nat(n as nat)
    }
}

/// The printed form of a value.
pub open spec fn render_spec(v: ValueView) -> Seq<char>
    decreases v, 0nat,
{
    match v {
        ValueView::Undef => "<undefined>"@,
        ValueView::Nil => "()"@,
        ValueView::Boolean(b) => if b {
            "#t"@
        } else {
            "#f"@
        },
        ValueView::Integer(n) => decimal(n as int),
        ValueView::Text(s) => s,
        ValueView::Closure(_) => "<lambda>"@,
        ValueView::Pair(car, cdr) => seq!['('] + render_spec(*car) + render_tail(*cdr),
    }
}

/// What follows the first element of a printed pair: the further elements of
/// the chain, then `)` after `Nil`, or ` . `, the last value and `)`.
pub open spec fn render_tail(v: ValueView) -> Seq<char>
    decreases v, 1nat,
{
    match v {
        ValueView::Pair(car, cdr) => seq![' '] + render_spec(*car) + render_tail(*cdr),
        ValueView::Nil => seq![')'],
        _ => seq![' ', '.', ' '] + render_spec(v) + seq![')'],
    }
}

fn digit_text(d: u8) -> (text: &'static str)
    requires
        d < 10,
    ensures
        text@ == seq![digit_char(d as int)],
{
    proof {
        reveal_strlit("0");
        reveal_strlit("1");
        reveal_strlit("2");
        reveal_strlit("3");
        reveal_strlit("4");
        reveal_strlit("5");
        reveal_strlit("6");
        reveal_strlit("7");
        reveal_strlit("8");
        reveal_strlit("9");
    }
    let text = if d == 0 {
        "0"
    } else if d == 1 {
        "1"
    } else if d == 2 {
        "2"
    } else if d == 3 {
        "3"
    } else if d == 4 {
        "4"
    } else if d == 5 {
        "5"
    } else if d == 6 {
        "6"
    } else if d == 7 {
        "7"
    } else if d == 8 {
        "8"
    } else {
        "9"
    };
    assert(text@ =~= seq![digit_char(d as int)]);
    text
}

fn push_decimal_nat(out: &mut String, n: u64)
    ensures
        final(out)@ == old(out)@ + decimal_nat(n as nat),
    decreases n,
{
    if n >= 10 {
        push_decimal_nat(out, n / 10);
    }
    let d: u8 = (n % 10) as u8;
    out.append(digit_text(d));
    assert(out@ =~= old(out)@ + decimal_nat(n as nat));
}

/// Appends an integer in decimal.
pub fn push_decimal(out: &mut String, n: i64)
    ensures
        final(out)@ == old(out)@ + decimal(n as int),
{
    if n < 0 {
        proof {
            reveal_strlit("-");
        }
        out.append("-");
        let magnitude: u64 = if n == i64::MIN {
            9223372036854775808u64
        } else {
            (-n) as u64
        };
        push_decimal_nat(out, magnitude);
        assert(out@ =~= old(out)@ + decimal(n as int));
    } else {
        push_decimal_nat(out, n as u64);
    }
}

/// Appends the printed form of a value.
pub fn render_into(out: &mut String, v: &Value)
    ensures
        final(out)@ == old(out)@ + render_spec(v@),
    decreases v,
{
    match v {
        Value::Undef => {
            out.append("<undefined>");
        },
        Value::Nil => {
            out.append("()");
        },
        Value::Boolean(b) => {
            if *b {
                out.append("#t");
            } else {
                out.append("#f");
            }
        },
        Value::Integer(n) => {
            push_decimal(out, *n);
        },
        Value::Text(s) => {
            out.append(s.as_str());
        },
        Value::Closure(_) => {
            out.append("<lambda>");
        },
        Value::Pair(car, cdr) => {
            proof {
                reveal_strlit("(");
                reveal_strlit(" ");
                reveal_strlit(")");
                reveal_strlit(" . ");
            }
            out.append("(");
            render_into(out, &**car);
            let ghost target = old(out)@ + render_spec(v@);
            assert(out@ + render_tail(cdr@) =~= target);
            let mut cur: &Value = &**cdr;
            loop
                invariant_except_break
                    out@ + render_tail(cur@) == target,
                invariant
                    decreases_to!(v => cur),
                    "("@ == seq!['('],
                    " "@ == seq![' '],
                    ")"@ == seq![')'],
                    " . "@ == seq![' ', '.', ' '],
                ensures
                    out@ == target,
                decreases cur,
            {
                let ghost before = out@;
                match cur {
                    Value::Pair(a, d) => {
                        out.append(" ");
                        render_into(out, &**a);
                        assert(out@ + render_tail(d@) =~= before + render_tail(cur@));
                        cur = &**d;
                    },
                    Value::Nil => {
                        out.append(")");
                        assert(out@ =~= before + render_tail(cur@));
                        break ;
                    },
                    _ => {
                        out.append(" . ");
                        render_into(out, cur);
                        out.append(")");
                        assert(out@ =~= before + render_tail(cur@));
                        break ;
                    },
                }
            }
        },
    }
}

/// The printed form of a value: `<undefined>`, `()`, `#t` and `#f`, an
/// integer in decimal, text as it is, `<lambda>`, and a pair as its elements
/// in brackets, with ` . ` before a last element that is not the empty list.
pub fn render(v: &Value) -> (text: String)
    ensures
        text@ == render_spec(v@),
{
    let mut text = String::new();
    render_into(&mut text, v);
    assert(text@ =~= render_spec(v@));
    text
}

} // verus!

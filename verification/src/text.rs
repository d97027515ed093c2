//! Text of numbers and lists, as it appears in log messages.

use vstd::prelude::*;
use vstd::string::StringExecFns;

verus! {

/// The character of the decimal digit `d`.
pub open spec fn digit_char(d: int) -> char {
    if d == 0 {
        '0'
    } else if d == 1 {
        '1'
    } else if d == 2 {
        '2'
    } else if d == 3 {
        '3'
    } else if d == 4 {
        '4'
    } else if d == 5 {
        '5'
    } else if d == 6 {
        '6'
    } else if d == 7 {
        '7'
    } else if d == 8 {
        '8'
    } else {
        '9'
    }
}

/// The decimal numeral of `n`, without leading zeros.
pub open spec fn decimal(n: nat) -> Seq<char>
    decreases n,
{
    if n < 10 {
        seq![digit_char(n as int)]
    } else {
        decimal(n / 10).push(digit_char((n % 10) as int))
    }
}

/// The numerals of `ids`, separated by a comma and a space.
pub open spec fn joined(ids: Seq<u32>) -> Seq<char>
    decreases ids.len(),
{
    if ids.len() == 0 {
        Seq::empty()
    } else if ids.len() == 1 {
        decimal(ids[0] as nat)
    } else {
        joined(ids.drop_last()) + ", "@ + decimal(ids.last() as nat)
    }
}

/// The list `ids` in square brackets.
pub open spec fn bracketed(ids: Seq<u32>) -> Seq<char> {
    "["@ + joined(ids) + "]"@
}

/// A quantity given in thousandths, as a numeral with two decimals,
/// rounded to the nearest hundredth with halves rounded up.
pub open spec fn two_decimals(thousandths: nat) -> Seq<char> {
    let hundredths = (thousandths + 5) / 10;
    decimal(hundredths / 100) + "."@ + seq![
        digit_char(((hundredths / 10) % 10) as int),
        digit_char((hundredths % 10) as int),
    ]
}

/// The digits `least first`, as text with the last digit of the sequence in
/// front.
spec fn digits_text(digits: Seq<u8>) -> Seq<char>
    decreases digits.len(),
{
    if digits.len() == 0 {
        Seq::empty()
    } else {
        seq![digit_char(digits.last() as int)] + digits_text(digits.drop_last())
    }
}

/// The numeral of what is left to write, which is nothing once it is zero.
spec fn leading(rest: nat) -> Seq<char> {
    if rest > 0 {
        decimal(rest)
    } else {
        Seq::empty()
    }
}

/// The text of one decimal digit.
fn digit_text(d: u8) -> (text: &'static str)
    requires
        d < 10,
    ensures
        text@ == seq![digit_char(d as int)],
{
    proof {
        reveal_strlit("0");
        reveal_strlit("1");
        reveal_strlit("2");
        reveal_strlit("3");
        reveal_strlit("4");
        reveal_strlit("5");
        reveal_strlit("6");
        reveal_strlit("7");
        reveal_strlit("8");
        reveal_strlit("9");
    }
    let text: &'static str = if d == 0 {
        "0"
    } else if d == 1 {
        "1"
    } else if d == 2 {
        "2"
    } else if d == 3 {
        "3"
    } else if d == 4 {
        "4"
    } else if d == 5 {
        "5"
    } else if d == 6 {
        "6"
    } else if d == 7 {
        "7"
    } else if d == 8 {
        "8"
    } else {
        "9"
    };
    assert(text@ =~= seq![digit_char(d as int)]);
    text
}

/// Appends the decimal numeral of `n` to `out`.
pub fn append_decimal(out: &mut String, n: u64)
    ensures
        final(out)@ == old(out)@ + decimal(n as nat),
{
    let mut digits: Vec<u8> = Vec::new();
    digits.push((n % 10) as u8);
    let mut rest: u64 = n / 10;
    proof {
        assert(digits@.drop_last() =~= Seq::<u8>::empty());
        assert(digits_text(Seq::<u8>::empty()) =~= Seq::<char>::empty());
        assert(digits@.last() == n % 10);
        assert(digits_text(digits@) =~= seq![digit_char((n % 10) as int)]);
        assert(decimal(n as nat) =~= leading(rest as nat) + digits_text(digits@));
    }
    while rest > 0
        invariant
            digits@.len() > 0,
            forall|i: int| 0 <= i < digits@.len() ==> #[trigger] digits@[i] < 10,
            decimal(n as nat) == leading(rest as nat) + digits_text(digits@),
        decreases rest,
    {
        let d: u8 = (rest % 10) as u8;
        let ghost held = digits@;
        digits.push(d);
        proof {
            assert(digits@.drop_last() =~= held);
            assert(decimal(rest as nat) =~= leading((rest / 10) as nat) + seq![digit_char(d as int)]);
            assert(leading((rest / 10) as nat) + digits_text(digits@) =~= leading(rest as nat)
                + digits_text(held));
        }
        rest = rest / 10;
    }
    let ghost start = out@;
    let mut i: usize = digits.len();
    proof {
        assert(digits@.take(i as int) =~= digits@);
    }
    while i > 0
        invariant
            i <= digits@.len(),
            forall|k: int| 0 <= k < digits@.len() ==> #[trigger] digits@[k] < 10,
            out@ + digits_text(digits@.take(i as int)) == start + digits_text(digits@),
        decreases i,
    {
        let ghost held = out@;
        out.append(digit_text(digits[i - 1]));
        proof {
            assert(digits@.take(i as int).drop_last() =~= digits@.take(i - 1));
            assert(out@ + digits_text(digits@.take(i - 1)) =~= held + digits_text(
                digits@.take(i as int),
            ));
        }
        i -= 1;
    }
    proof {
        assert(digits_text(digits@.take(0)) =~= Seq::<char>::empty());
        assert(out@ =~= out@ + digits_text(digits@.take(0)));
        assert(leading(0) + digits_text(digits@) =~= digits_text(digits@));
    }
}

/// Appends the list `ids` in square brackets to `out`.
pub fn append_bracketed(out: &mut String, ids: &Vec<u32>)
    ensures
        final(out)@ == old(out)@ + bracketed(ids@),
{
    let ghost start = out@;
    out.append("[");
    let mut i: usize = 0;
    proof {
        assert(joined(ids@.take(0)) =~= Seq::<char>::empty());
        assert(out@ =~= start + "["@ + joined(ids@.take(0)));
    }
    while i < ids.len()
        invariant
            i <= ids@.len(),
            out@ == start + "["@ + joined(ids@.take(i as int)),
        decreases ids.len() - i,
    {
        let ghost held = out@;
        if i > 0 {
            out.append(", ");
        }
        append_decimal(out, ids[i] as u64);
        proof {
            let upto = ids@.take(i + 1);
            assert(upto.drop_last() =~= ids@.take(i as int));
            assert(upto.last() == ids@[i as int]);
            if i > 0 {
                assert(out@ =~= start + "["@ + joined(upto));
            } else {
                assert(upto[0] == ids@[0]);
                assert(joined(ids@.take(0)) =~= Seq::<char>::empty());
                assert(out@ =~= start + "["@ + joined(upto));
            }
        }
        i += 1;
    }
    proof {
        assert(ids@.take(i as int) =~= ids@);
    }
    let ghost held = out@;
    out.append("]");
    proof {
        assert(out@ =~= start + bracketed(ids@));
    }
}

/// Appends a quantity given in thousandths, with two decimals.
pub fn append_two_decimals(out: &mut String, thousandths: u64)
    ensures
        final(out)@ == old(out)@ + two_decimals(thousandths as nat),
{
    let ghost start = out@;
    let hundredths: u64 = thousandths / 10 + if thousandths % 10 >= 5 {
        1
    } else {
        0
    };
    assert(hundredths == (thousandths + 5) / 10);
    append_decimal(out, hundredths / 100);
    out.append(".");
    out.append(digit_text(((hundredths / 10) % 10) as u8));
    out.append(digit_text((hundredths % 10) as u8));
    proof {
        assert(out@ =~= start + two_decimals(thousandths as nat));
    }
}

} // verus!

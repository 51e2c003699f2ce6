//! Numbers and names as text.
use vstd::prelude::*;

verus! {

/// `String::push` adds a character to the end of the text.
pub assume_specification[ std::string::String::push ](s: &mut String, c: char)
    ensures
        final(s)@ == old(s)@.push(c),
;

/// The digit for a number below sixteen.
pub open spec fn digit(d: nat) -> char {
    if d < 10 {
        ('0' as u32 + d) as char
    } else {
        ('a' as u32 + d - 10) as char
    }
}

/// A number in decimal digits.
pub open spec fn decimal(n: nat) -> Seq<char>
    decreases n,
{
    if n < 10 {
        seq![digit(n)]
    } else {
        decimal(n / 10).push(digit(n % 10))
    }
}

/// The last `width` hexadecimal digits of a number, with leading zeros.
pub open spec fn hexadecimal(n: nat, width: nat) -> Seq<char>
    decreases width,
{
    if width == 0 {
        Seq::empty()
    } else {
        hexadecimal(n / 16, (width - 1) as nat).push(digit(n % 16))
    }
}

fn digit_char(d: u8) -> (c: char)
    requires
        d < 16,
    ensures
        c == digit(d as nat),
{
    if d < 10 {
        (0x30u8 + d) as char
    } else {
        (0x61u8 + (d - 10)) as char
    }
}

/// Adds a number in decimal digits.
pub fn push_decimal(text: &mut String, n: usize)
    ensures
        final(text)@ == old(text)@ + decimal(n as nat),
    decreases n,
{
    if n >= 10 {
        push_decimal(text, n / 10);
    }
    text.push(digit_char((n % 10) as u8));
}

/// Adds the last `width` hexadecimal digits of a number.
pub fn push_hexadecimal(text: &mut String, n: u64, width: usize)
    ensures
        final(text)@ == old(text)@ + hexadecimal(n as nat, width as nat),
    decreases width,
{
    if width > 0 {
        push_hexadecimal(text, n / 16, width - 1);
        text.push(digit_char((n % 16) as u8));
    }
}

/// Different digits look different, and none looks like a colon.
proof fn lemma_digit(a: nat, b: nat)
    requires
        a < 16,
        b < 16,
    ensures
        digit(a) == digit(b) ==> a == b,
        digit(a) != ':',
{
}

/// A number can be read back from its decimal digits, which hold no colon.
pub proof fn law_decimal_is_faithful(a: nat, b: nat)
    ensures
        decimal(a) == decimal(b) ==> a == b,
        !decimal(a).contains(':'),
        decimal(a).len() > 0,
    decreases a,
{
    let (x, y) = (decimal(a), decimal(b));
    lemma_digit(a % 10, b % 10);
    if a >= 10 {
        law_decimal_is_faithful(a / 10, b / 10);
        assert forall|i: int| 0 <= i < x.len() implies x[i] != ':' by {
            if i < x.len() - 1 {
                assert(decimal(a / 10)[i] == x[i]);
            }
        }
        if b >= 10 {
            assert(x.drop_last() =~= decimal(a / 10));
            assert(y.drop_last() =~= decimal(b / 10));
            assert(x.last() == digit(a % 10) && y.last() == digit(b % 10));
        } else {
            assert(decimal(a / 10).len() > 0);
            assert(y.len() == 1 && x.len() > 1);
        }
    } else if b >= 10 {
        lemma_decimal_not_empty(b / 10);
        assert(y.len() > 1 && x.len() == 1);
    } else {
        assert(x[0] == digit(a) && y[0] == digit(b));
    }
}

proof fn lemma_decimal_not_empty(n: nat)
    ensures
        decimal(n).len() > 0,
{
}

/// A number can be read back from sixteen hexadecimal digits.
pub proof fn law_hexadecimal_is_faithful(a: u64, b: u64)
    ensures
        hexadecimal(a as nat, 16) == hexadecimal(b as nat, 16) ==> a == b,
        hexadecimal(a as nat, 16).len() == 16,
{
    lemma_hexadecimal(a as nat, b as nat, 16);
    assert(pow16(16) == 0x1_0000_0000_0000_0000) by {
        reveal_with_fuel(pow16, 17);
    }
}

spec fn pow16(width: nat) -> nat
    decreases width,
{
    if width == 0 {
        1
    } else {
        16 * pow16((width - 1) as nat)
    }
}

proof fn lemma_hexadecimal(a: nat, b: nat, width: nat)
    ensures
        hexadecimal(a, width).len() == width,
        hexadecimal(a, width) == hexadecimal(b, width) && a < pow16(width) && b < pow16(width)
            ==> a == b,
    decreases width,
{
    if width > 0 {
        let (x, y) = (hexadecimal(a, width), hexadecimal(b, width));
        lemma_hexadecimal(a / 16, b / 16, (width - 1) as nat);
        lemma_digit(a % 16, b % 16);
        assert(x.drop_last() =~= hexadecimal(a / 16, (width - 1) as nat));
        assert(y.drop_last() =~= hexadecimal(b / 16, (width - 1) as nat));
        assert(x.last() == digit(a % 16) && y.last() == digit(b % 16));
    }
}

/// The number that a digit stands for.
pub open spec fn digit_value(c: char) -> int {
    if '0' <= c <= '9' {
        c as int - '0' as int
    } else {
        c as int - 'a' as int + 10
    }
}

/// The number that some digits stand for, each worth `base` times the one behind
/// it.
pub open spec fn number_in(digits: Seq<char>, base: int) -> int
    decreases digits.len(),
{
    if digits.len() == 0 {
        0
    } else {
        base * number_in(digits.drop_last(), base) + digit_value(digits.last())
    }
}

/// A digit stands for its number, in the usual characters.
pub proof fn law_digits_are_the_usual_ones(d: nat)
    requires
        d < 16,
    ensures
        digit_value(digit(d)) == d,
        d < 10 <==> '0' <= digit(d) <= '9',
        d >= 10 <==> 'a' <= digit(d) <= 'f',
{
}

/// A number is what its decimal digits stand for. There are no other characters
/// among them, and no zero that could be left out.
pub proof fn law_decimal_digits_stand_for_the_number(n: nat)
    ensures
        number_in(decimal(n), 10) == n,
        decimal(n).len() > 0,
        n > 0 ==> decimal(n)[0] != '0',
        n == 0 ==> decimal(n) == seq!['0'],
        forall|i: int| 0 <= i < decimal(n).len() ==> '0' <= #[trigger] decimal(n)[i] <= '9',
    decreases n,
{
    let x = decimal(n);
    law_digits_are_the_usual_ones(n % 10);
    if n >= 10 {
        law_decimal_digits_stand_for_the_number(n / 10);
        assert(x.drop_last() =~= decimal(n / 10));
        assert(x[0] == decimal(n / 10)[0]);
        assert forall|i: int| 0 <= i < x.len() implies '0' <= #[trigger] x[i] <= '9' by {
            if i < x.len() - 1 {
                assert(x[i] == decimal(n / 10)[i]);
            }
        }
    } else {
        assert(x.drop_last() =~= Seq::<char>::empty());
        assert(number_in(x.drop_last(), 10) == 0);
    }
}

/// What is left of a number that is written with so many hexadecimal digits is
/// what these stand for: all of it, where there are enough of them.
pub proof fn law_hexadecimal_digits_stand_for_the_number(n: u64)
    ensures
        number_in(hexadecimal(n as nat, 16), 16) == n,
        hexadecimal(n as nat, 16).len() == 16,
        forall|i: int|
            0 <= i < 16 ==> {
                let c = #[trigger] hexadecimal(n as nat, 16)[i];
                '0' <= c <= '9' || 'a' <= c <= 'f'
            },
{
    lemma_hexadecimal_value(n as nat, 16);
    assert(pow16(16) == 0x1_0000_0000_0000_0000) by {
        reveal_with_fuel(pow16, 17);
    }
}

proof fn lemma_hexadecimal_value(n: nat, width: nat)
    ensures
        hexadecimal(n, width).len() == width,
        n < pow16(width) ==> number_in(hexadecimal(n, width), 16) == n,
        forall|i: int|
            0 <= i < width ==> {
                let c = #[trigger] hexadecimal(n, width)[i];
                '0' <= c <= '9' || 'a' <= c <= 'f'
            },
    decreases width,
{
    if width > 0 {
        let x = hexadecimal(n, width);
        let front = hexadecimal(n / 16, (width - 1) as nat);
        law_digits_are_the_usual_ones(n % 16);
        lemma_hexadecimal_value(n / 16, (width - 1) as nat);
        assert(x.drop_last() =~= front);
        assert forall|i: int| 0 <= i < width implies {
            let c = #[trigger] x[i];
            '0' <= c <= '9' || 'a' <= c <= 'f'
        } by {
            if i < width - 1 {
                assert(x[i] == front[i]);
            }
        }
    }
}

} // verus!

use vstd::prelude::*;
use vstd::string::*;
use crate::error::LedgerError;

verus! {

/// Whether `c` is one of the ten decimal digits.
pub open spec fn is_digit(c: char) -> bool {
    '0' <= c <= '9'
}

/// The number that a decimal digit stands for.
pub open spec fn digit_value(c: char) -> nat {
    (c as u32 - 48) as nat
}

/// The decimal digit that stands for `d`, for `d` below ten.
pub open spec fn digit_char(d: nat) -> char {
    seq!['0', '1', '2', '3', '4', '5', '6', '7', '8', '9'][d as int]
}

/// Whether `text` is a decimal numeral: one digit or more, and nothing else.
pub open spec fn is_decimal(text: Seq<char>) -> bool {
    &&& text.len() > 0
    &&& forall|i: int| 0 <= i < text.len() ==> is_digit(#[trigger] text[i])
}

/// The number that a run of digits denotes, the most significant first.
pub open spec fn decimal_value(text: Seq<char>) -> nat
    decreases text.len(),
{
    if text.len() == 0 {
        0
    } else {
        10 * decimal_value(text.drop_last()) + digit_value(text.last())
    }
}

/// The decimal numeral of `n`, without leading zeros.
pub open spec fn decimal_text(n: nat) -> Seq<char>
    decreases n,
{
    if n < 10 {
        seq![digit_char(n)]
    } else {
        decimal_text(n / 10).push(digit_char(n % 10))
    }
}

/// The amount that a text denotes: a decimal numeral in whole units that a
/// `u64` can hold. Anything else is no amount.
pub open spec fn amount_of(text: Seq<char>) -> Result<u64, LedgerError> {
    if is_decimal(text) && decimal_value(text) <= u64::MAX {
        Ok(decimal_value(text) as u64)
    } else {
        Err(LedgerError::InvalidAmount)
    }
}

/// A numeral denotes at least as much as any of its prefixes.
pub proof fn lemma_decimal_value_grows(text: Seq<char>, n: int)
    requires
        0 <= n <= text.len(),
    ensures
        decimal_value(text.take(n)) <= decimal_value(text),
    decreases text.len() - n,
{
    if n == text.len() {
        assert(text.take(n) =~= text);
    } else {
        lemma_decimal_value_grows(text, n + 1);
        assert(text.take(n + 1).drop_last() =~= text.take(n));
    }
}

/// The numeral of a number is a decimal numeral, and denotes that number.
pub proof fn lemma_decimal_text_denotes(n: nat)
    ensures
        is_decimal(decimal_text(n)),
        decimal_value(decimal_text(n)) == n,
    decreases n,
{
    if n < 10 {
        let text = decimal_text(n);
        assert(text.drop_last() =~= Seq::<char>::empty());
        assert(decimal_value(text.drop_last()) == 0);
    } else {
        lemma_decimal_text_denotes(n / 10);
        let text = decimal_text(n);
        assert(text.drop_last() =~= decimal_text(n / 10));
    }
}

/// Writing an amount and reading it back gives the amount.
pub proof fn lemma_amount_round_trip(amount: u64)
    ensures
        amount_of(decimal_text(amount as nat)) == Ok::<u64, LedgerError>(amount),
{
    lemma_decimal_text_denotes(amount as nat);
}

/// Reads an amount in whole units from its decimal numeral. Signs, spaces,
/// fractions and numbers beyond `u64` are refused with `InvalidAmount`.
pub fn parse_amount(text: &str) -> (r: Result<u64, LedgerError>)
    ensures
        r == amount_of(text@),
{
    if !text.is_ascii() {
        proof {
            let i = choose|i: int| 0 <= i < text@.len() && !('\0' <= #[trigger] text@[i] <= '\u{7f}');
            assert(!is_digit(text@[i]));
        }
        return Err(LedgerError::InvalidAmount);
    }
    proof {
        is_ascii_spec_bytes(text);
    }
    let len = text.as_bytes().len();
    if len == 0 {
        return Err(LedgerError::InvalidAmount);
    }
    let mut value: u64 = 0;
    let mut i: usize = 0;
    while i < len
        invariant
            i <= len,
            len == text@.len(),
            text.is_ascii(),
            forall|j: int| 0 <= j < i ==> is_digit(#[trigger] text@[j]),
            value as nat == decimal_value(text@.take(i as int)),
        decreases len - i,
    {
        let byte = text.get_ascii(i);
        if byte < 48 || byte > 57 {
            assert(!is_digit(text@[i as int]));
            return Err(LedgerError::InvalidAmount);
        }
        let digit: u64 = (byte - 48) as u64;
        proof {
            assert(text@.take(i + 1).drop_last() =~= text@.take(i as int));
            assert(text@.take(i + 1).last() == text@[i as int]);
            assert(digit as nat == digit_value(text@[i as int]));
            lemma_decimal_value_grows(text@, i + 1);
        }
        if value > (u64::MAX - digit) / 10 {
            return Err(LedgerError::InvalidAmount);
        }
        value = value * 10 + digit;
        i = i + 1;
    }
    proof {
        assert(text@.take(len as int) =~= text@);
    }
    Ok(value)
}

/// The text of one decimal digit.
fn digit_text(d: u64) -> (text: &'static str)
    requires
        d < 10,
    ensures
        text@ == seq![digit_char(d as nat)],
{
    proof {
        reveal_strlit("0");
        reveal_strlit("1");
        reveal_strlit("2");
        reveal_strlit("3");
        reveal_strlit("4");
        reveal_strlit("5");
        reveal_strlit("6");
        reveal_strlit("7");
        reveal_strlit("8");
        reveal_strlit("9");
    }
    let text = if d == 0 {
        "0"
    } else if d == 1 {
        "1"
    } else if d == 2 {
        "2"
    } else if d == 3 {
        "3"
    } else if d == 4 {
        "4"
    } else if d == 5 {
        "5"
    } else if d == 6 {
        "6"
    } else if d == 7 {
        "7"
    } else if d == 8 {
        "8"
    } else {
        "9"
    };
    assert(text@ =~= seq![digit_char(d as nat)]);
    text
}

/// Writes an amount as its decimal numeral.
pub fn format_amount(amount: u64) -> (text: String)
    ensures
        text@ == decimal_text(amount as nat),
    decreases amount,
{
    if amount < 10 {
        String::from_str(digit_text(amount))
    } else {
        let mut text = format_amount(amount / 10);
        text.append(digit_text(amount % 10));
        assert(text@ =~= decimal_text(amount as nat));
        text
    }
}

} // verus!

use vstd::prelude::*;

verus! {

/// The character of a decimal digit.
pub open spec fn digit_char(d: int) -> char {
    if d == 0 {
        '0'
    } else if d == 1 {
        '1'
    } else if d == 2 {
        '2'
    } else if d == 3 {
        '3'
    } else if d == 4 {
        '4'
    } else if d == 5 {
        '5'
    } else if d == 6 {
        '6'
    } else if d == 7 {
        '7'
    } else if d == 8 {
        '8'
    } else {
        '9'
    }
}

/// The decimal digits of a natural number, most significant first, without leading zeros.
pub open spec fn digits(n: nat) -> Seq<char>
    decreases n,
{
    if n < 10 {
        seq![digit_char(n as int)]
    } else {
        digits(n / 10).push(digit_char((n % 10) as int))
    }
}

/// The decimal text of an integer: its digits, behind a minus sign where it is negative.
pub open spec fn decimal_text(n: int) -> Seq<char> {
    if n < 0 {
        seq!['-'] + digits((-n) as nat)
    } else {
        digits(n as nat)
    }
}

/// A decimal digit.
pub open spec fn is_digit(c: char) -> bool {
    '0' as int <= c as int <= '9' as int
}

/// The number that a row of digits stands for, read from the left.
pub open spec fn magnitude(text: Seq<char>) -> int
    decreases text.len(),
{
    if text.len() == 0 {
        0
    } else {
        magnitude(text.drop_last()) * 10 + (text.last() as int - '0' as int)
    }
}

/// The digits of a numeral: all of it but a minus sign in front.
pub open spec fn unsigned(text: Seq<char>) -> Seq<char> {
    if text.len() > 0 && text[0] == '-' {
        text.skip(1)
    } else {
        text
    }
}

/// The number that a reader takes out of a text.
pub open spec fn number_in(text: Seq<char>) -> int {
    if text.len() > 0 && text[0] == '-' {
        -magnitude(unsigned(text))
    } else {
        magnitude(unsigned(text))
    }
}

/// The text is a numeral as it is commonly written: digits, at least one, behind a minus sign or
/// not, with no zero in front but in the numeral of zero.
pub open spec fn is_numeral(text: Seq<char>) -> bool {
    &&& unsigned(text).len() > 0
    &&& forall|i: int| 0 <= i < unsigned(text).len() ==> is_digit(#[trigger] unsigned(text)[i])
    &&& unsigned(text)[0] == '0' ==> text.len() == 1
}

/// The digits of a number read back as the number.
proof fn lemma_digits(n: nat)
    ensures
        digits(n).len() > 0,
        magnitude(digits(n)) == n,
        forall|i: int| 0 <= i < digits(n).len() ==> is_digit(#[trigger] digits(n)[i]),
        digits(n)[0] == '0' ==> n == 0 && digits(n).len() == 1,
    decreases n,
{
    if n < 10 {
        let one = digits(n);
        assert(one =~= seq![digit_char(n as int)]);
        assert(one.drop_last() =~= Seq::<char>::empty());
        assert(magnitude(one.drop_last()) == 0);
    } else {
        lemma_digits(n / 10);
        assert(digits(n).drop_last() =~= digits(n / 10));
        assert(digits(n)[0] == digits(n / 10)[0]);
    }
}

/// A number that is written down reads back as it was, whatever number it is, and is written down
/// as numbers commonly are.
pub proof fn law_numbers_read_back(n: int)
    ensures
        is_numeral(decimal_text(n)),
        number_in(decimal_text(n)) == n,
{
    if n < 0 {
        lemma_digits((-n) as nat);
        assert(unsigned(decimal_text(n)) =~= digits((-n) as nat));
    } else {
        lemma_digits(n as nat);
        assert(unsigned(decimal_text(n)) =~= digits(n as nat));
    }
}

/// Different numbers are written down differently.
pub proof fn law_numbers_are_told_apart(a: int, b: int)
    requires
        a != b,
    ensures
        decimal_text(a) != decimal_text(b),
{
    law_numbers_read_back(a);
    law_numbers_read_back(b);
}

/// The line is made of `head` and, behind it, of the keys in their order, each with a numeral
/// behind it that reads as the number in its place.
pub open spec fn shows(
    line: Seq<char>,
    head: Seq<char>,
    keys: Seq<Seq<char>>,
    numbers: Seq<int>,
) -> bool
    decreases keys.len(),
{
    if keys.len() == 0 {
        line == head && numbers.len() == 0
    } else {
        &&& numbers.len() == keys.len()
        &&& exists|rest: Seq<char>, numeral: Seq<char>|
            {
                &&& line == #[trigger] (rest + keys.last() + numeral)
                &&& is_numeral(numeral)
                &&& number_in(numeral) == numbers.last()
                &&& shows(rest, head, keys.drop_last(), numbers.drop_last())
            }
    }
}

/// A line to which a key and a number are added shows the number under the key.
pub proof fn lemma_shows_more(
    line: Seq<char>,
    head: Seq<char>,
    keys: Seq<Seq<char>>,
    numbers: Seq<int>,
    key: Seq<char>,
    n: int,
)
    requires
        shows(line, head, keys, numbers),
    ensures
        shows(line + key + decimal_text(n), head, keys.push(key), numbers.push(n)),
{
    law_numbers_read_back(n);
    assert(keys.push(key).drop_last() =~= keys);
    assert(numbers.push(n).drop_last() =~= numbers);
    assert(line + key + decimal_text(n) == line + keys.push(key).last() + decimal_text(n));
}

/// Each key ends in an equals sign.
pub open spec fn all_keys(keys: Seq<Seq<char>>) -> bool {
    forall|i: int| 0 <= i < keys.len() ==> (#[trigger] keys[i]).len() > 0 && keys[i].last() == '='
}

/// No numeral holds an equals sign.
proof fn lemma_no_equals_sign(text: Seq<char>)
    requires
        is_numeral(text),
    ensures
        forall|i: int| 0 <= i < text.len() ==> #[trigger] text[i] != '=',
{
    assert forall|i: int| 0 <= i < text.len() implies #[trigger] text[i] != '=' by {
        if text[0] == '-' {
            if i > 0 {
                assert(text[i] == unsigned(text)[i - 1]);
            }
        } else {
            assert(text[i] == unsigned(text)[i]);
        }
    }
}

/// The numeral behind the last key of a line, and what stands before the key, are settled by the
/// line.
proof fn lemma_last_numeral(
    key: Seq<char>,
    rest: Seq<char>,
    numeral: Seq<char>,
    rest2: Seq<char>,
    numeral2: Seq<char>,
)
    requires
        key.len() > 0,
        key.last() == '=',
        is_numeral(numeral),
        is_numeral(numeral2),
        rest + key + numeral == rest2 + key + numeral2,
    ensures
        numeral == numeral2,
        rest == rest2,
{
    lemma_no_equals_sign(numeral);
    lemma_no_equals_sign(numeral2);
    let line = rest + key + numeral;
    let line2 = rest2 + key + numeral2;
    let at = line.len() - numeral.len() - 1;
    let at2 = line.len() - numeral2.len() - 1;
    assert(line[at] == '=');
    assert(line2[at2] == '=');
    if at < at2 {
        assert(line[at2] == numeral[at2 - at - 1]);
    } else if at2 < at {
        assert(line2[at] == numeral2[at - at2 - 1]);
    }
    assert(numeral =~= line.skip(at + 1));
    assert(numeral2 =~= line.skip(at + 1));
    assert(rest =~= line.take(at + 1 - key.len()));
    assert(rest2 =~= line.take(at + 1 - key.len()));
}

/// A line settles the numbers that it shows.
pub proof fn law_line_settles_numbers(
    line: Seq<char>,
    head: Seq<char>,
    keys: Seq<Seq<char>>,
    a: Seq<int>,
    b: Seq<int>,
)
    requires
        all_keys(keys),
        shows(line, head, keys, a),
        shows(line, head, keys, b),
    ensures
        a == b,
    decreases keys.len(),
{
    if keys.len() == 0 {
        assert(a =~= b);
    } else {
        let key = keys.last();
        let (rest, numeral) = choose|rest: Seq<char>, numeral: Seq<char>|
            {
                &&& line == #[trigger] (rest + keys.last() + numeral)
                &&& is_numeral(numeral)
                &&& number_in(numeral) == a.last()
                &&& shows(rest, head, keys.drop_last(), a.drop_last())
            };
        let (rest2, numeral2) = choose|rest: Seq<char>, numeral: Seq<char>|
            {
                &&& line == #[trigger] (rest + keys.last() + numeral)
                &&& is_numeral(numeral)
                &&& number_in(numeral) == b.last()
                &&& shows(rest, head, keys.drop_last(), b.drop_last())
            };
        assert(key == keys[keys.len() - 1]);
        lemma_last_numeral(key, rest, numeral, rest2, numeral2);
        assert(all_keys(keys.drop_last()));
        law_line_settles_numbers(rest, head, keys.drop_last(), a.drop_last(), b.drop_last());
        assert(a =~= a.drop_last().push(a.last()));
        assert(b =~= b.drop_last().push(b.last()));
    }
}

/// The one-digit string of `d`.
fn digit_str(d: u128) -> (s: &'static str)
    requires
        d < 10,
    ensures
        s@ == seq![digit_char(d as int)],
{
    proof {
        reveal_strlit("0");
        reveal_strlit("1");
        reveal_strlit("2");
        reveal_strlit("3");
        reveal_strlit("4");
        reveal_strlit("5");
        reveal_strlit("6");
        reveal_strlit("7");
        reveal_strlit("8");
        reveal_strlit("9");
    }
    if d == 0 {
        "0"
    } else if d == 1 {
        "1"
    } else if d == 2 {
        "2"
    } else if d == 3 {
        "3"
    } else if d == 4 {
        "4"
    } else if d == 5 {
        "5"
    } else if d == 6 {
        "6"
    } else if d == 7 {
        "7"
    } else if d == 8 {
        "8"
    } else {
        "9"
    }
}

/// Appends the decimal digits of `n` to `out`.
fn push_digits(out: &mut String, n: u128)
    ensures
        final(out)@ == old(out)@ + digits(n as nat),
    decreases n,
{
    if n >= 10 {
        push_digits(out, n / 10);
    }
    out.append(digit_str(n % 10));
}

/// The decimal text of `n`.
pub fn decimal(n: i128) -> (s: String)
    ensures
        s@ == decimal_text(n as int),
        is_numeral(s@),
        number_in(s@) == n,
{
    proof {
        law_numbers_read_back(n as int);
    }
    let mut out = String::new();
    if n < 0 {
        proof {
            reveal_strlit("-");
        }
        out.append("-");
        let magnitude: u128 = (-(n + 1)) as u128 + 1;
        push_digits(&mut out, magnitude);
    } else {
        push_digits(&mut out, n as u128);
    }
    out
}

/// The two strings one behind the other.
pub fn joined(a: &str, b: &str) -> (s: String)
    ensures
        s@ == a@ + b@,
{
    let mut out = a.to_owned();
    out.append(b);
    out
}

} // verus!

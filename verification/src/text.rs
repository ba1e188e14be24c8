use vstd::prelude::*;

verus! {

/// The decimal digit character for a value below ten.
pub open spec fn digit_char(d: nat) -> char
    recommends
        d < 10,
{
    ((d + 48) as u8) as char
}

/// The decimal representation of `n`, without leading zeros.
pub open spec fn decimal(n: nat) -> Seq<char>
    decreases n,
{
    if n < 10 {
        seq![digit_char(n)]
    } else {
        decimal(n / 10).push(digit_char(n % 10))
    }
}

/// The number a text of decimal digits stands for, most significant digit first.
pub open spec fn digits_value(s: Seq<char>) -> int
    decreases s.len(),
{
    if s.len() == 0 {
        0
    } else {
        digits_value(s.drop_last()) * 10 + ((s.last() as u32) as int - 48)
    }
}

/// A decimal digit character.
pub open spec fn is_digit(c: char) -> bool {
    '0' <= c && c <= '9'
}

proof fn lemma_digit_code(d: nat)
    requires
        d < 10,
    ensures
        (digit_char(d) as u32) as int == d + 48,
        is_digit(digit_char(d)),
        d > 0 ==> digit_char(d) != '0',
{
    let b: u8 = (d + 48) as u8;
    assert(b == d + 48);
    assert((b as char) as u32 == b as u32);
}

/// The decimal text of a number is a non-empty run of digits, without a
/// leading zero unless the number is zero, that reads back as the number.
pub proof fn lemma_decimal_reads_back(n: nat)
    ensures
        decimal(n).len() > 0,
        forall|i: int| 0 <= i < decimal(n).len() ==> is_digit(#[trigger] decimal(n)[i]),
        n > 0 ==> decimal(n)[0] != '0',
        digits_value(decimal(n)) == n,
    decreases n,
{
    if n < 10 {
        assert(decimal(n) == seq![digit_char(n)]);
        assert(decimal(n).drop_last() =~= Seq::<char>::empty());
        lemma_digit_code(n);
        assert(decimal(n).last() == digit_char(n));
        assert(digits_value(decimal(n)) == digits_value(decimal(n).drop_last()) * 10 + ((digit_char(n) as u32) as int - 48));
    } else {
        let q = n / 10;
        let d = n % 10;
        lemma_decimal_reads_back(q);
        let c = digit_char(d);
        lemma_digit_code(d);
        assert(decimal(n) == decimal(q).push(c));
        assert(decimal(n).drop_last() =~= decimal(q));
        assert(decimal(n)[0] == decimal(q)[0]);
        assert forall|i: int| 0 <= i < decimal(n).len() implies is_digit(#[trigger] decimal(n)[i]) by {
            if i < decimal(q).len() {
                assert(decimal(n)[i] == decimal(q)[i]);
            }
        }
        assert(decimal(n).last() == c);
        assert(digits_value(decimal(n)) == digits_value(decimal(q)) * 10 + ((c as u32) as int - 48));
        assert(n == q * 10 + d);
    }
}

/// Appends one character to a string (`String::push`).
#[verifier::external_body]
pub(crate) fn push_char(s: &mut String, c: char)
    ensures
        final(s)@ == old(s)@.push(c),
{
    s.push(c)
}

/// Writes `n` in decimal, as `usize::to_string` does.
pub fn decimal_string(n: usize) -> (s: String)
    ensures
        s@ == decimal(n as nat),
{
    let mut digits: Vec<char> = Vec::new();
    let mut m: usize = n;
    let d: u8 = (m % 10) as u8;
    digits.push((d + 48) as char);
    m = m / 10;
    assert(digits@ == seq![digit_char((n % 10) as nat)]);
    while m > 0
        invariant
            decimal(n as nat) == (if m == 0 { Seq::<char>::empty() } else { decimal(m as nat) }) + digits@,
        decreases m,
    {
        let d: u8 = (m % 10) as u8;
        let c: char = (d + 48) as char;
        assert(c == digit_char((m % 10) as nat));
        digits.insert(0, c);
        let ghost old_m = m;
        m = m / 10;
        assert(decimal(old_m as nat) == (if m == 0 { Seq::<char>::empty() } else { decimal(m as nat) }).push(c));
    }
    let mut s = String::new();
    let mut i: usize = 0;
    while i < digits.len()
        invariant
            0 <= i <= digits.len(),
            s@ == digits@.subrange(0, i as int),
        decreases digits.len() - i,
    {
        push_char(&mut s, digits[i]);
        i = i + 1;
        assert(s@ =~= digits@.subrange(0, i as int));
    }
    assert(digits@.subrange(0, digits.len() as int) =~= digits@);
    s
}

} // verus!

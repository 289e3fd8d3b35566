//! Decimal numbers.
use vstd::prelude::*;

verus! {

/// Whether `c` is an ASCII decimal digit.
pub open spec fn is_digit(c: char) -> bool {
    '0' <= c <= '9'
}

/// The digit with the value `d`.
pub open spec fn digit(d: nat) -> char {
    (48 + d % 10) as char
}

/// The decimal notation of `n`, without leading zeros.
pub open spec fn decimal(n: nat) -> Seq<char>
    decreases n,
{
    if n < 10 {
        seq![digit(n)]
    } else {
        decimal(n / 10).push(digit(n % 10))
    }
}

/// The number that a sequence of digits writes down.
pub open spec fn value_of(digits: Seq<char>) -> nat
    decreases digits.len(),
{
    if digits.len() == 0 {
        0
    } else {
        value_of(digits.drop_last()) * 10 + (digits.last() as nat - 48) as nat
    }
}

/// Whether `s` holds nothing but digits.
pub open spec fn all_digits(s: Seq<char>) -> bool {
    forall|i: int| 0 <= i < s.len() ==> is_digit(#[trigger] s[i])
}

/// Reading a decimal notation gives back the number that was written.
pub proof fn value_undoes_decimal(n: nat)
    ensures
        decimal(n).len() > 0,
        all_digits(decimal(n)),
        value_of(decimal(n)) == n,
    decreases n,
{
    if n < 10 {
        assert(decimal(n).drop_last() =~= Seq::<char>::empty());
        assert(value_of(decimal(n).drop_last()) == 0);
    } else {
        value_undoes_decimal(n / 10);
        assert(decimal(n).drop_last() =~= decimal(n / 10));
    }
}

/// A longer run of digits never writes a smaller number.
pub proof fn lemma_value_grows(digits: Seq<char>, i: int)
    requires
        0 <= i <= digits.len(),
        all_digits(digits),
    ensures
        value_of(digits.take(i)) <= value_of(digits),
    decreases digits.len() - i,
{
    if i == digits.len() {
        assert(digits.take(i) =~= digits);
    } else {
        let shorter = digits.drop_last();
        assert forall|j: int| 0 <= j < shorter.len() implies is_digit(#[trigger] shorter[j]) by {
            assert(shorter[j] == digits[j]);
        }
        assert(shorter.take(i) =~= digits.take(i));
        lemma_value_grows(shorter, i);
    }
}

/// The digit with the value `d`.
fn digit_char(d: u64) -> (r: char)
    requires
        d < 10,
    ensures
        r == digit(d as nat),
{
    (48u8 + d as u8) as char
}

/// The decimal notation of `n`.
pub fn write_decimal(n: u64) -> (r: String)
    ensures
        r@ == decimal(n as nat),
    decreases n,
{
    if n < 10 {
        let mut out = String::new();
        out.push(digit_char(n));
        out
    } else {
        let mut out = write_decimal(n / 10);
        out.push(digit_char(n % 10));
        out
    }
}

/// The number below `65536` that `chars[from..to]` writes down, if the digits
/// write one.
pub fn read_u16(chars: &Vec<char>, from: usize, to: usize) -> (r: Option<u16>)
    requires
        from <= to <= chars@.len(),
        all_digits(chars@.subrange(from as int, to as int)),
    ensures
        r == (if value_of(chars@.subrange(from as int, to as int)) <= u16::MAX {
            Some(value_of(chars@.subrange(from as int, to as int)) as u16)
        } else {
            None
        }),
{
    let ghost digits = chars@.subrange(from as int, to as int);
    let mut value: u32 = 0;
    let mut i: usize = from;
    proof {
        assert(digits.take(0) =~= Seq::<char>::empty());
    }
    while i < to
        invariant
            from <= i <= to <= chars@.len(),
            digits == chars@.subrange(from as int, to as int),
            all_digits(digits),
            value == value_of(digits.take(i - from)),
            value <= u16::MAX,
        decreases to - i,
    {
        proof {
            assert(digits[i - from] == chars@[i as int]);
            assert(is_digit(digits[i - from]));
            assert(digits.take(i - from + 1).drop_last() =~= digits.take(i - from));
        }
        value = value * 10 + (chars[i] as u32 - 48);
        i = i + 1;
        if value > 65535 {
            proof {
                lemma_value_grows(digits, i - from);
            }
            return None;
        }
    }
    proof {
        assert(digits.take(to - from) =~= digits);
    }
    Some(value as u16)
}

/// The end of the run of digits that starts at `from`.
pub fn digits_end(chars: &Vec<char>, from: usize) -> (to: usize)
    requires
        from <= chars@.len(),
    ensures
        from <= to <= chars@.len(),
        all_digits(chars@.subrange(from as int, to as int)),
        to < chars@.len() ==> !is_digit(chars@[to as int]),
{
    let mut to: usize = from;
    while to < chars.len() && '0' <= chars[to] && chars[to] <= '9'
        invariant
            from <= to <= chars@.len(),
            forall|j: int| from <= j < to ==> is_digit(#[trigger] chars@[j]),
        decreases chars@.len() - to,
    {
        to = to + 1;
    }
    proof {
        let digits = chars@.subrange(from as int, to as int);
        assert forall|j: int| 0 <= j < digits.len() implies is_digit(#[trigger] digits[j]) by {
            assert(digits[j] == chars@[j + from]);
        }
    }
    to
}

/// A number is written without leading zeros, in the ten digits from `0` to
/// `9`, and each further digit counts ten times what stood before it.
pub proof fn decimal_notation_is_positional(n: nat, digits: Seq<char>, c: char)
    ensures
        is_digit(c) <==> seq!['0', '1', '2', '3', '4', '5', '6', '7', '8', '9'].contains(c),
        value_of(Seq::empty()) == 0,
        '0' <= c <= '9' ==> value_of(digits.push(c)) == 10 * value_of(digits) + (c as int - '0' as int),
        n > 0 ==> decimal(n)[0] != '0',
        decimal(0) == seq!['0'],
    decreases n,
{
    let all = seq!['0', '1', '2', '3', '4', '5', '6', '7', '8', '9'];
    if is_digit(c) {
        assert(all[c as int - 48] == c);
    }
    assert(digits.push(c).drop_last() =~= digits);
    if n >= 10 {
        decimal_notation_is_positional(n / 10, digits, c);
        value_undoes_decimal(n / 10);
        assert(decimal(n)[0] == decimal(n / 10)[0]);
    }
}

} // verus!

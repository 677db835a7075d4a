//! Unsigned numbers as text: how the command line's numbers are read and how
//! the numbers of the output are written.
//!
//! A number that is read is an optional `+` followed by one or more digits of
//! the base, and nothing else: no blank, no underscore, no minus sign.
//! Letters of either case are the digits from ten upwards. A number that is
//! written has no sign and no leading zero, and its letters are small.

use vstd::prelude::*;
use vstd::string::*;
use vstd::utf8::*;

verus! {

/// The value of `c` as a digit, whatever the base: `0` to `9` are 0 to 9,
/// `a` to `z` and `A` to `Z` are 10 to 35. Other characters are no digits.
pub open spec fn digit_value(c: char) -> Option<nat> {
    if '0' <= c <= '9' {
        Some((c as int - '0' as int) as nat)
    } else if 'a' <= c <= 'z' {
        Some((c as int - 'a' as int + 10) as nat)
    } else if 'A' <= c <= 'Z' {
        Some((c as int - 'A' as int + 10) as nat)
    } else {
        None
    }
}

/// Whether `c` is a digit of base `radix`.
pub open spec fn is_digit(c: char, radix: nat) -> bool {
    digit_value(c) matches Some(d) && d < radix
}

/// Whether `s` holds digits of base `radix` only.
pub open spec fn all_digits(s: Seq<char>, radix: nat) -> bool {
    forall|i: int| 0 <= i < s.len() ==> is_digit(#[trigger] s[i], radix)
}

/// The number that the digits of `s` spell in base `radix`, the first digit
/// weighing most.
pub open spec fn digits_value(s: Seq<char>, radix: nat) -> nat
    decreases s.len(),
{
    if s.len() == 0 {
        0
    } else {
        digits_value(s.drop_last(), radix) * radix + match digit_value(s.last()) {
            Some(d) => d,
            None => 0,
        }
    }
}

/// What is left of `s` once a leading `+` is taken away.
pub open spec fn without_sign(s: Seq<char>) -> Seq<char> {
    if s.len() > 0 && s[0] == '+' {
        s.drop_first()
    } else {
        s
    }
}

/// The number that `s` spells in base `radix`: `s` must be an optional `+`
/// and then at least one digit, all of them digits of the base, and the
/// number must fit in 64 bits. Otherwise `s` spells nothing.
pub open spec fn parsed(s: Seq<char>, radix: nat) -> Option<u64> {
    let digits = without_sign(s);
    if digits.len() > 0 && all_digits(digits, radix) && digits_value(digits, radix) <= u64::MAX {
        Some(digits_value(digits, radix) as u64)
    } else {
        None
    }
}

/// More digits never spell less: the number spelled by the first `k`
/// characters is at most the number spelled by all of them.
pub proof fn lemma_value_grows_with_length(s: Seq<char>, radix: nat, k: int)
    requires
        radix >= 1,
        0 <= k <= s.len(),
    ensures
        digits_value(s.take(k), radix) <= digits_value(s, radix),
    decreases s.len() - k,
{
    if k < s.len() {
        lemma_value_grows_with_length(s, radix, k + 1);
        let longer = s.take(k + 1);
        assert(longer.drop_last() == s.take(k));
        let shorter = digits_value(s.take(k), radix);
        assert(shorter <= shorter * radix) by (nonlinear_arith)
            requires
                radix >= 1,
        ;
    } else {
        assert(s.take(k) == s);
    }
}

/// ASCII `+`.
const PLUS: u8 = 0x2b;

/// ASCII `0`.
const DIGIT_ZERO: u8 = 0x30;

/// ASCII `9`.
const DIGIT_NINE: u8 = 0x39;

/// ASCII `A`.
const UPPER_A: u8 = 0x41;

/// ASCII `Z`.
const UPPER_Z: u8 = 0x5a;

/// ASCII `a`.
const LOWER_A: u8 = 0x61;

/// ASCII `z`.
const LOWER_Z: u8 = 0x7a;

/// The value of an ASCII byte as a digit of base 36, if it is one.
fn digit_of_byte(byte: u8) -> (digit: Option<u64>)
    requires
        byte <= 0x7f,
    ensures
        digit matches Some(d) ==> digit_value(byte as char) == Some(d as nat),
        digit is None ==> digit_value(byte as char) is None,
{
    if DIGIT_ZERO <= byte && byte <= DIGIT_NINE {
        Some((byte - DIGIT_ZERO) as u64)
    } else if LOWER_A <= byte && byte <= LOWER_Z {
        Some((byte - LOWER_A) as u64 + 10)
    } else if UPPER_A <= byte && byte <= UPPER_Z {
        Some((byte - UPPER_A) as u64 + 10)
    } else {
        None
    }
}

/// Reads `text` as an unsigned number in base `radix`.
pub fn parse_radix(text: &str, radix: u32) -> (value: Option<u64>)
    requires
        2 <= radix <= 36,
    ensures
        value == parsed(text@, radix as nat),
{
    if !text.is_ascii() {
        proof {
            lemma_other_than_ascii_spells_nothing(text@, radix as nat);
        }
        return None;
    }
    let bytes = text.as_bytes();
    proof {
        is_ascii_spec_bytes(text);
    }
    let n = bytes.len();
    let start: usize = if n > 0 && bytes[0] == PLUS {
        1
    } else {
        0
    };
    let ghost digits = without_sign(text@);
    assert(digits.len() == n - start);
    assert(forall|k: int| 0 <= k < digits.len() ==> digits[k] == text@[k + start]);
    if start == n {
        return None;
    }
    let mut value: u64 = 0;
    let mut i: usize = start;
    while i < n
        invariant
            2 <= radix <= 36,
            start <= i <= n,
            n == bytes@.len(),
            n == text@.len(),
            is_ascii(text),
            forall|k: int| 0 <= k < n ==> bytes@[k] == text@[k] as u8,
            digits.len() == n - start,
            forall|k: int| 0 <= k < digits.len() ==> digits[k] == text@[k + start],
            digits == without_sign(text@),
            all_digits(digits.take(i - start), radix as nat),
            value == digits_value(digits.take(i - start), radix as nat),
        decreases n - i,
    {
        let ghost seen = digits.take(i - start);
        let ghost next = digits.take(i - start + 1);
        proof {
            assert(next.drop_last() == seen);
            assert(next.last() == digits[i - start]);
            assert(text@[i as int] <= '\u{7f}');
            assert(text@[i as int] as u8 as char == text@[i as int]);
        }
        let digit = match digit_of_byte(bytes[i]) {
            Some(d) => d,
            None => {
                assert(!is_digit(digits[i - start], radix as nat));
                return None;
            },
        };
        if digit >= radix as u64 {
            assert(!is_digit(digits[i - start], radix as nat));
            return None;
        }
        let scaled = match value.checked_mul(radix as u64) {
            Some(scaled) => scaled,
            None => {
                proof {
                    lemma_value_grows_with_length(digits, radix as nat, i - start + 1);
                }
                return None;
            },
        };
        value = match scaled.checked_add(digit) {
            Some(sum) => sum,
            None => {
                proof {
                    lemma_value_grows_with_length(digits, radix as nat, i - start + 1);
                }
                return None;
            },
        };
        i = i + 1;
        proof {
            assert forall|k: int| 0 <= k < next.len() implies is_digit(
                #[trigger] next[k],
                radix as nat,
            ) by {
                if k < seen.len() {
                    assert(seen[k] == next[k]);
                }
            }
        }
    }
    assert(digits.take(n - start) == digits);
    Some(value)
}

/// The value of a character as a digit of base 36, if it is one.
pub fn digit_of(c: char) -> (digit: Option<u64>)
    ensures
        digit matches Some(d) ==> digit_value(c) == Some(d as nat),
        digit is None ==> digit_value(c) is None,
{
    if '0' <= c && c <= '9' {
        Some((c as u32 - '0' as u32) as u64)
    } else if 'a' <= c && c <= 'z' {
        Some((c as u32 - 'a' as u32) as u64 + 10)
    } else if 'A' <= c && c <= 'Z' {
        Some((c as u32 - 'A' as u32) as u64 + 10)
    } else {
        None
    }
}

/// The character that stands for the digit `d`: `0` to `9`, then `a` to `z`.
pub open spec fn digit_char(d: nat) -> char {
    if d < 10 {
        ('0' as nat + d) as char
    } else {
        ('a' as nat + d - 10) as char
    }
}

/// The digits of `n` in base `radix`, the first weighing most, without a
/// leading zero but for 0 itself.
pub open spec fn rendered(n: nat, radix: nat) -> Seq<char>
    decreases n,
{
    if radix < 2 || n < radix {
        seq![digit_char(n)]
    } else {
        proof {
            assert(n / radix < n) by (nonlinear_arith)
                requires
                    radix >= 2,
                    n >= radix,
            ;
        }
        rendered(n / radix, radix).push(digit_char(n % radix))
    }
}

/// What is written is made of digits of the base and spells the number.
pub proof fn lemma_rendered_spells_number(n: nat, radix: nat)
    requires
        2 <= radix <= 36,
    ensures
        rendered(n, radix).len() > 0,
        all_digits(rendered(n, radix), radix),
        digits_value(rendered(n, radix), radix) == n,
    decreases n,
{
    let text = rendered(n, radix);
    if n < radix {
        assert(text.drop_last() == Seq::<char>::empty());
        assert(digit_value(digit_char(n)) == Some(n));
        assert(digits_value(text.drop_last(), radix) == 0);
        assert(0 * radix == 0) by (nonlinear_arith);
    } else {
        let front = rendered(n / radix, radix);
        lemma_rendered_spells_number(n / radix, radix);
        assert(text.drop_last() == front);
        assert(digit_value(digit_char(n % radix)) == Some(n % radix));
        assert forall|i: int| 0 <= i < text.len() implies is_digit(#[trigger] text[i], radix) by {
            if i < front.len() {
                assert(text[i] == front[i]);
            }
        }
        assert((n / radix) * radix + n % radix == n) by (nonlinear_arith)
            requires
                radix >= 2,
        ;
    }
}

/// A number that is written and read again in the same base is the number.
pub proof fn lemma_read_back(n: u64, radix: nat)
    requires
        2 <= radix <= 36,
    ensures
        parsed(rendered(n as nat, radix), radix) == Some(n),
{
    let text = rendered(n as nat, radix);
    lemma_rendered_spells_number(n as nat, radix);
    assert(is_digit(text[0], radix));
    assert(text[0] != '+');
}

/// The characters that stand for the digits `digits`, last digit first.
spec fn written_backwards(digits: Seq<u64>) -> Seq<char> {
    Seq::new(digits.len(), |i: int| digit_char(digits[digits.len() - 1 - i] as nat))
}

/// The text of one digit of base 36.
fn digit_text(digit: u64) -> (text: &'static str)
    requires
        digit < 36,
    ensures
        text@ == seq![digit_char(digit as nat)],
{
    let digits = "0123456789abcdefghijklmnopqrstuvwxyz";
    proof {
        reveal_strlit("0123456789abcdefghijklmnopqrstuvwxyz");
        assert(digits@[digit as int] == digit_char(digit as nat));
    }
    let text = digits.substring_ascii(digit as usize, digit as usize + 1);
    assert(text@ == seq![digit_char(digit as nat)]);
    text
}

/// Writes `n` in base `radix`.
pub fn render_radix(n: u64, radix: u32) -> (text: String)
    requires
        2 <= radix <= 36,
    ensures
        text@ == rendered(n as nat, radix as nat),
{
    let base = radix as u64;
    let mut lower: Vec<u64> = Vec::new();
    let mut rest = n;
    while rest >= base
        invariant
            2 <= radix <= 36,
            base == radix,
            forall|i: int| 0 <= i < lower.len() ==> lower@[i] < 36,
            rendered(n as nat, radix as nat) == rendered(rest as nat, radix as nat)
                + written_backwards(lower@),
        decreases rest,
    {
        let ghost before = lower@;
        lower.push(rest % base);
        proof {
            let c = digit_char((rest % base) as nat);
            let front = rendered((rest / base) as nat, radix as nat);
            assert(written_backwards(lower@) == seq![c] + written_backwards(before));
            assert(rendered(rest as nat, radix as nat) == front.push(c));
            assert(front.push(c) + written_backwards(before) == front + (seq![c]
                + written_backwards(before)));
        }
        rest = rest / base;
    }
    let mut text = String::from_str(digit_text(rest));
    let mut left = lower.len();
    while left > 0
        invariant
            left <= lower.len(),
            rest < 36,
            forall|i: int| 0 <= i < lower.len() ==> lower@[i] < 36,
            text@ == rendered(rest as nat, radix as nat) + written_backwards(lower@).take(
                lower.len() - left,
            ),
        decreases left,
    {
        left = left - 1;
        text.append(digit_text(lower[left]));
        proof {
            let back = written_backwards(lower@);
            let done = lower.len() - left;
            assert(back.take(done) == back.take(done - 1) + seq![back[done - 1]]);
        }
    }
    assert(written_backwards(lower@).take(lower.len() as int) == written_backwards(lower@));
    text
}

/// Text with a character outside ASCII spells no number.
proof fn lemma_other_than_ascii_spells_nothing(s: Seq<char>, radix: nat)
    requires
        !is_ascii_chars(s),
    ensures
        parsed(s, radix) is None,
{
    let at = choose|i: int| 0 <= i < s.len() && !('\0' <= #[trigger] s[i] <= '\u{7f}');
    let digits = without_sign(s);
    assert(digit_value(s[at]) is None);
    if digits.len() == s.len() {
        assert(!is_digit(digits[at], radix));
    } else {
        assert(at > 0);
        assert(digits[at - 1] == s[at]);
        assert(!is_digit(digits[at - 1], radix));
    }
}

} // verus!

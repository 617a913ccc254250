//! Text: the `std` string operations the library builds on, decimal numbers
//! and reading an `i32` back from text.

use vstd::prelude::*;

verus! {

/// `part` occurs in `text` as a run of consecutive characters.
pub open spec fn has_infix(text: Seq<char>, part: Seq<char>) -> bool {
    exists|i: int|
        0 <= i && i + part.len() <= text.len() && #[trigger] text.subrange(i, i + part.len())
            == part
}

/// The lowercase equivalent of a string, as `str::to_lowercase` computes it
/// (the Unicode `Lowercase` mapping, which can change the length).
pub uninterp spec fn lowercase(s: Seq<char>) -> Seq<char>;

/// The string with leading and trailing whitespace removed, as `str::trim`
/// computes it.
pub uninterp spec fn trimmed(s: Seq<char>) -> Seq<char>;

/// Calls `str::to_lowercase`; its result is named `lowercase`.
#[verifier::external_body]
pub(crate) fn to_lower(s: &str) -> (res: String)
    ensures
        res@ == lowercase(s@),
{
    s.to_lowercase()
}

/// Calls `str::trim`; its result is named `trimmed`.
#[verifier::external_body]
pub(crate) fn trim_text(s: &str) -> (res: &str)
    ensures
        res@ == trimmed(s@),
{
    s.trim()
}

/// Calls `str::contains` with a string pattern, which is true exactly when
/// the pattern matches a sub-slice of the text.
#[verifier::external_body]
pub(crate) fn str_contains(text: &str, part: &str) -> (res: bool)
    ensures
        res == has_infix(text@, part@),
{
    text.contains(part)
}

/// Calls `==` on two string slices: true exactly when they hold the same
/// characters.
#[verifier::external_body]
pub(crate) fn str_eq(a: &str, b: &str) -> (res: bool)
    ensures
        res == (a@ == b@),
{
    a == b
}

/// Calls `String::push`, which appends one character.
#[verifier::external_body]
pub(crate) fn push_char(s: &mut String, c: char)
    ensures
        final(s)@ == old(s)@.push(c),
{
    s.push(c)
}

/// The character of decimal digit `d`.
pub open spec fn digit_char(d: nat) -> char {
    (d + 48) as char
}

/// The decimal digits of `n`, without leading zeros.
pub open spec fn nat_text(n: nat) -> Seq<char>
    decreases n,
{
    if n < 10 {
        seq![digit_char(n)]
    } else {
        nat_text(n / 10).push(digit_char(n % 10))
    }
}

/// `n` written in decimal as `Display` writes integers: a minus sign for
/// negative values, then the digits.
pub open spec fn int_text(n: int) -> Seq<char> {
    if n < 0 {
        seq!['-'] + nat_text((-n) as nat)
    } else {
        nat_text(n as nat)
    }
}

/// Appends the decimal digits of `n`.
pub fn push_nat(s: &mut String, n: u64)
    ensures
        final(s)@ == old(s)@ + nat_text(n as nat),
    decreases n,
{
    if n >= 10 {
        push_nat(s, n / 10);
    }
    let d = (n % 10) as u8;
    push_char(s, (d + 48) as char);
    assert(final(s)@ =~= old(s)@ + nat_text(n as nat));
}

/// Appends `n` in decimal.
pub fn push_int(s: &mut String, n: i64)
    ensures
        final(s)@ == old(s)@ + int_text(n as int),
{
    if n < 0 {
        push_char(s, '-');
        push_nat(s, (-(n as i128)) as u64);
        assert(final(s)@ =~= old(s)@ + int_text(n as int));
    } else {
        push_nat(s, n as u64);
    }
}

/// Appends a string slice.
pub fn push_str(s: &mut String, t: &str)
    ensures
        final(s)@ == old(s)@ + t@,
{
    s.append(t);
}

/// An ASCII decimal digit.
pub open spec fn is_digit(c: char) -> bool {
    48 <= (c as u32) <= 57
}

/// The value of a run of decimal digits.
pub open spec fn digits_value(s: Seq<char>) -> int
    decreases s.len(),
{
    if s.len() == 0 {
        0
    } else {
        10 * digits_value(s.drop_last()) + ((s.last() as u32) - 48)
    }
}

/// The text without its leading sign, if it has one.
pub open spec fn unsigned_part(s: Seq<char>) -> Seq<char> {
    if s.len() > 0 && (s[0] == '-' || s[0] == '+') {
        s.drop_first()
    } else {
        s
    }
}

/// The `i32` that `str::parse::<i32>` reads from the text: an optional `+`
/// or `-`, then at least one ASCII digit and nothing else, with a value
/// that fits; `None` otherwise.
pub open spec fn parsed_i32(s: Seq<char>) -> Option<int> {
    let body = unsigned_part(s);
    if body.len() == 0 || exists|i: int| 0 <= i < body.len() && !is_digit(#[trigger] body[i]) {
        None
    } else {
        let v = if s[0] == '-' {
            -digits_value(body)
        } else {
            digits_value(body)
        };
        if i32::MIN <= v <= i32::MAX {
            Some(v)
        } else {
            None
        }
    }
}

proof fn lemma_digits_value_grows(s: Seq<char>, k: int)
    requires
        0 <= k <= s.len(),
        forall|i: int| 0 <= i < s.len() ==> is_digit(#[trigger] s[i]),
    ensures
        0 <= digits_value(s.take(k)) <= digits_value(s),
    decreases s.len() - k,
{
    if k < s.len() {
        lemma_digits_value_grows(s, k + 1);
        assert(s.take(k + 1).drop_last() =~= s.take(k));
        assert(s.take(k + 1).last() == s[k]);
        assert(is_digit(s[k]));
    } else {
        assert(s.take(k) =~= s);
        lemma_digits_value_nonneg(s);
    }
}

proof fn lemma_digits_value_nonneg(s: Seq<char>)
    requires
        forall|i: int| 0 <= i < s.len() ==> is_digit(#[trigger] s[i]),
    ensures
        0 <= digits_value(s),
    decreases s.len(),
{
    if s.len() > 0 {
        let front = s.drop_last();
        assert forall|i: int| 0 <= i < front.len() implies is_digit(#[trigger] front[i]) by {
            assert(front[i] == s[i]);
        }
        lemma_digits_value_nonneg(front);
        assert(is_digit(s[s.len() - 1]));
    }
}

/// The number written in `text`, as `text.parse::<i32>().unwrap_or(0)`
/// reads it.
pub fn i32_or_zero(text: &str) -> (v: i32)
    ensures
        v == match parsed_i32(text@) {
            Some(x) => x,
            None => 0,
        },
{
    let n = text.unicode_len();
    if n == 0 {
        return 0;
    }
    let first = text.get_char(0);
    let negative = first == '-';
    let start: usize = if first == '-' || first == '+' {
        1
    } else {
        0
    };
    let ghost body = unsigned_part(text@);
    assert(body =~= text@.subrange(start as int, n as int));
    if start == n {
        return 0;
    }
    let mut acc: i64 = 0;
    let mut i: usize = start;
    assert(body.take(0) =~= Seq::<char>::empty());
    while i < n
        invariant
            start <= i <= n,
            n == text@.len(),
            body == text@.subrange(start as int, n as int),
            body == unsigned_part(text@),
            0 <= acc <= 0x8000_0000,
            acc == digits_value(body.take(i - start)),
            forall|j: int| 0 <= j < i - start ==> is_digit(#[trigger] body[j]),
        decreases n - i,
    {
        let c = text.get_char(i);
        assert(body[i - start] == c);
        if !(48 <= c as u32 && c as u32 <= 57) {
            assert(!is_digit(body[i - start]));
            return 0;
        }
        assert(body.take(i - start + 1).drop_last() =~= body.take(i - start));
        assert(body.take(i - start + 1).last() == c);
        acc = acc * 10 + (c as u32 - 48) as i64;
        if acc > 0x8000_0000 {
            proof {
                if forall|j: int| 0 <= j < body.len() ==> is_digit(#[trigger] body[j]) {
                    lemma_digits_value_grows(body, i - start + 1);
                }
            }
            return 0;
        }
        i += 1;
    }
    assert(body.take(n - start) =~= body);
    if negative {
        (-acc) as i32
    } else if acc > 0x7fff_ffff {
        0
    } else {
        acc as i32
    }
}

/// The decimal text of `n` is made of digits, has no leading zero, and
/// reads back as `n`.
pub proof fn lemma_nat_text_reads_back(n: nat)
    ensures
        forall|i: int| 0 <= i < nat_text(n).len() ==> is_digit(#[trigger] nat_text(n)[i]),
        digits_value(nat_text(n)) == n,
        nat_text(n).len() >= 1,
        n > 0 ==> nat_text(n)[0] != '0',
    decreases n,
{
    if n < 10 {
        assert(digit_char(n) as u32 == n + 48);
        assert(seq![digit_char(n)].drop_last() =~= Seq::<char>::empty());
        assert(digits_value(Seq::<char>::empty()) == 0);
        assert(nat_text(n).last() == digit_char(n));
        assert(digits_value(nat_text(n)) == 10 * digits_value(Seq::<char>::empty()) + (n + 48 - 48));
        if n > 0 {
            assert(('0' as u32) == 48);
        }
    } else {
        lemma_nat_text_reads_back(n / 10);
        let d = n % 10;
        assert(digit_char(d) as u32 == d + 48);
        let t = nat_text(n);
        assert(t.drop_last() =~= nat_text(n / 10));
        assert(t.last() == digit_char(d));
        assert(t[0] == nat_text(n / 10)[0]);
        assert(10 * (n / 10) + d == n);
        assert(digits_value(t) == 10 * digits_value(nat_text(n / 10)) + (d + 48 - 48));
        assert(n / 10 > 0);
    }
}

/// Writing an `i32` in decimal and reading it back gives the same number.
pub proof fn lemma_int_text_parses_back(n: int)
    requires
        i32::MIN <= n <= i32::MAX,
    ensures
        parsed_i32(int_text(n)) == Some(n),
{
    reveal_strlit("-");
    let t = int_text(n);
    if n < 0 {
        let digits = nat_text((-n) as nat);
        lemma_nat_text_reads_back((-n) as nat);
        assert(t == seq!['-'] + digits);
        assert(t[0] == '-');
        assert(unsigned_part(t) =~= digits);
    } else {
        lemma_nat_text_reads_back(n as nat);
        assert(('-' as u32) == 45 && ('+' as u32) == 43);
        assert(is_digit(t[0]));
        assert(t[0] != '-' && t[0] != '+');
        assert(unsigned_part(t) == t);
    }
}

} // verus!

//! Character and string helpers: ASCII case folding, decimal rendering,
//! and the notification message text shared by every channel.

use vstd::prelude::*;

verus! {

/// ASCII uppercase of one character; every other character is unchanged.
pub open spec fn upper_char(c: char) -> char {
    if 97 <= c as u32 && c as u32 <= 122 {
        (((c as u32) - 32) as u8) as char
    } else {
        c
    }
}

/// ASCII uppercase applied to every character of a sequence.
pub open spec fn upper_seq(s: Seq<char>) -> Seq<char> {
    s.map_values(|c: char| upper_char(c))
}

/// Relies on String::push: appends exactly one character.
#[verifier::external_body]
pub(crate) fn push_char(s: &mut String, c: char)
    ensures
        final(s)@ == old(s)@.push(c),
{
    s.push(c)
}

pub(crate) fn upper_char_exec(c: char) -> (r: char)
    ensures
        r == upper_char(c),
{
    let u: u32 = c as u32;
    if 97 <= u && u <= 122 {
        ((u - 32) as u8) as char
    } else {
        c
    }
}

/// ASCII-uppercases a string.
pub fn to_upper(s: &str) -> (r: String)
    ensures
        r@ == upper_seq(s@),
{
    let n = s.unicode_len();
    let mut r = String::new();
    let mut i: usize = 0;
    while i < n
        invariant
            i <= n,
            n == s@.len(),
            r@ == upper_seq(s@.take(i as int)),
        decreases n - i,
    {
        let c = s.get_char(i);
        push_char(&mut r, upper_char_exec(c));
        proof {
            assert(s@.take(i + 1 as int).drop_last() =~= s@.take(i as int));
            assert(upper_seq(s@.take(i + 1 as int)) =~= upper_seq(s@.take(i as int)).push(
                upper_char(c),
            ));
        }
        i += 1;
    }
    proof {
        assert(s@.take(n as int) =~= s@);
    }
    r
}

/// Character-wise equality of two string slices.
pub fn str_eq(a: &str, b: &str) -> (r: bool)
    ensures
        r == (a@ == b@),
{
    let n = a.unicode_len();
    if n != b.unicode_len() {
        return false;
    }
    let mut i: usize = 0;
    while i < n
        invariant
            i <= n,
            n == a@.len(),
            n == b@.len(),
            forall|j: int| 0 <= j < i ==> a@[j] == b@[j],
        decreases n - i,
    {
        if a.get_char(i) != b.get_char(i) {
            return false;
        }
        i += 1;
    }
    proof {
        assert(a@ =~= b@);
    }
    true
}

/// Copies a vector of characters into a fresh string.
pub fn chars_to_string(v: &Vec<char>) -> (r: String)
    ensures
        r@ == v@,
{
    let mut r = String::new();
    let mut i: usize = 0;
    while i < v.len()
        invariant
            i <= v.len(),
            r@ == v@.take(i as int),
        decreases v.len() - i,
    {
        push_char(&mut r, v[i]);
        proof {
            assert(v@.take(i + 1 as int) =~= v@.take(i as int).push(v@[i as int]));
        }
        i += 1;
    }
    proof {
        assert(v@.take(v.len() as int) =~= v@);
    }
    r
}

/// The character for one decimal digit.
pub open spec fn digit_char(d: int) -> char {
    ((48 + d) as u8) as char
}

/// Decimal rendering of a natural number, most significant digit first.
pub open spec fn dec_str(n: nat) -> Seq<char>
    decreases n,
{
    if n < 10 {
        seq![digit_char(n as int)]
    } else {
        dec_str(n / 10) + seq![digit_char((n % 10) as int)]
    }
}

/// Appends the decimal rendering of `n` to `s`.
pub fn push_decimal(s: &mut String, n: u64)
    ensures
        final(s)@ == old(s)@ + dec_str(n as nat),
    decreases n,
{
    if n >= 10 {
        push_decimal(s, n / 10);
    }
    let d: u64 = n % 10;
    push_char(s, ((48 + d) as u8) as char);
    proof {
        if n < 10 {
            assert(old(s)@ + dec_str(n as nat) =~= old(s)@.push(digit_char(n as int)));
        } else {
            assert(old(s)@ + dec_str(n as nat) =~= (old(s)@ + dec_str((n / 10) as nat)).push(
                digit_char((n % 10) as int),
            ));
        }
    }
}

/// Whether a character is a decimal digit.
pub open spec fn is_dec_digit(c: char) -> bool {
    48 <= c as u32 && c as u32 <= 57
}

/// The value of one decimal digit character.
pub open spec fn digit_val(c: char) -> int {
    c as u32 - 48
}

/// The value of a digit string, most significant digit first.
pub open spec fn dec_value(s: Seq<char>) -> int
    decreases s.len(),
{
    if s.len() == 0 {
        0
    } else {
        dec_value(s.drop_last()) * 10 + digit_val(s.last())
    }
}

/// The digit part of an unsigned decimal text: an optional leading `+` is
/// dropped.
pub open spec fn u64_digits(s: Seq<char>) -> Seq<char> {
    if s.len() >= 1 && s[0] == '+' {
        s.skip(1)
    } else {
        s
    }
}

/// Whether a text parses as a `u64`: at least one digit after the optional
/// sign, digits only, and a value in range.
pub open spec fn is_u64_text(s: Seq<char>) -> bool {
    let d = u64_digits(s);
    d.len() >= 1 && (forall|j: int| 0 <= j < d.len() ==> is_dec_digit(d[j])) && dec_value(d)
        <= u64::MAX
}

proof fn lemma_dec_value_nonneg(s: Seq<char>)
    requires
        forall|j: int| 0 <= j < s.len() ==> is_dec_digit(s[j]),
    ensures
        dec_value(s) >= 0,
    decreases s.len(),
{
    if s.len() > 0 {
        assert(s.drop_last() =~= s.take(s.len() - 1));
        lemma_dec_value_nonneg(s.drop_last());
    }
}

proof fn lemma_dec_value_extend(s: Seq<char>, i: int)
    requires
        0 <= i <= s.len(),
        forall|j: int| 0 <= j < s.len() ==> is_dec_digit(s[j]),
    ensures
        dec_value(s) >= dec_value(s.take(i)),
    decreases s.len() - i,
{
    if i == s.len() {
        assert(s.take(i) =~= s);
    } else {
        assert(s.take(i + 1).drop_last() =~= s.take(i));
        assert(forall|j: int| 0 <= j < s.take(i).len() ==> is_dec_digit(s.take(i)[j]));
        lemma_dec_value_nonneg(s.take(i));
        lemma_dec_value_extend(s, i + 1);
    }
}

/// Parses an unsigned decimal (an optional leading `+`, then digits), and
/// returns its value exactly when the text is well-formed and in range.
pub fn parse_u64(s: &str) -> (r: Option<u64>)
    ensures
        match r {
            Some(v) => is_u64_text(s@) && v as int == dec_value(u64_digits(s@)),
            None => !is_u64_text(s@),
        },
{
    let n = s.unicode_len();
    let mut i: usize = 0;
    if n > 0 && s.get_char(0) == '+' {
        i = 1;
    }
    let ghost start = i as int;
    let ghost d = u64_digits(s@);
    proof {
        assert(d =~= s@.skip(start));
    }
    if i == n {
        return None;
    }
    let mut acc: u64 = 0;
    while i < n
        invariant
            start <= i as int <= n,
            n == s@.len(),
            d == u64_digits(s@),
            d =~= s@.skip(start),
            0 <= start <= 1,
            start < n,
            forall|j: int| 0 <= j < i - start ==> is_dec_digit(d[j]),
            acc as int == dec_value(d.take(i - start)),
        decreases n - i,
    {
        let c = s.get_char(i);
        let u: u32 = c as u32;
        if !(48 <= u && u <= 57) {
            proof {
                assert(d[i - start] == s@[i as int]);
                assert(!is_dec_digit(d[i - start]));
            }
            return None;
        }
        let dv: u64 = (u - 48) as u64;
        proof {
            assert(d.take(i - start + 1).drop_last() =~= d.take(i - start));
            assert(d.take(i - start + 1).last() == d[i - start]);
            assert(d[i - start] == s@[i as int]);
            assert(dec_value(d.take(i - start + 1)) == acc * 10 + dv);
        }
        let wide = match acc.checked_mul(10) {
            Some(x) => x,
            None => {
                proof {
                    lemma_parse_overflow(d, i - start, acc as int, dv as int);
                }
                return None;
            },
        };
        let next = match wide.checked_add(dv) {
            Some(x) => x,
            None => {
                proof {
                    lemma_parse_overflow(d, i - start, acc as int, dv as int);
                }
                return None;
            },
        };
        acc = next;
        i += 1;
    }
    proof {
        assert(d.take(n - start) =~= d);
    }
    Some(acc)
}

proof fn lemma_parse_overflow(d: Seq<char>, i: int, acc: int, dv: int)
    requires
        0 <= i < d.len(),
        dv >= 0,
        acc == dec_value(d.take(i)),
        dec_value(d.take(i + 1)) == acc * 10 + dv,
        acc * 10 + dv > u64::MAX,
    ensures
        !(forall|j: int| 0 <= j < d.len() ==> is_dec_digit(d[j])) || dec_value(d) > u64::MAX,
{
    if forall|j: int| 0 <= j < d.len() ==> is_dec_digit(d[j]) {
        lemma_dec_value_extend(d, i + 1);
    }
}

/// The one message text every channel delivers.
pub open spec fn message_text(name: Seq<char>, secs: nat) -> Seq<char> {
    "Your program "@ + name + " has finished after "@ + dec_str(secs) + " minutes"@
}

/// Builds the notification text for a program name and an elapsed time in
/// seconds. The trailing word reads "minutes" while the number is seconds;
/// the historical wording is kept as-is.
pub fn build_message(program: &str, secs: u64) -> (r: String)
    ensures
        r@ == message_text(program@, secs as nat),
{
    let mut m = String::from_str("Your program ");
    m.append(program);
    m.append(" has finished after ");
    push_decimal(&mut m, secs);
    m.append(" minutes");
    proof {
        assert(m@ =~= message_text(program@, secs as nat));
    }
    m
}

} // verus!

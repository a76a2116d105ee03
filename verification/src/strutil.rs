//! String helpers used by the matching engine: decimal rendering of integers,
//! lexicographic ordering of keys, separator joins, character counting, and
//! decimal parsing for bounded integers.

use vstd::prelude::*;
use vstd::string::{StrSliceExecFns, StringExecFns};

verus! {

/// The character for a single decimal digit.
pub open spec fn digit_char(d: nat) -> char {
    ((d + 48) as u8) as char
}

/// Decimal rendering of a natural number, most significant digit first.
pub open spec fn dec_nat(n: nat) -> Seq<char>
    decreases n,
{
    if n < 10 {
        seq![digit_char(n)]
    } else {
        dec_nat(n / 10) + seq![digit_char(n % 10)]
    }
}

/// Decimal rendering of an integer, with a leading minus sign when negative.
pub open spec fn dec_int(i: int) -> Seq<char> {
    if i < 0 {
        seq!['-'] + dec_nat((-i) as nat)
    } else {
        dec_nat(i as nat)
    }
}

fn digit_str(d: u64) -> (r: String)
    requires
        d < 10,
    ensures
        r@ == seq![digit_char(d as nat)],
{
    let r = if d == 0 {
        proof {
            reveal_strlit("0");
        }
        String::from_str("0")
    } else if d == 1 {
        proof {
            reveal_strlit("1");
        }
        String::from_str("1")
    } else if d == 2 {
        proof {
            reveal_strlit("2");
        }
        String::from_str("2")
    } else if d == 3 {
        proof {
            reveal_strlit("3");
        }
        String::from_str("3")
    } else if d == 4 {
        proof {
            reveal_strlit("4");
        }
        String::from_str("4")
    } else if d == 5 {
        proof {
            reveal_strlit("5");
        }
        String::from_str("5")
    } else if d == 6 {
        proof {
            reveal_strlit("6");
        }
        String::from_str("6")
    } else if d == 7 {
        proof {
            reveal_strlit("7");
        }
        String::from_str("7")
    } else if d == 8 {
        proof {
            reveal_strlit("8");
        }
        String::from_str("8")
    } else {
        proof {
            reveal_strlit("9");
        }
        String::from_str("9")
    };
    proof {
        assert(r@ =~= seq![digit_char(d as nat)]);
    }
    r
}

/// Renders a `u64` in decimal.
pub fn u64_to_string(n: u64) -> (r: String)
    ensures
        r@ == dec_nat(n as nat),
    decreases n,
{
    if n < 10 {
        digit_str(n)
    } else {
        let mut s = u64_to_string(n / 10);
        let d = digit_str(n % 10);
        s.append(d.as_str());
        proof {
            assert(s@ =~= dec_nat(n as nat));
        }
        s
    }
}

/// Renders a `usize` in decimal.
pub fn usize_to_string(n: usize) -> (r: String)
    ensures
        r@ == dec_nat(n as nat),
{
    u64_to_string(n as u64)
}

/// Renders an `i64` in decimal, with a minus sign when negative.
pub fn i64_to_string(n: i64) -> (r: String)
    ensures
        r@ == dec_int(n as int),
{
    if n >= 0 {
        u64_to_string(n as u64)
    } else {
        let magnitude: u64 = ((-(n + 1)) as u64) + 1;
        proof {
            reveal_strlit("-");
        }
        let mut s = String::from_str("-");
        let d = u64_to_string(magnitude);
        s.append(d.as_str());
        proof {
            assert(s@ =~= dec_int(n as int));
        }
        s
    }
}

/// Strict lexicographic order on character sequences, by code point.
pub open spec fn chars_lt(a: Seq<char>, b: Seq<char>) -> bool
    decreases a.len(),
{
    if b.len() == 0 {
        false
    } else if a.len() == 0 {
        true
    } else if a[0] != b[0] {
        (a[0] as int) < (b[0] as int)
    } else {
        chars_lt(a.drop_first(), b.drop_first())
    }
}

/// The order is total: of two distinct sequences one is strictly smaller.
pub proof fn lemma_chars_lt_total(a: Seq<char>, b: Seq<char>)
    ensures
        a == b || chars_lt(a, b) || chars_lt(b, a),
    decreases a.len(),
{
    if a.len() == 0 {
        if b.len() == 0 {
            assert(a =~= b);
        }
    } else if b.len() == 0 {
    } else if a[0] != b[0] {
    } else {
        lemma_chars_lt_total(a.drop_first(), b.drop_first());
        if a.drop_first() =~= b.drop_first() {
            assert(a.drop_first().len() == a.len() - 1);
            assert(b.drop_first().len() == b.len() - 1);
            assert(a.len() == b.len());
            assert forall|i: int| 0 <= i < a.len() implies a[i] == b[i] by {
                if i > 0 {
                    assert(a[i] == a.drop_first()[i - 1]);
                    assert(b[i] == b.drop_first()[i - 1]);
                }
            }
            assert(a =~= b);
        }
    }
}

/// Nothing is strictly below itself.
pub proof fn lemma_chars_lt_irrefl(a: Seq<char>)
    ensures
        !chars_lt(a, a),
    decreases a.len(),
{
    if a.len() > 0 {
        lemma_chars_lt_irrefl(a.drop_first());
    }
}

/// Compares two strings for equality of their characters.
pub fn str_eq(a: &str, b: &str) -> (r: bool)
    ensures
        r == (a@ == b@),
{
    let lt1 = str_lt(a, b);
    let lt2 = str_lt(b, a);
    proof {
        lemma_chars_lt_total(a@, b@);
        lemma_chars_lt_irrefl(a@);
        if a@ == b@ {
            assert(!chars_lt(a@, b@));
            assert(!chars_lt(b@, a@));
        }
    }
    !lt1 && !lt2
}

/// Compares two strings in lexicographic code-point order.
pub fn str_lt(a: &str, b: &str) -> (r: bool)
    ensures
        r == chars_lt(a@, b@),
{
    let a_len = a.unicode_len();
    let b_len = b.unicode_len();
    proof {
        assert(a@.skip(0) =~= a@);
        assert(b@.skip(0) =~= b@);
    }
    let mut i: usize = 0;
    loop
        invariant
            i <= a_len,
            i <= b_len,
            a_len == a@.len(),
            b_len == b@.len(),
            chars_lt(a@, b@) == chars_lt(a@.skip(i as int), b@.skip(i as int)),
        decreases a_len - i,
    {
        if i >= b_len {
            proof {
                assert(b@.skip(i as int).len() == 0);
            }
            return false;
        }
        if i >= a_len {
            proof {
                assert(a@.skip(i as int).len() == 0);
                assert(b@.skip(i as int).len() > 0);
            }
            return true;
        }
        let ca = a.get_char(i);
        let cb = b.get_char(i);
        proof {
            assert(a@.skip(i as int)[0] == a@[i as int]);
            assert(b@.skip(i as int)[0] == b@[i as int]);
        }
        if ca != cb {
            let r = (ca as u32) < (cb as u32);
            proof {
                assert(r == ((ca as int) < (cb as int)));
            }
            return r;
        }
        proof {
            assert(a@.skip(i as int).drop_first() =~= a@.skip(i + 1));
            assert(b@.skip(i as int).drop_first() =~= b@.skip(i + 1));
        }
        i = i + 1;
    }
}

/// Joins a sequence of strings with a separator.
pub open spec fn join_sep(parts: Seq<Seq<char>>, sep: Seq<char>) -> Seq<char>
    decreases parts.len(),
{
    if parts.len() == 0 {
        Seq::empty()
    } else if parts.len() == 1 {
        parts[0]
    } else {
        parts[0] + sep + join_sep(parts.drop_first(), sep)
    }
}

/// Joins strings with a separator, as key lists in error messages are
/// formatted.
pub fn join_strings(parts: &Vec<String>, sep: &str) -> (r: String)
    ensures
        r@ == join_sep(parts.deep_view(), sep@),
{
    let mut r = String::new();
    proof {
        assert(parts.deep_view().skip(0) =~= parts.deep_view());
        assert(Seq::<char>::empty() + join_sep(parts.deep_view(), sep@) =~= join_sep(
            parts.deep_view(),
            sep@,
        ));
    }
    let mut i: usize = 0;
    while i < parts.len()
        invariant
            i <= parts.len(),
            r@ + join_sep(parts.deep_view().skip(i as int), sep@) == join_sep(
                parts.deep_view(),
                sep@,
            ),
        decreases parts.len() - i,
    {
        let ghost rest = parts.deep_view().skip(i as int);
        let ghost whole = join_sep(parts.deep_view(), sep@);
        proof {
            assert(rest[0] == parts@[i as int].deep_view());
            assert(rest.drop_first() =~= parts.deep_view().skip(i + 1));
        }
        r.append(parts[i].as_str());
        if i + 1 < parts.len() {
            r.append(sep);
            proof {
                assert(rest.len() > 1);
                assert(join_sep(rest, sep@) == rest[0] + sep@ + join_sep(
                    rest.drop_first(),
                    sep@,
                ));
                assert(r@ + join_sep(parts.deep_view().skip(i + 1), sep@) =~= whole);
            }
        } else {
            proof {
                assert(rest.len() == 1);
                assert(join_sep(rest, sep@) == rest[0]);
                assert(parts.deep_view().skip(i + 1).len() == 0);
                assert(r@ + join_sep(parts.deep_view().skip(i + 1), sep@) =~= whole);
            }
        }
        i = i + 1;
    }
    proof {
        assert(parts.deep_view().skip(parts.len() as int).len() == 0);
        assert(r@ + join_sep(parts.deep_view().skip(parts.len() as int), sep@) =~= r@);
    }
    r
}

/// How many times a character occurs in a sequence.
pub open spec fn count_char(s: Seq<char>, c: char) -> nat
    decreases s.len(),
{
    if s.len() == 0 {
        0
    } else {
        (if s[0] == c {
            1nat
        } else {
            0nat
        }) + count_char(s.drop_first(), c)
    }
}

proof fn lemma_count_char_bound(s: Seq<char>, c: char)
    ensures
        count_char(s, c) <= s.len(),
    decreases s.len(),
{
    if s.len() > 0 {
        lemma_count_char_bound(s.drop_first(), c);
    }
}

/// Counts occurrences of a character in a string.
pub fn count_char_in_str(s: &str, c: char) -> (r: usize)
    ensures
        r == count_char(s@, c),
{
    let len = s.unicode_len();
    let mut i: usize = 0;
    let mut count: usize = 0;
    proof {
        assert(s@.skip(0) =~= s@);
        lemma_count_char_bound(s@, c);
    }
    while i < len
        invariant
            i <= len,
            len == s@.len(),
            count <= i,
            count + count_char(s@.skip(i as int), c) == count_char(s@, c),
        decreases len - i,
    {
        let ch = s.get_char(i);
        proof {
            assert(s@.skip(i as int)[0] == s@[i as int]);
            assert(s@.skip(i as int).drop_first() =~= s@.skip(i + 1));
            lemma_count_char_bound(s@.skip(i + 1), c);
        }
        if ch == c {
            count = count + 1;
        }
        i = i + 1;
    }
    proof {
        assert(s@.skip(len as int).len() == 0);
    }
    count
}

/// The numeric value of a run of decimal digits.
pub open spec fn digits_val(s: Seq<char>) -> int
    decreases s.len(),
{
    if s.len() == 0 {
        0
    } else {
        digits_val(s.drop_last()) * 10 + (s.last() as int - 48)
    }
}

/// Every character is a decimal digit.
pub open spec fn all_digits(s: Seq<char>) -> bool {
    forall|i: int| 0 <= i < s.len() ==> '0' <= #[trigger] s[i] <= '9'
}

/// Whether a string parses as a `u16` the way Rust's decimal parser reads it:
/// an optional leading plus sign, then one or more digits, value at most 65535.
pub open spec fn is_u16_str(s: Seq<char>) -> bool {
    let t = if s.len() > 0 && s[0] == '+' {
        s.drop_first()
    } else {
        s
    };
    t.len() > 0 && all_digits(t) && digits_val(t) <= 65535
}

proof fn lemma_digits_val_take_grows(s: Seq<char>, i: int)
    requires
        0 <= i < s.len(),
    ensures
        digits_val(s.take(i + 1)) == digits_val(s.take(i)) * 10 + (s[i] as int - 48),
{
    assert(s.take(i + 1).drop_last() =~= s.take(i));
    assert(s.take(i + 1).last() == s[i]);
}

proof fn lemma_digits_val_nonneg(s: Seq<char>)
    requires
        all_digits(s),
    ensures
        digits_val(s) >= 0,
    decreases s.len(),
{
    if s.len() > 0 {
        assert(all_digits(s.drop_last())) by {
            assert(forall|i: int| 0 <= i < s.len() - 1 ==> s.drop_last()[i] == s[i]);
        }
        lemma_digits_val_nonneg(s.drop_last());
    }
}

proof fn lemma_digits_val_monotonic(s: Seq<char>, i: int)
    requires
        0 <= i <= s.len(),
        all_digits(s),
    ensures
        digits_val(s.take(i)) <= digits_val(s),
    decreases s.len() - i,
{
    if i == s.len() {
        assert(s.take(i) =~= s);
    } else {
        lemma_digits_val_take_grows(s, i);
        assert(all_digits(s.take(i))) by {
            assert(forall|k: int| 0 <= k < i ==> s.take(i)[k] == s[k]);
        }
        lemma_digits_val_nonneg(s.take(i));
        lemma_digits_val_monotonic(s, i + 1);
    }
}

/// Checks whether a string encodes an integer of at most 65535, mirroring
/// what `is_u16_str` states.
#[verifier::loop_isolation(false)]
pub fn parses_as_u16(s: &str) -> (r: bool)
    ensures
        r == is_u16_str(s@),
{
    let len = s.unicode_len();
    let start: usize = if len > 0 && s.get_char(0) == '+' {
        1
    } else {
        0
    };
    let ghost t = if s@.len() > 0 && s@[0] == '+' {
        s@.drop_first()
    } else {
        s@
    };
    proof {
        assert(t =~= s@.skip(start as int));
    }
    if len == start {
        proof {
            assert(t.len() == 0);
        }
        return false;
    }
    let mut i: usize = start;
    let mut val: u32 = 0;
    proof {
        assert(t.take(0) =~= Seq::<char>::empty());
    }
    while i < len
        invariant
            start <= i <= len,
            len == s@.len(),
            start <= 1,
            t == s@.skip(start as int),
            t.len() == len - start,
            all_digits(t.take((i - start) as int)),
            val <= 65535,
            val == digits_val(t.take((i - start) as int)),
        decreases len - i,
    {
        let c = s.get_char(i);
        let ghost j = (i - start) as int;
        proof {
            assert(t[j] == s@[i as int]);
        }
        let cu = c as u32;
        if cu < 48 || cu > 57 {
            proof {
                assert(c as int == cu as int);
                assert('0' as int == 48 && '9' as int == 57);
                assert(!('0' <= t[j] <= '9'));
                assert(!all_digits(t));
                assert(!is_u16_str(s@));
            }
            return false;
        }
        let d: u32 = cu - 48;
        proof {
            lemma_digits_val_take_grows(t, j);
            assert(c as int == cu as int);
            assert('0' as int == 48 && '9' as int == 57);
            assert('0' <= t[j] <= '9');
            assert(all_digits(t.take(j + 1))) by {
                assert(forall|k: int| 0 <= k < j + 1 ==> t.take(j + 1)[k] == t[k]);
            }
            assert(digits_val(t.take(j + 1)) == val * 10 + d);
        }
        if val > 6553 || (val == 6553 && d > 5) {
            proof {
                assert(val * 10 + d > 65535);
                if all_digits(t) {
                    lemma_digits_val_monotonic(t, j + 1);
                    assert(digits_val(t) > 65535);
                }
                assert(!is_u16_str(s@));
            }
            return false;
        }
        val = val * 10 + d;
        i = i + 1;
    }
    proof {
        assert(t.take((len - start) as int) =~= t);
    }
    true
}

} // verus!

//! Identifier rules shared by the charging state machines.
use vstd::prelude::*;
use vstd::utf8::{decode_utf8, encode_utf8, valid_utf8};

verus! {

/// A session identifier: non-empty, at most 200 bytes of UTF-8.
pub open spec fn valid_session_id(id: Seq<char>) -> bool {
    id.len() > 0 && encode_utf8(id).len() <= 200
}

/// Every byte is an ASCII decimal digit.
pub open spec fn all_digits(b: Seq<u8>) -> bool {
    forall|i: int| 0 <= i < b.len() ==> 48 <= #[trigger] b[i] <= 57
}

/// A subscriber number (MSISDN): 1 to 32 ASCII digits.
pub open spec fn valid_subscriber(s: Seq<char>) -> bool {
    s.len() > 0 && encode_utf8(s).len() <= 32 && all_digits(encode_utf8(s))
}

/// Checks [`valid_session_id`].
pub fn check_session_id(id: &str) -> (ok: bool)
    ensures
        ok == valid_session_id(id@),
{
    !id.is_empty() && id.as_bytes().len() <= 200
}

/// Checks [`valid_subscriber`].
pub fn check_subscriber(s: &str) -> (ok: bool)
    ensures
        ok == valid_subscriber(s@),
{
    if s.is_empty() || s.as_bytes().len() > 32 {
        return false;
    }
    let bytes = s.as_bytes();
    let n = bytes.len();
    let mut i: usize = 0;
    while i < n
        invariant
            n == bytes@.len(),
            bytes@ == encode_utf8(s@),
            i <= n,
            forall|j: int| 0 <= j < i ==> 48 <= #[trigger] bytes@[j] <= 57,
        decreases n - i,
    {
        if !(48 <= bytes[i] && bytes[i] <= 57) {
            return false;
        }
        i = i + 1;
    }
    true
}

/// A Diameter identity or text field: 1 to 255 bytes of UTF-8.
pub open spec fn valid_identity(s: Seq<char>) -> bool {
    s.len() > 0 && encode_utf8(s).len() <= 255
}

/// Checks [`valid_identity`].
pub fn check_identity(s: &str) -> (ok: bool)
    ensures
        ok == valid_identity(s@),
{
    !s.is_empty() && s.as_bytes().len() <= 255
}

/// Reads bytes as UTF-8 text through `std::str::from_utf8`, which accepts
/// exactly the well-formed UTF-8 sequences and then yields the characters
/// they encode. The contract states that, in terms of vstd's model of
/// UTF-8.
#[verifier::external_body]
pub(crate) fn utf8_text(bytes: &[u8]) -> (res: Option<String>)
    ensures
        res is Some <==> valid_utf8(bytes@),
        res matches Some(s) ==> s@ == decode_utf8(bytes@),
{
    match std::str::from_utf8(bytes) {
        Ok(s) => Some(s.to_owned()),
        Err(_) => None,
    }
}

/// Whether two byte strings are equal.
pub fn bytes_equal(a: &[u8], b: &[u8]) -> (eq: bool)
    ensures
        eq == (a@ == b@),
{
    if a.len() != b.len() {
        return false;
    }
    let n = a.len();
    let mut i: usize = 0;
    while i < n
        invariant
            n == a@.len(),
            n == b@.len(),
            i <= n,
            forall|j: int| 0 <= j < i ==> a@[j] == b@[j],
        decreases n - i,
    {
        if a[i] != b[i] {
            return false;
        }
        i = i + 1;
    }
    assert(a@ =~= b@);
    true
}

/// The decimal digit character for `d`.
pub open spec fn digit_char(d: nat) -> char {
    (48 + d) as char
}

/// The decimal representation of `n`, without leading zeros.
pub open spec fn decimal(n: nat) -> Seq<char>
    decreases n,
{
    if n < 10 {
        seq![digit_char(n)]
    } else {
        decimal(n / 10).push(digit_char(n % 10))
    }
}

/// The last character of a decimal is the last digit; the rest is the
/// decimal of the quotient.
proof fn lemma_decimal_shape(n: nat)
    ensures
        decimal(n).len() >= 1,
        decimal(n).last() == digit_char(n % 10),
        n >= 10 ==> decimal(n).drop_last() == decimal(n / 10),
        n < 10 ==> decimal(n).len() == 1,
    decreases n,
{
    if n >= 10 {
        lemma_decimal_shape(n / 10);
        assert(decimal(n).drop_last() =~= decimal(n / 10));
    }
}

/// A decimal is never empty, and every character of it is a digit.
pub proof fn lemma_decimal_digits(n: nat)
    ensures
        decimal(n).len() >= 1,
        forall|i: int| 0 <= i < decimal(n).len() ==> '0' <= #[trigger] decimal(n)[i] <= '9',
    decreases n,
{
    lemma_decimal_shape(n);
    if n >= 10 {
        lemma_decimal_digits(n / 10);
        assert forall|i: int| 0 <= i < decimal(n).len() implies '0' <= #[trigger] decimal(n)[i]
            <= '9' by {
            if i < decimal(n).len() - 1 {
                assert(decimal(n)[i] == decimal(n / 10)[i]);
            } else {
                assert(decimal(n)[i] == digit_char(n % 10));
            }
        }
    } else {
        assert(decimal(n)[0] == digit_char(n));
    }
}

/// Different numbers have different decimal representations.
pub proof fn lemma_decimal_injective(a: nat, b: nat)
    requires
        decimal(a) == decimal(b),
    ensures
        a == b,
    decreases a,
{
    lemma_decimal_shape(a);
    lemma_decimal_shape(b);
    assert(digit_char(a % 10) == digit_char(b % 10));
    assert(a % 10 == b % 10);
    if a >= 10 && b >= 10 {
        lemma_decimal_injective(a / 10, b / 10);
    } else if a >= 10 {
        lemma_decimal_shape(a / 10);
        assert(decimal(a).len() >= 2);
    } else if b >= 10 {
        lemma_decimal_shape(b / 10);
        assert(decimal(b).len() >= 2);
    }
}

fn digit_text(d: usize) -> (s: &'static str)
    requires
        d < 10,
    ensures
        s@ == seq![digit_char(d as nat)],
{
    proof {
        reveal_strlit("0");
        reveal_strlit("1");
        reveal_strlit("2");
        reveal_strlit("3");
        reveal_strlit("4");
        reveal_strlit("5");
        reveal_strlit("6");
        reveal_strlit("7");
        reveal_strlit("8");
        reveal_strlit("9");
    }
    if d == 0 {
        "0"
    } else if d == 1 {
        "1"
    } else if d == 2 {
        "2"
    } else if d == 3 {
        "3"
    } else if d == 4 {
        "4"
    } else if d == 5 {
        "5"
    } else if d == 6 {
        "6"
    } else if d == 7 {
        "7"
    } else if d == 8 {
        "8"
    } else {
        "9"
    }
}

/// Appends the decimal representation of `n`.
pub fn push_decimal(out: &mut String, n: usize)
    ensures
        final(out)@ == old(out)@ + decimal(n as nat),
    decreases n,
{
    if n >= 10 {
        push_decimal(out, n / 10);
    }
    out.append(digit_text(n % 10));
    proof {
        if n >= 10 {
            assert(decimal(n as nat) == decimal((n / 10) as nat).push(digit_char((n % 10) as nat)));
        }
        assert(out@ =~= old(out)@ + decimal(n as nat));
    }
}

} // verus!

//! The JSON text of a pair of strings, as `serde_json` writes it, and the
//! fact that the pair can be read back from that text.
use vstd::prelude::*;

verus! {

/// Lowercase hexadecimal digit for `d < 16`.
pub open spec fn hex_digit(d: int) -> char {
    if d < 10 {
        (48 + d) as char
    } else {
        (87 + d) as char
    }
}

/// The escaped form of one character inside a JSON string: quote and
/// backslash get a backslash, the control characters with a short form
/// (backspace, tab, line feed, form feed, carriage return) use it, the
/// other control characters below 0x20 become `\u00XY`, and everything
/// else stands as it is.
pub open spec fn json_escape_char(c: char) -> Seq<char> {
    let v = c as u32;
    if c == '"' {
        seq!['\\', '"']
    } else if c == '\\' {
        seq!['\\', '\\']
    } else if v == 8 {
        seq!['\\', 'b']
    } else if v == 9 {
        seq!['\\', 't']
    } else if v == 10 {
        seq!['\\', 'n']
    } else if v == 12 {
        seq!['\\', 'f']
    } else if v == 13 {
        seq!['\\', 'r']
    } else if v < 32 {
        seq!['\\', 'u', '0', '0', hex_digit((v / 16) as int), hex_digit((v % 16) as int)]
    } else {
        seq![c]
    }
}

/// The escaped contents of a JSON string.
pub open spec fn json_escape(s: Seq<char>) -> Seq<char>
    decreases s.len(),
{
    if s.len() == 0 {
        Seq::empty()
    } else {
        json_escape_char(s[0]) + json_escape(s.drop_first())
    }
}

/// The compact JSON text of the pair of strings `(first, second)`:
/// `["first","second"]`, each escaped.
pub open spec fn json_pair(first: Seq<char>, second: Seq<char>) -> Seq<char> {
    seq!['[', '"'] + json_escape(first) + seq!['"', ',', '"'] + json_escape(second) + seq!['"', ']']
}

/// The value of a lowercase hexadecimal digit.
pub open spec fn hex_value(c: char) -> int {
    if '0' <= c && c <= '9' {
        c as int - 48
    } else {
        c as int - 87
    }
}

/// The character an escape sequence starting at `t[0] == '\\'` stands
/// for, and the length of the sequence.
pub open spec fn unescape_one(t: Seq<char>) -> Option<(char, int)> {
    if t.len() < 2 {
        None
    } else if t[1] == '"' {
        Some(('"', 2))
    } else if t[1] == '\\' {
        Some(('\\', 2))
    } else if t[1] == 'b' {
        Some((8int as char, 2))
    } else if t[1] == 't' {
        Some((9int as char, 2))
    } else if t[1] == 'n' {
        Some((10int as char, 2))
    } else if t[1] == 'f' {
        Some((12int as char, 2))
    } else if t[1] == 'r' {
        Some((13int as char, 2))
    } else if t[1] == 'u' && t.len() >= 6 {
        Some(((hex_value(t[4]) * 16 + hex_value(t[5])) as char, 6))
    } else {
        None
    }
}

/// Reads escaped string contents up to the closing quote: the contents and
/// what follows the quote.
pub open spec fn read_string(t: Seq<char>) -> Option<(Seq<char>, Seq<char>)>
    decreases t.len(),
{
    if t.len() == 0 {
        None
    } else if t[0] == '"' {
        Some((Seq::empty(), t.drop_first()))
    } else if t[0] == '\\' {
        match unescape_one(t) {
            None => None,
            Some((c, n)) => match read_string(t.skip(n)) {
                None => None,
                Some((s, rest)) => Some((seq![c] + s, rest)),
            },
        }
    } else {
        match read_string(t.drop_first()) {
            None => None,
            Some((s, rest)) => Some((seq![t[0]] + s, rest)),
        }
    }
}

proof fn lemma_hex(d: int)
    requires
        0 <= d < 16,
    ensures
        hex_value(hex_digit(d)) == d,
{
}

/// Escaped contents followed by a quote read back as the contents.
pub proof fn lemma_read_escaped(s: Seq<char>, rest: Seq<char>)
    ensures
        read_string(json_escape(s) + seq!['"'] + rest) == Some((s, rest)),
    decreases s.len(),
{
    let t = json_escape(s) + seq!['"'] + rest;
    if s.len() == 0 {
        assert(t =~= seq!['"'] + rest);
        assert(t.drop_first() =~= rest);
    } else {
        let c = s[0];
        let e = json_escape_char(c);
        let tail = json_escape(s.drop_first()) + seq!['"'] + rest;
        assert(t =~= e + tail);
        lemma_read_escaped(s.drop_first(), rest);
        let v = c as u32;
        if c != '"' && c != '\\' && v >= 32 {
            assert(t[0] == c);
            assert(t.drop_first() =~= tail);
        } else if c == '"' || c == '\\' || v == 8 || v == 9 || v == 10 || v == 12 || v == 13 {
            assert(t.skip(2) =~= tail);
            vstd::utf8::char_u32_cast(c, c as u32);
        } else {
            assert(0 <= v < 32);
            assert(t.skip(6) =~= tail);
            lemma_hex((v / 16) as int);
            lemma_hex((v % 16) as int);
            assert(hex_value(t[4]) * 16 + hex_value(t[5]) == v);
            vstd::utf8::char_u32_cast(c, c as u32);
        }
        assert(seq![c] + s.drop_first() =~= s);
    }
}

/// Different pairs of strings have different JSON texts.
pub proof fn lemma_json_pair_injective(a1: Seq<char>, b1: Seq<char>, a2: Seq<char>, b2: Seq<char>)
    requires
        json_pair(a1, b1) == json_pair(a2, b2),
    ensures
        a1 == a2,
        b1 == b2,
{
    let tail1 = seq![',', '"'] + json_escape(b1) + seq!['"', ']'];
    let tail2 = seq![',', '"'] + json_escape(b2) + seq!['"', ']'];
    let t1 = json_pair(a1, b1);
    let t2 = json_pair(a2, b2);
    assert(t1.skip(2) =~= json_escape(a1) + seq!['"'] + tail1);
    assert(t2.skip(2) =~= json_escape(a2) + seq!['"'] + tail2);
    lemma_read_escaped(a1, tail1);
    lemma_read_escaped(a2, tail2);
    assert(tail1.skip(2) =~= json_escape(b1) + seq!['"'] + seq![']']);
    assert(tail2.skip(2) =~= json_escape(b2) + seq!['"'] + seq![']']);
    lemma_read_escaped(b1, seq![']']);
    lemma_read_escaped(b2, seq![']']);
}

} // verus!

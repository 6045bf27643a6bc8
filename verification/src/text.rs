//! Text building blocks: decimal rendering of integers, percent-encoding of
//! URL segments, JSON string escaping, and small string utilities.

use vstd::prelude::*;

verus! {

use vstd::string::StrSliceExecFns;
use vstd::string::StringSliceAdditionalSpecFns;
use vstd::utf8::encode_scalar;
use vstd::utf8::encode_utf8;

/// Relies on `String`'s `FromIterator<char>` impl: collecting characters
/// yields the string whose characters are exactly those collected, in order.
#[verifier::external_body]
pub fn chars_to_string(v: &Vec<char>) -> (r: String)
    ensures
        r@ == v@,
{
    v.iter().collect()
}

/// The characters of a string, in order, as a vector.
pub fn str_to_chars(s: &str) -> (r: Vec<char>)
    ensures
        r@ == s@,
{
    let n = s.unicode_len();
    let mut r: Vec<char> = Vec::new();
    let mut i: usize = 0;
    while i < n
        invariant
            i <= n,
            n == s@.len(),
            r@ == s@.subrange(0, i as int),
        decreases n - i,
    {
        r.push(s.get_char(i));
        i = i + 1;
        assert(r@ =~= s@.subrange(0, i as int));
    }
    assert(r@ =~= s@);
    r
}

/// Character-wise string equality.
pub fn str_eq(a: &str, b: &str) -> (r: bool)
    ensures
        r == (a@ == b@),
{
    let na = a.unicode_len();
    let nb = b.unicode_len();
    if na != nb {
        return false;
    }
    let mut i: usize = 0;
    while i < na
        invariant
            i <= na,
            na == a@.len(),
            na == b@.len(),
            forall|j: int| 0 <= j < i ==> a@[j] == b@[j],
        decreases na - i,
    {
        if a.get_char(i) != b.get_char(i) {
            return false;
        }
        i = i + 1;
    }
    assert(a@ =~= b@);
    true
}

/// Appends the characters of `s` to `out`.
pub fn push_chars(out: &mut Vec<char>, s: &str)
    ensures
        final(out)@ == old(out)@ + s@,
{
    let n = s.unicode_len();
    let mut i: usize = 0;
    while i < n
        invariant
            i <= n,
            n == s@.len(),
            out@ == old(out)@ + s@.subrange(0, i as int),
        decreases n - i,
    {
        out.push(s.get_char(i));
        i = i + 1;
        assert(out@ =~= old(out)@ + s@.subrange(0, i as int));
    }
    assert(out@ =~= old(out)@ + s@);
}

/// The character for a single decimal digit.
pub open spec fn spec_digit_char(d: nat) -> char
    recommends
        d < 10,
{
    ((48 + d) as u8) as char
}

/// Decimal digits of a natural number, most significant first,
/// without leading zeros (`0` renders as `"0"`).
pub open spec fn spec_dec_nat(n: nat) -> Seq<char>
    decreases n,
{
    if n < 10 {
        seq![spec_digit_char(n)]
    } else {
        spec_dec_nat(n / 10).push(spec_digit_char(n % 10))
    }
}

/// Decimal rendering of an integer: a leading `-` for negative values,
/// then the digits of the magnitude.
pub open spec fn spec_dec_int(n: int) -> Seq<char> {
    if n < 0 {
        seq!['-'] + spec_dec_nat((-n) as nat)
    } else {
        spec_dec_nat(n as nat)
    }
}

/// Digits of `n`, as characters, most significant first.
fn dec_u64(n: u64) -> (r: Vec<char>)
    ensures
        r@ == spec_dec_nat(n as nat),
    decreases n,
{
    if n < 10 {
        let d: u8 = 48 + (n as u8);
        let mut r: Vec<char> = Vec::new();
        r.push(d as char);
        assert(r@ =~= spec_dec_nat(n as nat));
        r
    } else {
        let mut r = dec_u64(n / 10);
        let d: u8 = 48 + ((n % 10) as u8);
        r.push(d as char);
        assert(r@ =~= spec_dec_nat(n as nat));
        r
    }
}

/// Decimal rendering of a signed machine integer, as the characters of
/// `spec_dec_int`.
pub fn render_isize(n: isize) -> (r: Vec<char>)
    ensures
        r@ == spec_dec_int(n as int),
{
    if n >= 0 {
        dec_u64(n as u64)
    } else {
        let mag: u64 = (-(n as i128)) as u64;
        assert(mag == -(n as int));
        let digits = dec_u64(mag);
        let mut r: Vec<char> = Vec::new();
        r.push('-');
        let mut i: usize = 0;
        while i < digits.len()
            invariant
                i <= digits.len(),
                digits@ == spec_dec_nat((-(n as int)) as nat),
                r@ == seq!['-'] + digits@.subrange(0, i as int),
            decreases digits.len() - i,
        {
            r.push(digits[i]);
            i = i + 1;
            assert(r@ =~= seq!['-'] + digits@.subrange(0, i as int));
        }
        assert(digits@.subrange(0, digits@.len() as int) =~= digits@);
        assert(r@ =~= spec_dec_int(n as int));
        r
    }
}

/// The character for a single hexadecimal digit, uppercase.
pub open spec fn spec_hex_char(d: nat) -> char
    recommends
        d < 16,
{
    if d < 10 {
        ((48 + d) as u8) as char
    } else {
        ((55 + d) as u8) as char
    }
}

fn hex_char(d: u8) -> (c: char)
    requires
        d < 16,
    ensures
        c == spec_hex_char(d as nat),
{
    if d < 10 {
        (48 + d) as char
    } else {
        (55 + d) as char
    }
}

/// The bytes a URL path or query segment may carry unencoded: the
/// unreserved set (letters, digits, `-`, `.`, `_`, `~`).
pub open spec fn spec_is_unreserved(b: u8) -> bool {
    (48 <= b <= 57) || (65 <= b <= 90) || (97 <= b <= 122) || b == 45 || b == 46 || b == 95 || b
        == 126
}

/// Percent-encoding of one byte: kept as a character when unreserved,
/// written `%XX` with uppercase hex digits otherwise.
pub open spec fn spec_pct_byte(b: u8) -> Seq<char> {
    if spec_is_unreserved(b) {
        seq![b as char]
    } else {
        seq!['%', spec_hex_char((b / 16) as nat), spec_hex_char((b % 16) as nat)]
    }
}

/// Percent-encoding of a byte sequence.
pub open spec fn spec_pct_bytes(bs: Seq<u8>) -> Seq<char>
    decreases bs.len(),
{
    if bs.len() == 0 {
        Seq::empty()
    } else {
        spec_pct_byte(bs[0]) + spec_pct_bytes(bs.drop_first())
    }
}

/// Percent-encoding of a string: its UTF-8 bytes, each encoded by
/// `spec_pct_byte`.
pub open spec fn spec_pct_str(s: Seq<char>) -> Seq<char> {
    spec_pct_bytes(encode_utf8(s))
}

proof fn lemma_pct_bytes_push(bs: Seq<u8>, b: u8)
    ensures
        spec_pct_bytes(bs.push(b)) == spec_pct_bytes(bs) + spec_pct_byte(b),
    decreases bs.len(),
{
    assert(bs.push(b)[0] == if bs.len() == 0 {
        b
    } else {
        bs[0]
    });
    if bs.len() == 0 {
        assert(bs.push(b).drop_first() =~= Seq::<u8>::empty());
        assert(spec_pct_bytes(bs.push(b)) == spec_pct_byte(b) + spec_pct_bytes(Seq::empty()));
        assert(spec_pct_byte(b) + spec_pct_bytes(Seq::<u8>::empty()) =~= spec_pct_byte(b));
        assert(spec_pct_bytes(bs) + spec_pct_byte(b) =~= spec_pct_byte(b));
    } else {
        assert(bs.push(b).drop_first() =~= bs.drop_first().push(b));
        lemma_pct_bytes_push(bs.drop_first(), b);
        assert(spec_pct_bytes(bs.push(b)) == spec_pct_byte(bs[0]) + (spec_pct_bytes(bs.drop_first())
            + spec_pct_byte(b)));
        assert(spec_pct_byte(bs[0]) + (spec_pct_bytes(bs.drop_first()) + spec_pct_byte(b)) =~= (
        spec_pct_byte(bs[0]) + spec_pct_bytes(bs.drop_first())) + spec_pct_byte(b));
    }
}

/// Appends the percent-encoding of `s` to `out`.
pub fn push_percent_encoded(out: &mut Vec<char>, s: &str)
    ensures
        final(out)@ == old(out)@ + spec_pct_str(s@),
{
    let bytes: Vec<u8> = s.as_bytes_vec();
    assert(bytes@ == encode_utf8(s@));
    let mut i: usize = 0;
    while i < bytes.len()
        invariant
            i <= bytes@.len(),
            bytes@ == encode_utf8(s@),
            out@ == old(out)@ + spec_pct_bytes(bytes@.subrange(0, i as int)),
        decreases bytes@.len() - i,
    {
        let b = bytes[i];
        if (48 <= b && b <= 57) || (65 <= b && b <= 90) || (97 <= b && b <= 122) || b == 45 || b
            == 46 || b == 95 || b == 126 {
            out.push(b as char);
        } else {
            out.push('%');
            out.push(hex_char(b / 16));
            out.push(hex_char(b % 16));
        }
        proof {
            lemma_pct_bytes_push(bytes@.subrange(0, i as int), bytes@[i as int]);
            assert(bytes@.subrange(0, i as int).push(bytes@[i as int]) =~= bytes@.subrange(
                0,
                i as int + 1,
            ));
        }
        i = i + 1;
        assert(out@ =~= old(out)@ + spec_pct_bytes(bytes@.subrange(0, i as int)));
    }
    assert(bytes@.subrange(0, bytes@.len() as int) =~= bytes@);
}

/// The characters that percent-encoding keeps as themselves.
pub open spec fn spec_is_unreserved_char(c: char) -> bool {
    let u = c as u32;
    (48 <= u && u <= 57) || (65 <= u && u <= 90) || (97 <= u && u <= 122) || u == 45 || u == 46
        || u == 95 || u == 126
}

/// Percent-encoding leaves unreserved text unchanged: a string of letters,
/// digits, `-`, `.`, `_` and `~` stands in a path or query segment exactly
/// as written.
pub proof fn lemma_pct_unreserved(s: Seq<char>)
    requires
        forall|i: int| 0 <= i < s.len() ==> spec_is_unreserved_char(#[trigger] s[i]),
    ensures
        spec_pct_str(s) == s,
    decreases s.len(),
{
    if s.len() == 0 {
        assert(encode_utf8(s) =~= Seq::<u8>::empty());
        assert(spec_pct_str(s) =~= s);
    } else {
        let c = s[0];
        let u = c as u32;
        assert(spec_is_unreserved_char(c));
        assert(u <= 0x7F);
        assert(u & 0x7F == u) by (bit_vector)
            requires
                u <= 0x7F,
        ;
        let b = (u & 0x7F) as u8;
        assert(encode_scalar(u) =~= seq![b]);
        lemma_pct_unreserved(s.drop_first());
        let rest = encode_utf8(s.drop_first());
        assert(encode_utf8(s) == seq![b] + rest);
        assert((seq![b] + rest)[0] == b);
        assert((seq![b] + rest).drop_first() =~= rest);
        assert(spec_is_unreserved(b));
        vstd::utf8::char_u32_cast(c, u);
        assert(u as char == c);
        assert(b as u32 == u);
        assert(b as char == c);
        assert(spec_pct_byte(b) =~= seq![c]);
        assert(spec_pct_str(s) =~= seq![c] + spec_pct_str(s.drop_first()));
        assert(seq![c] + s.drop_first() =~= s);
    }
}

/// JSON escaping of one character: `"` and `\` get a backslash, the named
/// control characters their short escapes, the other control characters a
/// `\u00XX` escape, and every other character stands as itself.
pub open spec fn spec_esc_char(c: char) -> Seq<char> {
    if c == '"' {
        seq!['\\', '"']
    } else if c == '\\' {
        seq!['\\', '\\']
    } else if c == '\n' {
        seq!['\\', 'n']
    } else if c == '\r' {
        seq!['\\', 'r']
    } else if c == '\t' {
        seq!['\\', 't']
    } else if (c as u32) < 32 {
        seq!['\\', 'u', '0', '0', spec_hex_char(((c as u32) / 16) as nat), spec_hex_char(
            ((c as u32) % 16) as nat,
        )]
    } else {
        seq![c]
    }
}

/// JSON escaping of a character sequence.
pub open spec fn spec_esc(s: Seq<char>) -> Seq<char>
    decreases s.len(),
{
    if s.len() == 0 {
        Seq::empty()
    } else {
        spec_esc_char(s[0]) + spec_esc(s.drop_first())
    }
}

/// A JSON string literal: quotes around the escaped characters.
pub open spec fn spec_json_quote(s: Seq<char>) -> Seq<char> {
    seq!['"'] + spec_esc(s) + seq!['"']
}

/// One serialized object member: quoted key, colon, quoted string value.
pub open spec fn spec_member_text(key: Seq<char>, val: Seq<char>) -> Seq<char> {
    spec_json_quote(key) + seq![':'] + spec_json_quote(val)
}

/// Members joined with commas.
pub open spec fn spec_members_text(members: Seq<(Seq<char>, Seq<char>)>) -> Seq<char>
    decreases members.len(),
{
    if members.len() == 0 {
        Seq::empty()
    } else if members.len() == 1 {
        spec_member_text(members[0].0, members[0].1)
    } else {
        spec_member_text(members[0].0, members[0].1) + seq![','] + spec_members_text(
            members.drop_first(),
        )
    }
}

/// The serialized object: braces around the comma-joined members.
pub open spec fn spec_obj_text(members: Seq<(Seq<char>, Seq<char>)>) -> Seq<char> {
    seq!['{'] + spec_members_text(members) + seq!['}']
}

proof fn lemma_esc_push(s: Seq<char>, c: char)
    ensures
        spec_esc(s.push(c)) == spec_esc(s) + spec_esc_char(c),
    decreases s.len(),
{
    assert(s.push(c)[0] == if s.len() == 0 {
        c
    } else {
        s[0]
    });
    if s.len() == 0 {
        assert(s.push(c).drop_first() =~= Seq::<char>::empty());
        assert(spec_esc(s.push(c)) == spec_esc_char(c) + spec_esc(Seq::empty()));
        assert(spec_esc_char(c) + spec_esc(Seq::<char>::empty()) =~= spec_esc_char(c));
        assert(spec_esc(s) + spec_esc_char(c) =~= spec_esc_char(c));
    } else {
        assert(s.push(c).drop_first() =~= s.drop_first().push(c));
        lemma_esc_push(s.drop_first(), c);
        assert(spec_esc(s.push(c)) == spec_esc_char(s[0]) + (spec_esc(s.drop_first())
            + spec_esc_char(c)));
        assert(spec_esc_char(s[0]) + (spec_esc(s.drop_first()) + spec_esc_char(c)) =~= (
        spec_esc_char(s[0]) + spec_esc(s.drop_first())) + spec_esc_char(c));
    }
}

/// Appends the JSON string literal for `s` (quotes included) to `out`.
pub fn push_json_quoted(out: &mut Vec<char>, s: &str)
    ensures
        final(out)@ == old(out)@ + spec_json_quote(s@),
{
    out.push('"');
    let n = s.unicode_len();
    let mut i: usize = 0;
    while i < n
        invariant
            i <= n,
            n == s@.len(),
            out@ == old(out)@ + seq!['"'] + spec_esc(s@.subrange(0, i as int)),
        decreases n - i,
    {
        let c = s.get_char(i);
        if c == '"' {
            out.push('\\');
            out.push('"');
        } else if c == '\\' {
            out.push('\\');
            out.push('\\');
        } else if c == '\n' {
            out.push('\\');
            out.push('n');
        } else if c == '\r' {
            out.push('\\');
            out.push('r');
        } else if c == '\t' {
            out.push('\\');
            out.push('t');
        } else if (c as u32) < 32 {
            out.push('\\');
            out.push('u');
            out.push('0');
            out.push('0');
            let v: u32 = c as u32;
            out.push(hex_char((v / 16) as u8));
            out.push(hex_char((v % 16) as u8));
        } else {
            out.push(c);
        }
        proof {
            lemma_esc_push(s@.subrange(0, i as int), s@[i as int]);
            assert(s@.subrange(0, i as int).push(s@[i as int]) =~= s@.subrange(0, i as int + 1));
        }
        i = i + 1;
        assert(out@ =~= old(out)@ + seq!['"'] + spec_esc(s@.subrange(0, i as int)));
    }
    out.push('"');
    assert(s@.subrange(0, s@.len() as int) =~= s@);
    assert(out@ =~= old(out)@ + spec_json_quote(s@));
}

} // verus!

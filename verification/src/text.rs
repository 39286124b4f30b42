//! Character-level helpers shared by the log operations: record summaries,
//! payload normalization, and the textual forms of identifiers and counts.

use vstd::prelude::*;

verus! {

/// The characters of `s` as an indexable vector.
pub fn chars_of(s: &str) -> (v: Vec<char>)
    ensures
        v@ == s@,
{
    let n: usize = s.unicode_len();
    let mut v: Vec<char> = Vec::new();
    let mut i: usize = 0;
    while i < n
        invariant
            n == s@.len(),
            i <= n,
            v@ == s@.subrange(0, i as int),
        decreases n - i,
    {
        v.push(s.get_char(i));
        i = i + 1;
    }
    proof {
        assert(v@ =~= s@);
    }
    v
}

/// Whether two strings hold the same characters.
pub fn str_eq(a: &str, b: &str) -> (r: bool)
    ensures
        r == (a@ == b@),
{
    let n: usize = a.unicode_len();
    let m: usize = b.unicode_len();
    if n != m {
        return false;
    }
    let mut i: usize = 0;
    while i < n
        invariant
            n == a@.len(),
            n == b@.len(),
            i <= n,
            forall|j: int| 0 <= j < i ==> a@[j] == b@[j],
        decreases n - i,
    {
        if a.get_char(i) != b.get_char(i) {
            return false;
        }
        i = i + 1;
    }
    proof {
        assert(a@ =~= b@);
    }
    true
}

/// Length of the first line of `s`: the index of the first newline, or the
/// whole length when there is none.
pub open spec fn line_break_at(s: Seq<char>) -> int
    decreases s.len(),
{
    if s.len() == 0 {
        0
    } else if s[0] == '\n' {
        0
    } else {
        1 + line_break_at(s.drop_first())
    }
}

/// The first line of `s`, without its newline.
pub open spec fn spec_first_line(s: Seq<char>) -> Seq<char> {
    s.take(line_break_at(s))
}

proof fn lemma_line_break_at_bounds(s: Seq<char>)
    ensures
        0 <= line_break_at(s) <= s.len(),
        forall|j: int| 0 <= j < line_break_at(s) ==> s[j] != '\n',
        line_break_at(s) < s.len() ==> s[line_break_at(s)] == '\n',
    decreases s.len(),
{
    if s.len() == 0 {
    } else if s[0] == '\n' {
    } else {
        lemma_line_break_at_bounds(s.drop_first());
        assert forall|j: int| 0 <= j < line_break_at(s) implies s[j] != '\n' by {
            if j > 0 {
                assert(s.drop_first()[j - 1] != '\n');
            }
        }
    }
}

proof fn lemma_line_break_at_of_scan(s: Seq<char>, i: int)
    requires
        0 <= i <= s.len(),
        forall|j: int| 0 <= j < i ==> s[j] != '\n',
        i < s.len() ==> s[i] == '\n',
    ensures
        line_break_at(s) == i,
    decreases s.len(),
{
    if s.len() == 0 {
    } else if s[0] == '\n' {
    } else {
        assert(s[0] != '\n');
        lemma_line_break_at_of_scan(s.drop_first(), i - 1);
    }
}

/// The first line of `s`, used as the one-line summary of a record's payload.
/// The summary never spans lines: it holds no newline itself.
pub fn first_line(s: &str) -> (r: String)
    ensures
        r@ == spec_first_line(s@),
        forall|j: int| 0 <= j < r@.len() ==> r@[j] != '\n',
{
    let n: usize = s.unicode_len();
    let mut i: usize = 0;
    while i < n
        invariant
            n == s@.len(),
            i <= n,
            forall|j: int| 0 <= j < i ==> s@[j] != '\n',
        decreases n - i,
    {
        if s.get_char(i) == '\n' {
            proof {
                lemma_line_break_at_of_scan(s@, i as int);
                lemma_line_break_at_bounds(s@);
            }
            let line = s.substring_char(0, i);
            proof {
                assert(line@ =~= spec_first_line(s@));
            }
            return line.to_owned();
        }
        i = i + 1;
    }
    proof {
        lemma_line_break_at_of_scan(s@, n as int);
        lemma_line_break_at_bounds(s@);
    }
    let line = s.substring_char(0, n);
    proof {
        assert(line@ =~= spec_first_line(s@));
    }
    line.to_owned()
}

/// `s` without any trailing newline characters.
pub open spec fn spec_trim_trailing_newlines(s: Seq<char>) -> Seq<char>
    decreases s.len(),
{
    if s.len() > 0 && s.last() == '\n' {
        spec_trim_trailing_newlines(s.drop_last())
    } else {
        s
    }
}

proof fn lemma_trim_of_scan(s: Seq<char>, e: int)
    requires
        0 <= e <= s.len(),
        forall|j: int| e <= j < s.len() ==> s[j] == '\n',
        e > 0 ==> s[e - 1] != '\n',
    ensures
        spec_trim_trailing_newlines(s) == s.take(e),
    decreases s.len(),
{
    if s.len() > 0 && s.last() == '\n' {
        assert(e < s.len());
        lemma_trim_of_scan(s.drop_last(), e);
        assert(s.drop_last().take(e) =~= s.take(e));
    } else {
        assert(e == s.len());
        assert(s.take(e) =~= s);
    }
}

/// Strips every trailing newline from a payload read in from outside,
/// as the log does before recording it.
pub fn trim_trailing_newlines(s: &str) -> (r: String)
    ensures
        r@ == spec_trim_trailing_newlines(s@),
{
    let n: usize = s.unicode_len();
    let mut e: usize = n;
    while e > 0
        invariant
            n == s@.len(),
            e <= n,
            forall|j: int| e <= j < n ==> s@[j] == '\n',
        decreases e,
    {
        if s.get_char(e - 1) != '\n' {
            proof {
                lemma_trim_of_scan(s@, e as int);
            }
            return s.substring_char(0, e).to_owned();
        }
        e = e - 1;
    }
    proof {
        lemma_trim_of_scan(s@, 0);
    }
    s.substring_char(0, 0).to_owned()
}

/// Whether every character of `s` is blank space, as an unset configuration
/// value would be.
pub open spec fn spec_is_blank(s: Seq<char>) -> bool {
    forall|j: int| 0 <= j < s.len() ==> (s[j] == ' ' || s[j] == '\t' || s[j] == '\n' || s[j] == '\r')
}

/// True when `s` holds nothing but blank space.
pub fn is_blank(s: &str) -> (r: bool)
    ensures
        r == spec_is_blank(s@),
{
    let n: usize = s.unicode_len();
    let mut i: usize = 0;
    while i < n
        invariant
            n == s@.len(),
            i <= n,
            forall|j: int| 0 <= j < i ==> (s@[j] == ' ' || s@[j] == '\t' || s@[j] == '\n' || s@[j] == '\r'),
        decreases n - i,
    {
        let c = s.get_char(i);
        if !(c == ' ' || c == '\t' || c == '\n' || c == '\r') {
            return false;
        }
        i = i + 1;
    }
    true
}

/// The decimal digit character for `d`.
pub open spec fn dec_digit(d: int) -> char {
    if d == 0 { '0' }
    else if d == 1 { '1' }
    else if d == 2 { '2' }
    else if d == 3 { '3' }
    else if d == 4 { '4' }
    else if d == 5 { '5' }
    else if d == 6 { '6' }
    else if d == 7 { '7' }
    else if d == 8 { '8' }
    else { '9' }
}

/// The decimal rendering of `n`, most significant digit first.
pub open spec fn spec_decimal(n: nat) -> Seq<char>
    decreases n,
{
    if n < 10 {
        seq![dec_digit(n as int)]
    } else {
        spec_decimal(n / 10).push(dec_digit((n % 10) as int))
    }
}

/// Appends the decimal digit `d` to `out`.
fn push_dec_digit(out: &mut String, d: u64)
    requires
        d < 10,
    ensures
        final(out)@ == old(out)@.push(dec_digit(d as int)),
{
    let digits = "0123456789";
    proof {
        reveal_strlit("0123456789");
    }
    let piece = digits.substring_ascii(d as usize, d as usize + 1);
    out.append(piece);
    proof {
        assert(piece@ =~= seq![dec_digit(d as int)]);
        assert(old(out)@ + piece@ =~= old(out)@.push(dec_digit(d as int)));
    }
}

fn decimal_rec(out: &mut String, n: u64)
    ensures
        final(out)@ == old(out)@ + spec_decimal(n as nat),
    decreases n,
{
    if n < 10 {
        push_dec_digit(out, n);
        proof {
            assert(old(out)@.push(dec_digit(n as int)) =~= old(out)@ + spec_decimal(n as nat));
        }
    } else {
        decimal_rec(out, n / 10);
        push_dec_digit(out, n % 10);
        proof {
            assert((old(out)@ + spec_decimal((n / 10) as nat)).push(dec_digit((n % 10) as int))
                =~= old(out)@ + spec_decimal(n as nat));
        }
    }
}

/// The decimal rendering of `n`.
pub fn decimal_string(n: u64) -> (r: String)
    ensures
        r@ == spec_decimal(n as nat),
{
    let mut out = String::new();
    decimal_rec(&mut out, n);
    proof {
        assert(Seq::<char>::empty() + spec_decimal(n as nat) =~= spec_decimal(n as nat));
    }
    out
}

/// Lexicographic order on character sequences, by code point.
pub open spec fn lex_lt(a: Seq<char>, b: Seq<char>) -> bool
    decreases a.len() + b.len(),
{
    if b.len() == 0 {
        false
    } else if a.len() == 0 {
        true
    } else if (a[0] as u32) < (b[0] as u32) {
        true
    } else if (a[0] as u32) > (b[0] as u32) {
        false
    } else {
        lex_lt(a.drop_first(), b.drop_first())
    }
}

/// The order is total: two mutually incomparable sequences are equal.
pub proof fn lemma_lex_total(a: Seq<char>, b: Seq<char>)
    requires
        !lex_lt(a, b),
        !lex_lt(b, a),
    ensures
        a == b,
    decreases a.len() + b.len(),
{
    if b.len() == 0 {
        assert(a.len() == 0);
        assert(a =~= b);
    } else if a.len() == 0 {
    } else {
        assert((a[0] as u32) == (b[0] as u32));
        assert(a[0] == b[0]) by {
            vstd::utf8::char_u32_cast(a[0], a[0] as u32);
            vstd::utf8::char_u32_cast(b[0], b[0] as u32);
        }
        lemma_lex_total(a.drop_first(), b.drop_first());
        assert(a =~= b) by {
            assert(a.drop_first() =~= b.drop_first());
            assert forall|i: int| 0 <= i < a.len() implies a[i] == b[i] by {
                if i > 0 {
                    assert(a.drop_first()[i - 1] == b.drop_first()[i - 1]);
                }
            }
        }
    }
}

/// The order is transitive.
pub proof fn lemma_lex_trans(a: Seq<char>, b: Seq<char>, c: Seq<char>)
    requires
        lex_lt(a, b),
        lex_lt(b, c),
    ensures
        lex_lt(a, c),
    decreases a.len() + b.len() + c.len(),
{
    if a.len() == 0 {
    } else {
        if (a[0] as u32) == (b[0] as u32) && (b[0] as u32) == (c[0] as u32) {
            lemma_lex_trans(a.drop_first(), b.drop_first(), c.drop_first());
        }
    }
}

/// Compares two strings in lexicographic code-point order.
pub fn str_lt(a: &str, b: &str) -> (r: bool)
    ensures
        r == lex_lt(a@, b@),
{
    let n: usize = a.unicode_len();
    let m: usize = b.unicode_len();
    let mut i: usize = 0;
    proof {
        assert(a@.skip(0) =~= a@);
        assert(b@.skip(0) =~= b@);
    }
    while i < n && i < m
        invariant
            n == a@.len(),
            m == b@.len(),
            i <= n,
            i <= m,
            lex_lt(a@, b@) == lex_lt(a@.skip(i as int), b@.skip(i as int)),
        decreases n - i,
    {
        let ca = a.get_char(i);
        let cb = b.get_char(i);
        proof {
            assert(a@.skip(i as int)[0] == a@[i as int]);
            assert(b@.skip(i as int)[0] == b@[i as int]);
            assert(a@.skip(i as int).drop_first() =~= a@.skip(i + 1));
            assert(b@.skip(i as int).drop_first() =~= b@.skip(i + 1));
        }
        if (ca as u32) < (cb as u32) {
            return true;
        }
        if (ca as u32) > (cb as u32) {
            return false;
        }
        i = i + 1;
    }
    proof {
        if i >= m {
            assert(b@.skip(i as int).len() == 0);
        } else {
            assert(a@.skip(i as int).len() == 0);
        }
    }
    i < m
}

/// Whether `p` is a prefix of `s`.
pub fn str_starts_with(s: &str, p: &str) -> (r: bool)
    ensures
        r == p@.is_prefix_of(s@),
{
    let n: usize = s.unicode_len();
    let m: usize = p.unicode_len();
    if m > n {
        return false;
    }
    let mut i: usize = 0;
    while i < m
        invariant
            n == s@.len(),
            m == p@.len(),
            m <= n,
            i <= m,
            forall|j: int| 0 <= j < i ==> s@[j] == p@[j],
        decreases m - i,
    {
        if s.get_char(i) != p.get_char(i) {
            return false;
        }
        i = i + 1;
    }
    proof {
        assert(s@.subrange(0, m as int) =~= p@);
    }
    true
}

/// `s` with the prefix `p` removed.
pub fn strip_prefix(s: &str, p: &str) -> (r: String)
    requires
        p@.is_prefix_of(s@),
    ensures
        r@ == s@.skip(p@.len() as int),
{
    let n: usize = s.unicode_len();
    let m: usize = p.unicode_len();
    let rest = s.substring_char(m, n);
    proof {
        assert(rest@ =~= s@.skip(m as int));
    }
    rest.to_owned()
}

/// The lower-case hexadecimal digit character for `d`.
pub open spec fn hex_digit(d: int) -> char {
    if d == 0 { '0' }
    else if d == 1 { '1' }
    else if d == 2 { '2' }
    else if d == 3 { '3' }
    else if d == 4 { '4' }
    else if d == 5 { '5' }
    else if d == 6 { '6' }
    else if d == 7 { '7' }
    else if d == 8 { '8' }
    else if d == 9 { '9' }
    else if d == 10 { 'a' }
    else if d == 11 { 'b' }
    else if d == 12 { 'c' }
    else if d == 13 { 'd' }
    else if d == 14 { 'e' }
    else { 'f' }
}

/// The two hexadecimal digits of one byte, high nibble first.
pub open spec fn hex_byte(b: u8) -> Seq<char> {
    seq![hex_digit(b as int / 16), hex_digit(b as int % 16)]
}

/// The lower-case hexadecimal rendering of `bytes`.
pub open spec fn spec_hex(bytes: Seq<u8>) -> Seq<char>
    decreases bytes.len(),
{
    if bytes.len() == 0 {
        Seq::empty()
    } else {
        spec_hex(bytes.drop_last()) + hex_byte(bytes.last())
    }
}

/// Appends the hexadecimal digit `d` to `out`.
fn push_hex_digit(out: &mut String, d: u8)
    requires
        d < 16,
    ensures
        final(out)@ == old(out)@.push(hex_digit(d as int)),
{
    let digits = "0123456789abcdef";
    proof {
        reveal_strlit("0123456789abcdef");
    }
    let piece = digits.substring_ascii(d as usize, d as usize + 1);
    out.append(piece);
    proof {
        assert(piece@ =~= seq![hex_digit(d as int)]);
        assert(old(out)@ + piece@ =~= old(out)@.push(hex_digit(d as int)));
    }
}

/// The hexadecimal rendering spells two digits per byte.
pub proof fn lemma_spec_hex_len(bytes: Seq<u8>)
    ensures
        spec_hex(bytes).len() == 2 * bytes.len(),
    decreases bytes.len(),
{
    if bytes.len() > 0 {
        lemma_spec_hex_len(bytes.drop_last());
    }
}

/// The lower-case hexadecimal rendering of `bytes`, as an identifier is shown.
pub fn hex_string(bytes: &Vec<u8>) -> (r: String)
    ensures
        r@ == spec_hex(bytes@),
{
    let mut out = String::new();
    let mut i: usize = 0;
    while i < bytes.len()
        invariant
            i <= bytes@.len(),
            out@ == spec_hex(bytes@.subrange(0, i as int)),
        decreases bytes@.len() - i,
    {
        let b = bytes[i];
        push_hex_digit(&mut out, b / 16);
        push_hex_digit(&mut out, b % 16);
        i = i + 1;
        proof {
            let pre = bytes@.subrange(0, i as int);
            assert(pre.drop_last() =~= bytes@.subrange(0, i - 1));
            assert(out@ =~= spec_hex(pre));
        }
    }
    proof {
        assert(bytes@.subrange(0, bytes@.len() as int) =~= bytes@);
    }
    out
}

} // verus!

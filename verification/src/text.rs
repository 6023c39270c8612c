//! Text helpers: ordering of column names, decimal and hexadecimal rendering,
//! whitespace tests and concatenation, all stated over `Seq<char>` views.
use vstd::prelude::*;

verus! {

/// Code point of a character, as an integer.
pub open spec fn code(c: char) -> int {
    c as int
}

/// Lexicographic order on character sequences, compared from position `i` on.
/// This is the order `String` has in Rust: UTF-8 byte order and code point
/// order agree.
pub open spec fn lex_lt_from(a: Seq<char>, b: Seq<char>, i: int) -> bool
    decreases a.len() - i,
{
    if i < 0 || i >= a.len() {
        0 <= i < b.len()
    } else if i >= b.len() {
        false
    } else if a[i] != b[i] {
        code(a[i]) < code(b[i])
    } else {
        lex_lt_from(a, b, i + 1)
    }
}

/// Strict lexicographic order on character sequences.
pub open spec fn lex_lt(a: Seq<char>, b: Seq<char>) -> bool {
    lex_lt_from(a, b, 0)
}

proof fn lemma_lex_from_common_prefix(a: Seq<char>, b: Seq<char>, i: int)
    requires
        0 <= i <= a.len(),
        i <= b.len(),
        forall|k: int| 0 <= k < i ==> a[k] == b[k],
    ensures
        lex_lt_from(a, b, 0) == lex_lt_from(a, b, i),
    decreases i,
{
    if i > 0 {
        lemma_lex_from_common_prefix(a, b, i - 1);
    }
}

proof fn lemma_lex_irreflexive_from(a: Seq<char>, i: int)
    requires 0 <= i <= a.len(),
    ensures !lex_lt_from(a, a, i),
    decreases a.len() - i,
{
    if i < a.len() {
        lemma_lex_irreflexive_from(a, i + 1);
    }
}

/// No sequence is below itself.
pub proof fn lemma_lex_irreflexive(a: Seq<char>)
    ensures !lex_lt(a, a),
{
    lemma_lex_irreflexive_from(a, 0);
}

proof fn lemma_lex_trans_from(a: Seq<char>, b: Seq<char>, c: Seq<char>, i: int)
    requires
        0 <= i,
        i <= a.len(), i <= b.len(), i <= c.len(),
        lex_lt_from(a, b, i),
        lex_lt_from(b, c, i),
    ensures
        lex_lt_from(a, c, i),
    decreases a.len() - i,
{
    if i < a.len() && i < b.len() && i < c.len() && a[i] == b[i] && b[i] == c[i] {
        lemma_lex_trans_from(a, b, c, i + 1);
    }
}

/// The order is transitive.
pub proof fn lemma_lex_transitive(a: Seq<char>, b: Seq<char>, c: Seq<char>)
    requires lex_lt(a, b), lex_lt(b, c),
    ensures lex_lt(a, c),
{
    lemma_lex_trans_from(a, b, c, 0);
}

proof fn lemma_lex_total_from(a: Seq<char>, b: Seq<char>, i: int)
    requires
        0 <= i <= a.len(),
        i <= b.len(),
        forall|k: int| 0 <= k < i ==> a[k] == b[k],
        a != b,
    ensures
        lex_lt_from(a, b, i) || lex_lt_from(b, a, i),
    decreases a.len() - i,
{
    if i == a.len() && i == b.len() {
        assert(a =~= b);
    } else if i < a.len() && i < b.len() && a[i] == b[i] {
        lemma_lex_total_from(a, b, i + 1);
    }
}

/// Two different sequences are ordered one way or the other.
pub proof fn lemma_lex_total(a: Seq<char>, b: Seq<char>)
    requires a != b,
    ensures lex_lt(a, b) || lex_lt(b, a),
{
    lemma_lex_total_from(a, b, 0);
}

/// Whether `a` comes strictly before `b` in lexicographic order.
pub fn str_lt(a: &str, b: &str) -> (r: bool)
    ensures r == lex_lt(a@, b@),
{
    let la = a.unicode_len();
    let lb = b.unicode_len();
    let mut i: usize = 0;
    while i < la && i < lb
        invariant
            la == a@.len(), lb == b@.len(),
            i <= la, i <= lb,
            forall|k: int| 0 <= k < i ==> a@[k] == b@[k],
        decreases la - i,
    {
        let x = a.get_char(i);
        let y = b.get_char(i);
        if x != y {
            proof { lemma_lex_from_common_prefix(a@, b@, i as int); }
            return (x as u32) < (y as u32);
        }
        i += 1;
    }
    proof { lemma_lex_from_common_prefix(a@, b@, i as int); }
    i < lb
}

/// Whether two strings hold the same characters.
pub fn str_eq(a: &str, b: &str) -> (r: bool)
    ensures r == (a@ == b@),
{
    let la = a.unicode_len();
    let lb = b.unicode_len();
    if la != lb {
        return false;
    }
    let mut i: usize = 0;
    while i < la
        invariant
            la == a@.len(), lb == b@.len(), la == lb,
            i <= la,
            forall|k: int| 0 <= k < i ==> a@[k] == b@[k],
        decreases la - i,
    {
        if a.get_char(i) != b.get_char(i) {
            return false;
        }
        i += 1;
    }
    assert(a@ =~= b@);
    true
}


/// The character of a decimal digit.
pub open spec fn digit_char(d: int) -> char {
    if d == 0 { '0' } else if d == 1 { '1' } else if d == 2 { '2' } else if d == 3 { '3' }
    else if d == 4 { '4' } else if d == 5 { '5' } else if d == 6 { '6' } else if d == 7 { '7' }
    else if d == 8 { '8' } else { '9' }
}

/// The character of a hexadecimal digit, lower case.
pub open spec fn hex_char(d: int) -> char {
    if d < 10 { digit_char(d) } else if d == 10 { 'a' } else if d == 11 { 'b' } else if d == 12 { 'c' }
    else if d == 13 { 'd' } else if d == 14 { 'e' } else { 'f' }
}

/// Decimal rendering of a natural number, without leading zeros.
pub open spec fn nat_decimal(n: nat) -> Seq<char>
    decreases n,
{
    if n < 10 {
        seq![digit_char(n as int)]
    } else {
        nat_decimal(n / 10) + seq![digit_char((n % 10) as int)]
    }
}

/// Decimal rendering of an integer, as Rust's `Display` writes it.
pub open spec fn int_decimal(i: int) -> Seq<char> {
    if i < 0 {
        seq!['-'] + nat_decimal((-i) as nat)
    } else {
        nat_decimal(i as nat)
    }
}

/// The last `w` hexadecimal digits of `n`, zero padded.
pub open spec fn hex_digits(n: nat, w: nat) -> Seq<char>
    decreases w,
{
    if w == 0 {
        Seq::empty()
    } else {
        hex_digits(n / 16, (w - 1) as nat) + seq![hex_char((n % 16) as int)]
    }
}

/// `0x` followed by sixteen lower-case hexadecimal digits: what `{:#018x}`
/// writes for a `u64`.
pub open spec fn hex_u64_padded(n: u64) -> Seq<char> {
    seq!['0', 'x'] + hex_digits(n as nat, 16)
}

/// Characters with the Unicode `White_Space` property, those that
/// `str::trim` removes.
pub open spec fn is_white_space(c: char) -> bool {
    let x = code(c);
    (9 <= x <= 13) || x == 32 || x == 0x85 || x == 0xA0 || x == 0x1680
        || (0x2000 <= x <= 0x200A) || x == 0x2028 || x == 0x2029 || x == 0x202F
        || x == 0x205F || x == 0x3000
}

/// A sequence that is empty once trimmed: every character is white space.
pub open spec fn is_blank_seq(s: Seq<char>) -> bool {
    forall|i: int| 0 <= i < s.len() ==> is_white_space(#[trigger] s[i])
}

fn hex_digit_str(d: u64) -> (r: &'static str)
    requires d < 16,
    ensures r@ == seq![hex_char(d as int)],
{
    proof {
        reveal_strlit("0"); reveal_strlit("1"); reveal_strlit("2"); reveal_strlit("3");
        reveal_strlit("4"); reveal_strlit("5"); reveal_strlit("6"); reveal_strlit("7");
        reveal_strlit("8"); reveal_strlit("9"); reveal_strlit("a"); reveal_strlit("b");
        reveal_strlit("c"); reveal_strlit("d"); reveal_strlit("e"); reveal_strlit("f");
    }
    if d == 0 { "0" } else if d == 1 { "1" } else if d == 2 { "2" } else if d == 3 { "3" }
    else if d == 4 { "4" } else if d == 5 { "5" } else if d == 6 { "6" } else if d == 7 { "7" }
    else if d == 8 { "8" } else if d == 9 { "9" } else if d == 10 { "a" } else if d == 11 { "b" }
    else if d == 12 { "c" } else if d == 13 { "d" } else if d == 14 { "e" } else { "f" }
}

/// Concatenation of two strings.
pub fn cat(a: &str, b: &str) -> (r: String)
    ensures r@ == a@ + b@,
{
    let s = String::from_str(a);
    s.concat(b)
}

/// Decimal rendering of an unsigned integer.
pub fn u64_decimal(n: u64) -> (r: String)
    ensures r@ == nat_decimal(n as nat),
    decreases n,
{
    if n < 10 {
        String::from_str(hex_digit_str(n))
    } else {
        let head = u64_decimal(n / 10);
        head.concat(hex_digit_str(n % 10))
    }
}

/// Decimal rendering of a signed integer, as `i64::to_string` gives it.
pub fn i64_decimal(i: i64) -> (r: String)
    ensures r@ == int_decimal(i as int),
{
    if i < 0 {
        let m: i128 = -(i as i128);
        let s = u64_decimal(m as u64);
        proof { reveal_strlit("-"); }
        cat("-", s.as_str())
    } else {
        u64_decimal(i as u64)
    }
}

/// Decimal rendering of a `usize`.
pub fn usize_decimal(n: usize) -> (r: String)
    ensures r@ == nat_decimal(n as nat),
{
    u64_decimal(n as u64)
}

fn hex_digits_exec(n: u64, w: u64) -> (r: String)
    requires w <= 16,
    ensures r@ == hex_digits(n as nat, w as nat),
    decreases w,
{
    if w == 0 {
        String::new()
    } else {
        let head = hex_digits_exec(n / 16, w - 1);
        head.concat(hex_digit_str(n % 16))
    }
}

/// `0x` and sixteen hexadecimal digits of `n`, the `{:#018x}` form.
pub fn u64_hex_padded(n: u64) -> (r: String)
    ensures r@ == hex_u64_padded(n),
{
    let digits = hex_digits_exec(n, 16);
    proof { reveal_strlit("0x"); }
    cat("0x", digits.as_str())
}

/// Whether a character has the `White_Space` property.
pub fn char_is_white_space(c: char) -> (r: bool)
    ensures r == is_white_space(c),
{
    let x = c as u32;
    (9 <= x && x <= 13) || x == 32 || x == 0x85 || x == 0xA0 || x == 0x1680
        || (0x2000 <= x && x <= 0x200A) || x == 0x2028 || x == 0x2029 || x == 0x202F
        || x == 0x205F || x == 0x3000
}

/// Whether a string is empty after trimming white space from both ends.
pub fn is_blank(s: &str) -> (r: bool)
    ensures r == is_blank_seq(s@),
{
    let n = s.unicode_len();
    let mut i: usize = 0;
    while i < n
        invariant n == s@.len(), i <= n,
            forall|k: int| 0 <= k < i ==> is_white_space(#[trigger] s@[k]),
        decreases n - i,
    {
        if !char_is_white_space(s.get_char(i)) {
            return false;
        }
        i += 1;
    }
    true
}

/// Whether `t` occurs in `s` as a run of consecutive characters.
pub open spec fn contains_text(s: Seq<char>, t: Seq<char>) -> bool {
    exists|i: int| 0 <= i && i + t.len() <= s.len() && #[trigger] s.subrange(i, i + t.len()) == t
}

} // verus!

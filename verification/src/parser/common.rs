//! What a parse gives, the classes of bytes, and the scanners and literals the
//! grammar is built from.
use vstd::prelude::*;

verus! {

/// The outcome of parsing at a position: a value and the position after it,
/// no match, or a crash (a number too large for 64 bits where one is required).
pub enum Parsed<T> {
    Done(T, int),
    NoMatch,
    Crash,
}

/// Reading the program stops with a panic: a constant too large for 64 bits,
/// an unknown comparison predicate, a vector comparison, or a function
/// without blocks.
#[derive(Debug, Clone, Copy, PartialEq, Eq, Structural)]
pub struct ParsePanic;

/// The bytes of an ASCII text.
pub open spec fn text(t: Seq<char>) -> Seq<u8> {
    t.map_values(|c: char| c as u8)
}

/// The characters of ASCII bytes.
pub open spec fn chars_of(b: Seq<u8>) -> Seq<char> {
    b.map_values(|x: u8| x as char)
}

pub open spec fn is_digit(b: u8) -> bool {
    48 <= b <= 57
}

/// A space or a tab.
pub open spec fn is_space(b: u8) -> bool {
    b == 32 || b == 9
}

/// A space, a tab, a carriage return or a newline.
pub open spec fn is_multispace(b: u8) -> bool {
    b == 32 || b == 9 || b == 10 || b == 13
}

pub open spec fn is_alpha(b: u8) -> bool {
    (65 <= b <= 90) || (97 <= b <= 122)
}

/// A byte of a block or function name: a letter, a digit, `_`, `-` or `.`,
/// or the code of a character beyond ASCII that names accept.
pub open spec fn is_name_char(b: u8) -> bool {
    is_alpha(b) || is_digit(b) || b == 95 || b == 45 || b == 46 || b == 128
}

/// The code that stands for the character `c` in the text the grammar reads.
/// An ASCII character is its own byte. A character beyond ASCII is read by its
/// low byte: where that byte is a letter or a digit, the character is taken
/// into names (code 128); where it is a newline, it ends an instruction line
/// as a newline does, though it is no newline itself (code 129); any other
/// such character is accepted nowhere (code 127, as DEL).
pub open spec fn code_of(c: char) -> u8 {
    let v = c as u32;
    let low = (v % 256) as u8;
    if v < 128 {
        v as u8
    } else if is_alpha(low) || is_digit(low) {
        128
    } else if low == 10 {
        129
    } else {
        127
    }
}

/// The codes of the characters `t`, one per character.
pub open spec fn codes(t: Seq<char>) -> Seq<u8> {
    t.map_values(|c: char| code_of(c))
}

/// The code of `c`.
pub fn char_code(c: char) -> (b: u8)
    ensures
        b == code_of(c),
{
    let v = c as u32;
    let low = (v % 256) as u8;
    if v < 128 {
        v as u8
    } else if (65 <= low && low <= 90) || (97 <= low && low <= 122) || (48 <= low && low <= 57) {
        128
    } else if low == 10 {
        129
    } else {
        127
    }
}

/// The end of the run of spaces and tabs at `i`, before `e`.
pub open spec fn scan_spaces(s: Seq<u8>, i: int, e: int) -> int
    decreases e - i,
{
    if 0 <= i < e && i < s.len() && is_space(s[i]) {
        scan_spaces(s, i + 1, e)
    } else {
        i
    }
}

/// The end of the run of white space (newlines too) at `i`, before `e`.
pub open spec fn scan_multispace(s: Seq<u8>, i: int, e: int) -> int
    decreases e - i,
{
    if 0 <= i < e && i < s.len() && is_multispace(s[i]) {
        scan_multispace(s, i + 1, e)
    } else {
        i
    }
}

/// The end of the run of digits at `i`, before `e`.
pub open spec fn scan_digits(s: Seq<u8>, i: int, e: int) -> int
    decreases e - i,
{
    if 0 <= i < e && i < s.len() && is_digit(s[i]) {
        scan_digits(s, i + 1, e)
    } else {
        i
    }
}

/// The end of the run of letters at `i`, before `e`.
pub open spec fn scan_alpha(s: Seq<u8>, i: int, e: int) -> int
    decreases e - i,
{
    if 0 <= i < e && i < s.len() && is_alpha(s[i]) {
        scan_alpha(s, i + 1, e)
    } else {
        i
    }
}

/// The end of the run of name bytes at `i`, before `e`.
pub open spec fn scan_name(s: Seq<u8>, i: int, e: int) -> int
    decreases e - i,
{
    if 0 <= i < e && i < s.len() && is_name_char(s[i]) {
        scan_name(s, i + 1, e)
    } else {
        i
    }
}

/// A byte that ends a line: a newline, or the code of a character whose low
/// byte is one.
pub open spec fn ends_line(b: u8) -> bool {
    b == 10 || b == 129
}

/// The end of the line at `i`: the position of the next byte that ends a line,
/// or `e`.
pub open spec fn scan_line(s: Seq<u8>, i: int, e: int) -> int
    decreases e - i,
{
    if 0 <= i < e && i < s.len() && !ends_line(s[i]) {
        scan_line(s, i + 1, e)
    } else {
        i
    }
}

/// The bytes `t` stand at `i`, before `e`.
pub open spec fn has_tag(s: Seq<u8>, i: int, e: int, t: Seq<u8>) -> bool {
    0 <= i && i + t.len() <= e && e <= s.len() && s.subrange(i, i + t.len()) == t
}

/// The decimal value of the digits `s[i..j]`.
pub open spec fn digits_value(s: Seq<u8>, i: int, j: int) -> nat
    decreases j - i,
{
    if j <= i {
        0
    } else {
        digits_value(s, i, j - 1) * 10 + (s[j - 1] - 48) as nat
    }
}

/// A run of digits at `i`: its value and its end.
pub open spec fn number(s: Seq<u8>, i: int, e: int) -> Option<(nat, int)> {
    let j = scan_digits(s, i, e);
    if j == i {
        None
    } else {
        Some((digits_value(s, i, j), j))
    }
}

proof fn lemma_scan_bounds(s: Seq<u8>, i: int, e: int)
    requires
        0 <= i <= e <= s.len(),
    ensures
        i <= scan_spaces(s, i, e) <= e,
        i <= scan_multispace(s, i, e) <= e,
        i <= scan_digits(s, i, e) <= e,
        i <= scan_alpha(s, i, e) <= e,
        i <= scan_name(s, i, e) <= e,
        i <= scan_line(s, i, e) <= e,
    decreases e - i,
{
    if i < e {
        lemma_scan_bounds(s, i + 1, e);
    }
}

pub proof fn lemma_digits_value_grows(s: Seq<u8>, i: int, k: int, j: int)
    requires
        i <= k <= j,
        forall|t: int| i <= t < j ==> is_digit(#[trigger] s[t]),
    ensures
        digits_value(s, i, k) <= digits_value(s, i, j),
    decreases j - k,
{
    if k < j {
        lemma_digits_value_grows(s, i, k, j - 1);
    }
}

proof fn lemma_scan_digits_all(s: Seq<u8>, i: int, e: int)
    requires
        0 <= i <= e <= s.len(),
    ensures
        forall|t: int| i <= t < scan_digits(s, i, e) ==> is_digit(#[trigger] s[t]),
    decreases e - i,
{
    if i < e && is_digit(s[i]) {
        lemma_scan_digits_all(s, i + 1, e);
    }
}

pub fn skip_spaces(s: &[u8], i: usize, e: usize) -> (j: usize)
    requires
        i <= e <= s@.len(),
    ensures
        j == scan_spaces(s@, i as int, e as int),
        i <= j <= e,
{
    let mut j = i;
    while j < e && (s[j] == 32 || s[j] == 9)
        invariant
            i <= j <= e <= s@.len(),
            scan_spaces(s@, j as int, e as int) == scan_spaces(s@, i as int, e as int),
        decreases e - j,
    {
        j = j + 1;
    }
    j
}

pub fn skip_multispace(s: &[u8], i: usize, e: usize) -> (j: usize)
    requires
        i <= e <= s@.len(),
    ensures
        j == scan_multispace(s@, i as int, e as int),
        i <= j <= e,
{
    let mut j = i;
    while j < e && (s[j] == 32 || s[j] == 9 || s[j] == 10 || s[j] == 13)
        invariant
            i <= j <= e <= s@.len(),
            scan_multispace(s@, j as int, e as int) == scan_multispace(s@, i as int, e as int),
        decreases e - j,
    {
        j = j + 1;
    }
    j
}

pub fn skip_digits(s: &[u8], i: usize, e: usize) -> (j: usize)
    requires
        i <= e <= s@.len(),
    ensures
        j == scan_digits(s@, i as int, e as int),
        i <= j <= e,
{
    let mut j = i;
    while j < e && 48 <= s[j] && s[j] <= 57
        invariant
            i <= j <= e <= s@.len(),
            scan_digits(s@, j as int, e as int) == scan_digits(s@, i as int, e as int),
        decreases e - j,
    {
        j = j + 1;
    }
    j
}

pub fn skip_alpha(s: &[u8], i: usize, e: usize) -> (j: usize)
    requires
        i <= e <= s@.len(),
    ensures
        j == scan_alpha(s@, i as int, e as int),
        i <= j <= e,
        forall|k: int| i <= k < j ==> is_alpha(#[trigger] s@[k]),
{
    let mut j = i;
    while j < e && ((65 <= s[j] && s[j] <= 90) || (97 <= s[j] && s[j] <= 122))
        invariant
            i <= j <= e <= s@.len(),
            scan_alpha(s@, j as int, e as int) == scan_alpha(s@, i as int, e as int),
            forall|k: int| i <= k < j ==> is_alpha(#[trigger] s@[k]),
        decreases e - j,
    {
        j = j + 1;
    }
    j
}

pub fn skip_name(s: &[u8], i: usize, e: usize) -> (j: usize)
    requires
        i <= e <= s@.len(),
    ensures
        j == scan_name(s@, i as int, e as int),
        i <= j <= e,
{
    let mut j = i;
    while j < e && ((65 <= s[j] && s[j] <= 90) || (97 <= s[j] && s[j] <= 122) || (48 <= s[j]
        && s[j] <= 57) || s[j] == 95 || s[j] == 45 || s[j] == 46 || s[j] == 128)
        invariant
            i <= j <= e <= s@.len(),
            scan_name(s@, j as int, e as int) == scan_name(s@, i as int, e as int),
        decreases e - j,
    {
        j = j + 1;
    }
    j
}

pub fn skip_line(s: &[u8], i: usize, e: usize) -> (j: usize)
    requires
        i <= e <= s@.len(),
    ensures
        j == scan_line(s@, i as int, e as int),
        i <= j <= e,
{
    let mut j = i;
    while j < e && s[j] != 10 && s[j] != 129
        invariant
            i <= j <= e <= s@.len(),
            scan_line(s@, j as int, e as int) == scan_line(s@, i as int, e as int),
        decreases e - j,
    {
        j = j + 1;
    }
    j
}

/// The position after the ASCII text `t` when it stands at `i`, before `e`.
pub fn tag(s: &[u8], i: usize, e: usize, t: &str) -> (res: Option<usize>)
    requires
        i <= e <= s@.len(),
        vstd::string::is_ascii(t),
    ensures
        res == if has_tag(s@, i as int, e as int, text(t@)) {
            Some((i + t@.len()) as usize)
        } else {
            None::<usize>
        },
{
    let tb = t.as_bytes();
    proof {
        vstd::string::is_ascii_spec_bytes(t);
        assert(tb@ =~= text(t@));
    }
    let n = tb.len();
    if n > e - i {
        return None;
    }
    let mut k: usize = 0;
    while k < n
        invariant
            k <= n,
            n == tb@.len(),
            tb@ == text(t@),
            i + n <= e <= s@.len(),
            forall|q: int| 0 <= q < k ==> s@[i + q] == tb@[q],
        decreases n - k,
    {
        if s[i + k] != tb[k] {
            proof {
                assert(s@.subrange(i as int, i + n)[k as int] != tb@[k as int]);
            }
            return None;
        }
        k = k + 1;
    }
    proof {
        assert(s@.subrange(i as int, i + n) =~= tb@);
    }
    Some(i + n)
}

/// A run of digits at `i`: its value if it fits in 64 bits, and its end.
pub fn read_number(s: &[u8], i: usize, e: usize) -> (res: Option<(Option<u64>, usize)>)
    requires
        i <= e <= s@.len(),
    ensures
        match number(s@, i as int, e as int) {
            None => res is None,
            Some((v, j)) => res matches Some((w, k)) && k == j && w == if v <= u64::MAX {
                Some(v as u64)
            } else {
                None::<u64>
            },
        },
        res matches Some((_, k)) ==> i < k <= e,
{
    let j = skip_digits(s, i, e);
    if j == i {
        return None;
    }
    proof {
        lemma_scan_digits_all(s@, i as int, e as int);
    }
    let mut acc: u64 = 0;
    let mut k = i;
    while k < j
        invariant
            i <= k <= j <= e <= s@.len(),
            j == scan_digits(s@, i as int, e as int),
            forall|t: int| i <= t < j ==> is_digit(#[trigger] s@[t]),
            acc == digits_value(s@, i as int, k as int),
        decreases j - k,
    {
        let d = (s[k] - 48) as u64;
        if acc > (u64::MAX - d) / 10 {
            proof {
                assert(digits_value(s@, i as int, k + 1) == acc * 10 + d);
                assert(acc * 10 + d > u64::MAX) by (nonlinear_arith)
                    requires
                        acc > (u64::MAX - d) / 10,
                        d <= 9,
                ;
                lemma_digits_value_grows(s@, i as int, k + 1, j as int);
            }
            return Some((None, j));
        }
        proof {
            assert(acc * 10 + d <= u64::MAX) by (nonlinear_arith)
                requires
                    acc <= (u64::MAX - d) / 10,
                    d <= 9,
            ;
        }
        acc = acc * 10 + d;
        k = k + 1;
    }
    Some((Some(acc), j))
}


/// `s` holds the codes of the characters `src`.
pub open spec fn source(src: &[char], s: Seq<u8>) -> bool {
    s == codes(src@)
}

/// Letters read back from their codes are the characters they stand for.
pub proof fn lemma_letters(src: Seq<char>, s: Seq<u8>, a: int, b: int)
    requires
        s == codes(src),
        0 <= a <= b <= s.len(),
        forall|k: int| a <= k < b ==> is_alpha(#[trigger] s[k]),
    ensures
        chars_of(s.subrange(a, b)) == src.subrange(a, b),
{
    assert forall|k: int| 0 <= k < b - a implies #[trigger] chars_of(s.subrange(a, b))[k]
        == src.subrange(a, b)[k] by {
        let c = src[a + k];
        let v = c as u32;
        assert(s[a + k] == code_of(c));
        assert(v < 128);
        assert(s[a + k] == v as u8);
        vstd::utf8::char_u32_cast(c, v);
        assert(v as char == c);
        assert((v as u8) as char == c);
    }
    assert(chars_of(s.subrange(a, b)) =~= src.subrange(a, b));
}

/// `String::push`: appends the character `c` to `out`.
#[verifier::external_body]
fn push_char(out: &mut String, c: char)
    ensures
        final(out)@ == old(out)@.push(c),
{
    out.push(c);
}

/// The characters `src` from `a` to `b`, as a string.
pub fn slice_text(src: &[char], a: usize, b: usize) -> (res: String)
    requires
        a <= b <= src@.len(),
    ensures
        res@ == src@.subrange(a as int, b as int),
{
    let mut out = String::new();
    let mut k = a;
    while k < b
        invariant
            a <= k <= b <= src@.len(),
            out@ == src@.subrange(a as int, k as int),
        decreases b - k,
    {
        push_char(&mut out, src[k]);
        k = k + 1;
        proof {
            assert(out@ =~= src@.subrange(a as int, k as int));
        }
    }
    out
}

} // verus!

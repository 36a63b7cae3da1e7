use vstd::prelude::*;
use vstd::std_specs::iter::IteratorSpec;
use vstd::string::*;

verus! {

broadcast use vstd::string::group_string_axioms;

// ---------------------------------------------------------------------------
// Characters of a text
// ---------------------------------------------------------------------------

/// The characters of `s`, in order.
pub fn chars_of(s: &str) -> (v: Vec<char>)
    ensures
        v@ == s@,
{
    let mut v: Vec<char> = Vec::new();
    for c in it: s.chars()
        invariant
            v@ == it.seq().take(it.index()),
    {
        v.push(c);
    }
    v
}

/// Appends one character to a string (`String::push`).
#[verifier::external_body]
pub(crate) fn push_char(s: &mut String, c: char)
    ensures
        final(s)@ == old(s)@.push(c),
{
    s.push(c);
}

/// A string holding the given characters.
pub fn string_of(chars: &[char]) -> (s: String)
    ensures
        s@ == chars@,
{
    let mut s = String::new();
    let n = chars.len();
    let mut i: usize = 0;
    while i < n
        invariant
            n == chars@.len(),
            i <= n,
            s@ == chars@.take(i as int),
        decreases n - i,
    {
        push_char(&mut s, chars[i]);
        assert(chars@.take(i + 1) =~= chars@.take(i as int).push(chars@[i as int]));
        i += 1;
    }
    assert(chars@.take(n as int) =~= chars@);
    s
}

/// Whether two texts hold the same characters.
pub fn same_text(a: &str, b: &str) -> (r: bool)
    ensures
        r == (a@ == b@),
{
    let x = chars_of(a);
    let y = chars_of(b);
    if x.len() != y.len() {
        return false;
    }
    let n = x.len();
    let mut i: usize = 0;
    while i < n
        invariant
            x@ == a@,
            y@ == b@,
            n == x@.len(),
            n == y@.len(),
            i <= n,
            forall|k: int| 0 <= k < i ==> x@[k] == y@[k],
        decreases n - i,
    {
        let c = x[i];
        let d = y[i];
        if c != d {
            assert(x@[i as int] != y@[i as int]);
            return false;
        }
        i += 1;
    }
    assert(x@ =~= y@);
    true
}

// ---------------------------------------------------------------------------
// White space and trimming
// ---------------------------------------------------------------------------

/// The characters with the Unicode property `White_Space`, the ones that
/// `str::trim` removes.
pub open spec fn is_white_space(c: char) -> bool {
    let n = c as u32;
    ||| 0x9 <= n <= 0xd
    ||| n == 0x20
    ||| n == 0x85
    ||| n == 0xa0
    ||| n == 0x1680
    ||| 0x2000 <= n <= 0x200a
    ||| n == 0x2028
    ||| n == 0x2029
    ||| n == 0x202f
    ||| n == 0x205f
    ||| n == 0x3000
}

/// Whether `c` is a white-space character.
pub fn white_space(c: char) -> (r: bool)
    ensures
        r == is_white_space(c),
{
    let n = c as u32;
    (0x9 <= n && n <= 0xd) || n == 0x20 || n == 0x85 || n == 0xa0 || n == 0x1680 || (0x2000 <= n
        && n <= 0x200a) || n == 0x2028 || n == 0x2029 || n == 0x202f || n == 0x205f || n == 0x3000
}

/// `s` without its leading white space.
pub open spec fn skip_leading_ws(s: Seq<char>) -> Seq<char>
    decreases s.len(),
{
    if s.len() > 0 && is_white_space(s[0]) {
        skip_leading_ws(s.drop_first())
    } else {
        s
    }
}

/// `s` without its trailing white space.
pub open spec fn skip_trailing_ws(s: Seq<char>) -> Seq<char>
    decreases s.len(),
{
    if s.len() > 0 && is_white_space(s.last()) {
        skip_trailing_ws(s.drop_last())
    } else {
        s
    }
}

/// `s` with leading and trailing white space removed.
pub open spec fn trimmed(s: Seq<char>) -> Seq<char> {
    skip_trailing_ws(skip_leading_ws(s))
}

/// Whether `s` holds nothing but white space.
pub open spec fn is_blank(s: Seq<char>) -> bool {
    trimmed(s).len() == 0
}

proof fn lemma_skip_leading(s: Seq<char>, i: int)
    requires
        0 <= i <= s.len(),
        forall|k: int| 0 <= k < i ==> is_white_space(#[trigger] s[k]),
        i == s.len() || !is_white_space(s[i]),
    ensures
        skip_leading_ws(s) == s.subrange(i, s.len() as int),
    decreases i,
{
    if i == 0 {
        assert(s.subrange(0, s.len() as int) =~= s);
    } else {
        let t = s.drop_first();
        assert(is_white_space(s[0]));
        assert forall|k: int| 0 <= k < i - 1 implies is_white_space(#[trigger] t[k]) by {
            assert(t[k] == s[k + 1]);
        }
        lemma_skip_leading(t, i - 1);
        assert(t.subrange(i - 1, t.len() as int) =~= s.subrange(i, s.len() as int));
    }
}

proof fn lemma_skip_trailing(s: Seq<char>, j: int)
    requires
        0 <= j <= s.len(),
        forall|k: int| j <= k < s.len() ==> is_white_space(#[trigger] s[k]),
        j == 0 || !is_white_space(s[j - 1]),
    ensures
        skip_trailing_ws(s) == s.subrange(0, j),
    decreases s.len() - j,
{
    if j == s.len() {
        assert(s.subrange(0, j) =~= s);
    } else {
        let t = s.drop_last();
        assert(is_white_space(s[s.len() - 1]));
        lemma_skip_trailing(t, j);
        assert(t.subrange(0, j) =~= s.subrange(0, j));
    }
}

/// Where the trimmed part of `s` starts and ends.
pub fn trim_bounds(s: &Vec<char>) -> (r: (usize, usize))
    ensures
        r.0 <= r.1 <= s@.len(),
        trimmed(s@) == s@.subrange(r.0 as int, r.1 as int),
{
    let n = s.len();
    let mut i: usize = 0;
    while i < n && white_space(s[i])
        invariant
            n == s@.len(),
            i <= n,
            forall|k: int| 0 <= k < i ==> is_white_space(#[trigger] s@[k]),
        decreases n - i,
    {
        i += 1;
    }
    let mut j: usize = n;
    while j > i && white_space(s[j - 1])
        invariant
            n == s@.len(),
            i <= j <= n,
            forall|k: int| j <= k < n ==> is_white_space(#[trigger] s@[k]),
        decreases j,
    {
        j -= 1;
    }
    proof {
        lemma_skip_leading(s@, i as int);
        let t = s@.subrange(i as int, n as int);
        assert forall|k: int| j - i <= k < t.len() implies is_white_space(#[trigger] t[k]) by {
            assert(t[k] == s@[k + i]);
        }
        if j > i {
            assert(t[j - i - 1] == s@[j - 1]);
        }
        lemma_skip_trailing(t, j - i);
        assert(t.subrange(0, j - i) =~= s@.subrange(i as int, j as int));
    }
    (i, j)
}

/// `s` with leading and trailing white space removed (`str::trim`).
pub fn trim_text(s: &str) -> (r: String)
    ensures
        r@ == trimmed(s@),
{
    let chars = chars_of(s);
    let (i, j) = trim_bounds(&chars);
    let part = s.substring_char(i, j);
    part.to_owned()
}

/// Whether `s` holds nothing but white space (`s.trim().is_empty()`).
pub fn blank(s: &str) -> (r: bool)
    ensures
        r == is_blank(s@),
{
    let chars = chars_of(s);
    let (i, j) = trim_bounds(&chars);
    i == j
}

proof fn lemma_skip_leading_front(s: Seq<char>)
    ensures
        skip_leading_ws(s).len() == 0 || !is_white_space(skip_leading_ws(s)[0]),
    decreases s.len(),
{
    if s.len() > 0 && is_white_space(s[0]) {
        lemma_skip_leading_front(s.drop_first());
    }
}

proof fn lemma_skip_trailing_prefix(s: Seq<char>)
    ensures
        skip_trailing_ws(s).len() <= s.len(),
        skip_trailing_ws(s) == s.subrange(0, skip_trailing_ws(s).len() as int),
        skip_trailing_ws(s).len() == 0 || !is_white_space(skip_trailing_ws(s).last()),
    decreases s.len(),
{
    if s.len() > 0 && is_white_space(s.last()) {
        lemma_skip_trailing_prefix(s.drop_last());
        let r = skip_trailing_ws(s.drop_last());
        assert(s.drop_last().subrange(0, r.len() as int) =~= s.subrange(0, r.len() as int));
    } else {
        assert(s.subrange(0, s.len() as int) =~= s);
    }
}

/// A trimmed text starts and ends with a character that is not white space.
pub proof fn lemma_trimmed_ends(s: Seq<char>)
    ensures
        trimmed(s).len() > 0 ==> !is_white_space(trimmed(s)[0]) && !is_white_space(
            trimmed(s).last(),
        ),
{
    lemma_skip_leading_front(s);
    lemma_skip_trailing_prefix(skip_leading_ws(s));
    let u = skip_leading_ws(s);
    let t = trimmed(s);
    if t.len() > 0 {
        assert(t[0] == u[0]);
    }
}

proof fn lemma_skip_leading_suffix(s: Seq<char>) -> (m: int)
    ensures
        0 <= m <= s.len(),
        skip_leading_ws(s) == s.subrange(m, s.len() as int),
        forall|j: int| 0 <= j < m ==> is_white_space(#[trigger] s[j]),
    decreases s.len(),
{
    if s.len() > 0 && is_white_space(s[0]) {
        let t = s.drop_first();
        let m1 = lemma_skip_leading_suffix(t);
        assert(t.subrange(m1, t.len() as int) =~= s.subrange(m1 + 1, s.len() as int));
        assert forall|j: int| 0 <= j < m1 + 1 implies is_white_space(#[trigger] s[j]) by {
            if j > 0 {
                assert(s[j] == t[j - 1]);
            }
        }
        m1 + 1
    } else {
        assert(s.subrange(0, s.len() as int) =~= s);
        0
    }
}

proof fn lemma_skip_trailing_empty(s: Seq<char>)
    requires
        skip_trailing_ws(s).len() == 0,
    ensures
        forall|k: int| 0 <= k < s.len() ==> is_white_space(#[trigger] s[k]),
    decreases s.len(),
{
    if s.len() > 0 {
        let t = s.drop_last();
        lemma_skip_trailing_empty(t);
        assert forall|k: int| 0 <= k < s.len() implies is_white_space(#[trigger] s[k]) by {
            if k < s.len() - 1 {
                assert(s[k] == t[k]);
            }
        }
    }
}

/// A text with a character that is not white space is not blank.
pub proof fn lemma_not_blank(s: Seq<char>, k: int)
    requires
        0 <= k < s.len(),
        !is_white_space(s[k]),
    ensures
        !is_blank(s),
{
    let m = lemma_skip_leading_suffix(s);
    let u = skip_leading_ws(s);
    if trimmed(s).len() == 0 {
        lemma_skip_trailing_empty(u);
        if k >= m {
            assert(u[k - m] == s[k]);
        }
    }
}

/// Trimming a trimmed text changes nothing.
pub proof fn lemma_trim_idempotent(s: Seq<char>)
    ensures
        trimmed(trimmed(s)) == trimmed(s),
{
    lemma_trimmed_ends(s);
    let t = trimmed(s);
    assert(skip_leading_ws(t) == t);
    assert(skip_trailing_ws(t) == t);
}

// ---------------------------------------------------------------------------
// Order of texts
// ---------------------------------------------------------------------------

/// Lexicographic order of character sequences, a proper prefix coming first.
/// UTF-8 keeps the order of code points, so on texts this is the order that
/// Rust's `str` comparison gives, which compares the encoded bytes.
pub open spec fn lex_less(a: Seq<char>, b: Seq<char>) -> bool
    decreases a.len(),
{
    if a.len() == 0 || b.len() == 0 {
        a.len() == 0 && b.len() > 0
    } else if a[0] != b[0] {
        (a[0] as int) < (b[0] as int)
    } else {
        lex_less(a.drop_first(), b.drop_first())
    }
}

/// No text comes before itself.
pub proof fn lemma_lex_irreflexive(a: Seq<char>)
    ensures
        !lex_less(a, a),
    decreases a.len(),
{
    if a.len() > 0 {
        lemma_lex_irreflexive(a.drop_first());
    }
}

/// Of two different texts, exactly one comes first.
pub proof fn lemma_lex_total(a: Seq<char>, b: Seq<char>)
    ensures
        a == b || lex_less(a, b) || lex_less(b, a),
        !(lex_less(a, b) && lex_less(b, a)),
    decreases a.len(),
{
    if a.len() > 0 && b.len() > 0 && a[0] == b[0] {
        lemma_lex_total(a.drop_first(), b.drop_first());
        if a.drop_first() == b.drop_first() {
            assert forall|k: int| 0 <= k < a.len() implies a[k] == b[k] by {
                if k > 0 {
                    assert(a[k] == a.drop_first()[k - 1]);
                    assert(b[k] == b.drop_first()[k - 1]);
                }
            }
            assert(a =~= b);
        }
    } else if a.len() == 0 && b.len() == 0 {
        assert(a =~= b);
    }
}

/// The order of texts is transitive.
pub proof fn lemma_lex_transitive(a: Seq<char>, b: Seq<char>, c: Seq<char>)
    requires
        lex_less(a, b),
        lex_less(b, c),
    ensures
        lex_less(a, c),
    decreases a.len(),
{
    if a.len() > 0 && a[0] == b[0] && b[0] == c[0] {
        lemma_lex_transitive(a.drop_first(), b.drop_first(), c.drop_first());
    }
}

/// Where `a` first differs from a text of its length that it comes before.
pub proof fn lemma_lex_less_witness(a: Seq<char>, b: Seq<char>) -> (i: int)
    requires
        lex_less(a, b),
        a.len() == b.len(),
    ensures
        0 <= i < a.len(),
        (a[i] as int) < (b[i] as int),
        forall|j: int| 0 <= j < i ==> a[j] == b[j],
    decreases a.len(),
{
    if a[0] != b[0] {
        0
    } else {
        let i1 = lemma_lex_less_witness(a.drop_first(), b.drop_first());
        assert forall|j: int| 0 <= j < i1 + 1 implies a[j] == b[j] by {
            if j > 0 {
                assert(a[j] == a.drop_first()[j - 1]);
                assert(b[j] == b.drop_first()[j - 1]);
            }
        }
        assert(a[i1 + 1] == a.drop_first()[i1]);
        assert(b[i1 + 1] == b.drop_first()[i1]);
        i1 + 1
    }
}

/// Whether `a` comes before `b` in the order of their characters.
pub fn chars_less(a: &Vec<char>, b: &Vec<char>) -> (r: bool)
    ensures
        r == lex_less(a@, b@),
{
    let mut i: usize = 0;
    assert(a@.skip(0) =~= a@);
    assert(b@.skip(0) =~= b@);
    while i < a.len() && i < b.len()
        invariant
            i <= a@.len(),
            i <= b@.len(),
            lex_less(a@, b@) == lex_less(a@.skip(i as int), b@.skip(i as int)),
        decreases a@.len() - i,
    {
        let c = a[i];
        let d = b[i];
        if c != d {
            assert(a@.skip(i as int)[0] == c);
            assert(b@.skip(i as int)[0] == d);
            return c < d;
        }
        assert(a@.skip(i as int).drop_first() =~= a@.skip(i + 1));
        assert(b@.skip(i as int).drop_first() =~= b@.skip(i + 1));
        i += 1;
    }
    i == a.len() && i < b.len()
}

/// Whether text `a` comes before text `b`.
pub fn text_less(a: &str, b: &str) -> (r: bool)
    ensures
        r == lex_less(a@, b@),
{
    let x = chars_of(a);
    let y = chars_of(b);
    chars_less(&x, &y)
}

// ---------------------------------------------------------------------------
// Numbers written out
// ---------------------------------------------------------------------------

/// The digit character for `d`: `0`–`9`, then `a`–`f`.
pub open spec fn digit_char(d: nat) -> char {
    if d < 10 {
        (48 + d) as char
    } else {
        (87 + d) as char
    }
}

/// `n` in decimal, without leading zeros.
pub open spec fn decimal_digits(n: nat) -> Seq<char>
    decreases n,
{
    if n < 10 {
        seq![digit_char(n)]
    } else {
        decimal_digits(n / 10).push(digit_char(n % 10))
    }
}

/// `n` in lowercase hexadecimal, without leading zeros.
pub open spec fn hex_digits(n: nat) -> Seq<char>
    decreases n,
{
    if n < 16 {
        seq![digit_char(n)]
    } else {
        hex_digits(n / 16).push(digit_char(n % 16))
    }
}

/// Different digits have different characters.
pub proof fn lemma_digit_char_injective(a: nat, b: nat)
    requires
        a < 16,
        b < 16,
        digit_char(a) == digit_char(b),
    ensures
        a == b,
{
    let ca = digit_char(a) as int;
    let cb = digit_char(b) as int;
    assert(ca == if a < 10 { 48 + a } else { 87 + a });
    assert(cb == if b < 10 { 48 + b } else { 87 + b });
}

proof fn lemma_hex_digits_len(n: nat)
    ensures
        hex_digits(n).len() >= 1,
        n >= 16 ==> hex_digits(n).len() >= 2,
    decreases n,
{
    if n >= 16 {
        lemma_hex_digits_len(n / 16);
    }
}

/// Different numbers are written differently in hexadecimal.
pub proof fn lemma_hex_digits_injective(a: nat, b: nat)
    requires
        hex_digits(a) == hex_digits(b),
    ensures
        a == b,
    decreases a,
{
    lemma_hex_digits_len(a);
    lemma_hex_digits_len(b);
    if a < 16 && b < 16 {
        assert(hex_digits(a)[0] == digit_char(a));
        assert(hex_digits(b)[0] == digit_char(b));
        lemma_digit_char_injective(a, b);
    } else if a >= 16 && b >= 16 {
        assert(hex_digits(a).drop_last() =~= hex_digits(a / 16));
        assert(hex_digits(b).drop_last() =~= hex_digits(b / 16));
        lemma_hex_digits_injective(a / 16, b / 16);
        assert(hex_digits(a).last() == digit_char(a % 16));
        assert(hex_digits(b).last() == digit_char(b % 16));
        lemma_digit_char_injective(a % 16, b % 16);
    }
}

fn digit(d: u8) -> (c: char)
    requires
        d < 16,
    ensures
        c == digit_char(d as nat),
{
    if d < 10 {
        (48 + d) as char
    } else {
        (87 + d) as char
    }
}

/// Appends `n` in decimal.
pub fn push_decimal(s: &mut String, n: u64)
    ensures
        final(s)@ == old(s)@ + decimal_digits(n as nat),
    decreases n,
{
    if n >= 10 {
        push_decimal(s, n / 10);
    }
    let d = (n % 10) as u8;
    push_char(s, digit(d));
    assert(final(s)@ =~= old(s)@ + decimal_digits(n as nat));
}

/// Appends `n` in lowercase hexadecimal.
pub fn push_hex(s: &mut String, n: u128)
    ensures
        final(s)@ == old(s)@ + hex_digits(n as nat),
    decreases n,
{
    if n >= 16 {
        push_hex(s, n / 16);
    }
    let d = (n % 16) as u8;
    push_char(s, digit(d));
    assert(final(s)@ =~= old(s)@ + hex_digits(n as nat));
}

} // verus!

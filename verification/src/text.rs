//! Small verified text utilities: ASCII-whitespace tokenization, suffix
//! tests, lexicographic order on character sequences, and decimal rendering.
//! The command-template grammar, the testcase pairing and the staging plan
//! are all stated over these.

use vstd::prelude::*;

verus! {

/// The ASCII whitespace characters, as `char::is_ascii_whitespace` knows
/// them: space, tab, line feed, form feed, carriage return.
pub open spec fn is_ascii_ws(c: char) -> bool {
    c == ' ' || c == '\t' || c == '\n' || c == '\u{c}' || c == '\r'
}

/// Runtime test for ASCII whitespace.
pub fn char_is_ascii_ws(c: char) -> (r: bool)
    ensures
        r == is_ascii_ws(c),
{
    c == ' ' || c == '\t' || c == '\n' || c == '\u{c}' || c == '\r'
}

/// Splitting on ASCII whitespace, walking `s` from position `i` with the
/// partial token `cur` in hand: whitespace ends the token, everything else
/// extends it, and the end of the text flushes it.
pub open spec fn split_ws_acc(s: Seq<char>, i: int, cur: Seq<char>) -> Seq<Seq<char>>
    decreases s.len() - i,
{
    if i < 0 || i >= s.len() {
        if cur.len() > 0 {
            seq![cur]
        } else {
            seq![]
        }
    } else if is_ascii_ws(s[i]) {
        if cur.len() > 0 {
            seq![cur] + split_ws_acc(s, i + 1, seq![])
        } else {
            split_ws_acc(s, i + 1, seq![])
        }
    } else {
        split_ws_acc(s, i + 1, cur.push(s[i]))
    }
}

/// The ASCII-whitespace tokens of `s`, in order.
pub open spec fn split_ws(s: Seq<char>) -> Seq<Seq<char>> {
    split_ws_acc(s, 0, seq![])
}

/// Split a string on ASCII whitespace into its tokens.
pub fn split_ascii_ws(s: &str) -> (r: Vec<String>)
    ensures
        r.deep_view() == split_ws(s@),
{
    let n: usize = s.unicode_len();
    let mut r: Vec<String> = Vec::new();
    let mut i: usize = 0;
    while i < n
        invariant
            i <= n,
            n == s@.len(),
            r.deep_view() + split_ws_acc(s@, i as int, seq![]) == split_ws(s@),
        decreases n - i,
    {
        if char_is_ascii_ws(s.get_char(i)) {
            i = i + 1;
        } else {
            let start: usize = i;
            while i < n && !char_is_ascii_ws(s.get_char(i))
                invariant
                    start <= i <= n,
                    n == s@.len(),
                    forall|j: int| start <= j < i ==> !is_ascii_ws(s@[j]),
                    !is_ascii_ws(s@[start as int]),
                decreases n - i,
            {
                i = i + 1;
            }
            let token: String = s.substring_char(start, i).to_owned();
            proof {
                lemma_split_ws_acc_token(s@, start as int, i as int);
            }
            r.push(token);
        }
    }
    assert(r.deep_view() + split_ws_acc(s@, n as int, seq![]) =~= r.deep_view());
    r
}

/// Walking over a maximal non-whitespace run `[start, end)` flushes exactly
/// that run as the next token.
proof fn lemma_split_ws_acc_token(s: Seq<char>, start: int, end: int)
    requires
        0 <= start < end <= s.len(),
        forall|j: int| start <= j < end ==> !is_ascii_ws(s[j]),
        end == s.len() || is_ascii_ws(s[end]),
    ensures
        split_ws_acc(s, start, seq![]) == seq![s.subrange(start, end)] + split_ws_acc(
            s,
            end,
            seq![],
        ),
{
    assert(s.subrange(start, start) =~= Seq::<char>::empty());
    lemma_split_ws_acc_run(s, start, start, end);
}

/// Generalization of `lemma_split_ws_acc_token` over the partial token
/// already in hand.
proof fn lemma_split_ws_acc_run(s: Seq<char>, start: int, i: int, end: int)
    requires
        0 <= start <= i <= end <= s.len(),
        start < end,
        forall|j: int| start <= j < end ==> !is_ascii_ws(s[j]),
        end == s.len() || is_ascii_ws(s[end]),
    ensures
        split_ws_acc(s, i, s.subrange(start, i)) == seq![s.subrange(start, end)] + split_ws_acc(
            s,
            end,
            seq![],
        ),
    decreases end - i,
{
    if i == end {
        if end == s.len() {
            assert(split_ws_acc(s, i, s.subrange(start, i)) =~= seq![s.subrange(start, end)]
                + split_ws_acc(s, end, seq![]));
        } else {
            assert(split_ws_acc(s, end, s.subrange(start, end)) == seq![s.subrange(start, end)]
                + split_ws_acc(s, end + 1, seq![]));
            assert(split_ws_acc(s, end, seq![]) == split_ws_acc(s, end + 1, seq![]));
        }
    } else {
        assert(s.subrange(start, i).push(s[i]) =~= s.subrange(start, i + 1));
        lemma_split_ws_acc_run(s, start, i + 1, end);
    }
}

/// Runtime equality of two string slices.
pub fn str_eq(a: &str, b: &str) -> (r: bool)
    ensures
        r == (a@ == b@),
{
    let na: usize = a.unicode_len();
    let nb: usize = b.unicode_len();
    if na != nb {
        assert(a@ =~= b@ ==> a@.len() == b@.len());
        return false;
    }
    let mut i: usize = 0;
    while i < na
        invariant
            i <= na,
            na == a@.len(),
            na == b@.len(),
            forall|j: int| 0 <= j < i ==> a@[j] == b@[j],
        decreases na - i,
    {
        if a.get_char(i) != b.get_char(i) {
            assert(a@ != b@);
            return false;
        }
        i = i + 1;
    }
    assert(a@ =~= b@);
    true
}

/// Whether `s` ends with `suffix`.
pub open spec fn has_suffix(s: Seq<char>, suffix: Seq<char>) -> bool {
    s.len() >= suffix.len() && s.subrange(s.len() - suffix.len(), s.len() as int) == suffix
}

/// Runtime suffix test.
pub fn ends_with_str(s: &str, suffix: &str) -> (r: bool)
    ensures
        r == has_suffix(s@, suffix@),
{
    let n: usize = s.unicode_len();
    let m: usize = suffix.unicode_len();
    if n < m {
        return false;
    }
    let tail = s.substring_char(n - m, n);
    str_eq(tail, suffix)
}

/// Lexicographic order on character sequences, by Unicode scalar value.
/// For UTF-8 encoded names this coincides with byte-wise order.
pub open spec fn lex_le(a: Seq<char>, b: Seq<char>) -> bool
    decreases a.len(),
{
    if a.len() == 0 {
        true
    } else if b.len() == 0 {
        false
    } else if (a[0] as u32) < (b[0] as u32) {
        true
    } else if (a[0] as u32) > (b[0] as u32) {
        false
    } else {
        lex_le(a.skip(1), b.skip(1))
    }
}

/// Strict lexicographic order.
pub open spec fn lex_lt(a: Seq<char>, b: Seq<char>) -> bool {
    lex_le(a, b) && a != b
}

/// Casting a `char` to its scalar value is injective.
pub proof fn lemma_char_cast_injective(x: char, y: char)
    ensures
        (x as u32 == y as u32) <==> x == y,
{
    vstd::utf8::char_u32_cast(x, x as u32);
    vstd::utf8::char_u32_cast(y, y as u32);
}

/// `lex_le` is total: any two sequences are comparable.
pub proof fn lemma_lex_le_total(a: Seq<char>, b: Seq<char>)
    ensures
        lex_le(a, b) || lex_le(b, a),
    decreases a.len(),
{
    if a.len() > 0 && b.len() > 0 {
        lemma_char_cast_injective(a[0], b[0]);
        if a[0] == b[0] {
            lemma_lex_le_total(a.skip(1), b.skip(1));
        }
    }
}

/// `lex_le` is antisymmetric: mutual order means equality.
pub proof fn lemma_lex_le_antisymmetric(a: Seq<char>, b: Seq<char>)
    requires
        lex_le(a, b),
        lex_le(b, a),
    ensures
        a == b,
    decreases a.len(),
{
    if a.len() == 0 {
        assert(b.len() == 0);
        assert(a =~= b);
    } else {
        assert(b.len() > 0);
        lemma_char_cast_injective(a[0], b[0]);
        assert(a[0] == b[0]);
        lemma_lex_le_antisymmetric(a.skip(1), b.skip(1));
        assert(a =~= seq![a[0]] + a.skip(1));
        assert(b =~= seq![b[0]] + b.skip(1));
    }
}

/// `lex_le` is transitive.
pub proof fn lemma_lex_le_transitive(a: Seq<char>, b: Seq<char>, c: Seq<char>)
    requires
        lex_le(a, b),
        lex_le(b, c),
    ensures
        lex_le(a, c),
    decreases a.len(),
{
    if a.len() > 0 && b.len() > 0 && c.len() > 0 {
        lemma_char_cast_injective(a[0], b[0]);
        lemma_char_cast_injective(b[0], c[0]);
        lemma_char_cast_injective(a[0], c[0]);
        if a[0] == b[0] && b[0] == c[0] {
            lemma_lex_le_transitive(a.skip(1), b.skip(1), c.skip(1));
        }
    }
}

/// When two sequences agree on their first `i` characters, their order is
/// decided by the rest.
pub proof fn lemma_lex_le_skip(a: Seq<char>, b: Seq<char>, i: int)
    requires
        0 <= i <= a.len(),
        i <= b.len(),
        forall|j: int| 0 <= j < i ==> a[j] == b[j],
    ensures
        lex_le(a, b) == lex_le(a.skip(i), b.skip(i)),
    decreases i,
{
    if i > 0 {
        assert(a.len() > 0 && b.len() > 0 && a[0] == b[0]);
        lemma_char_cast_injective(a[0], b[0]);
        assert(forall|j: int| 0 <= j < i - 1 ==> a.skip(1)[j] == #[trigger] b.skip(1)[j]);
        lemma_lex_le_skip(a.skip(1), b.skip(1), i - 1);
        assert(a.skip(1).skip(i - 1) =~= a.skip(i));
        assert(b.skip(1).skip(i - 1) =~= b.skip(i));
    } else {
        assert(a.skip(0) =~= a);
        assert(b.skip(0) =~= b);
    }
}

/// Runtime lexicographic comparison of two string slices.
pub fn str_lex_le(a: &str, b: &str) -> (r: bool)
    ensures
        r == lex_le(a@, b@),
{
    let na: usize = a.unicode_len();
    let nb: usize = b.unicode_len();
    let mut i: usize = 0;
    loop
        invariant
            i <= na,
            i <= nb,
            na == a@.len(),
            nb == b@.len(),
            forall|j: int| 0 <= j < i ==> a@[j] == b@[j],
        decreases na - i,
    {
        proof {
            lemma_lex_le_skip(a@, b@, i as int);
        }
        if i >= na {
            assert(a@.skip(i as int).len() == 0);
            return true;
        }
        if i >= nb {
            assert(b@.skip(i as int).len() == 0 && a@.skip(i as int).len() > 0);
            return false;
        }
        let ca = a.get_char(i);
        let cb = b.get_char(i);
        assert(a@.skip(i as int)[0] == a@[i as int] && b@.skip(i as int)[0] == b@[i as int]);
        if (ca as u32) < (cb as u32) {
            return true;
        }
        if (ca as u32) > (cb as u32) {
            return false;
        }
        assert(ca == cb) by {
            vstd::utf8::char_u32_cast(ca, ca as u32);
            vstd::utf8::char_u32_cast(cb, cb as u32);
        }
        i = i + 1;
    }
}

/// The decimal digits of `n`, most significant first.
pub open spec fn spec_decimal(n: nat) -> Seq<char>
    decreases n,
{
    if n < 10 {
        seq![digit_char(n)]
    } else {
        spec_decimal(n / 10).push(digit_char(n % 10))
    }
}

/// The character for one decimal digit.
pub open spec fn digit_char(d: nat) -> char {
    if d == 0 {
        '0'
    } else if d == 1 {
        '1'
    } else if d == 2 {
        '2'
    } else if d == 3 {
        '3'
    } else if d == 4 {
        '4'
    } else if d == 5 {
        '5'
    } else if d == 6 {
        '6'
    } else if d == 7 {
        '7'
    } else if d == 8 {
        '8'
    } else {
        '9'
    }
}

/// Render an unsigned number in decimal.
///
/// Relies on the `Display` implementation of `u64` in std, which renders
/// exactly the decimal digits, most significant first, with no sign and no
/// leading zeros.
#[verifier::external_body]
pub(crate) fn u64_to_string(n: u64) -> (r: String)
    ensures
        r@ == spec_decimal(n as nat),
{
    format!("{}", n)
}

} // verus!

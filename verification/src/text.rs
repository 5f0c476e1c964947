//! The textual vertex grammar: a semicolon-separated list of vertex groups,
//! each a comma-separated pair of decimal numbers, whitespace around each
//! number ignored.
//!
//! Numbers are signed decimals with up to six fractional digits, read as
//! fixed-point micro-unit values; a token that is not such a decimal, or
//! whose value leaves the coordinate domain, is a malformed number.

use vstd::prelude::*;

verus! {

use crate::num::ABS_MAX;
use crate::num::SCALE;
use crate::poly::Vertex;
use crate::poly::Vertices;
use vstd::string::StrSliceExecFns;

/// Whether the character is blank space around a number token.
pub open spec fn is_space(c: char) -> bool {
    c == ' ' || c == '\t' || c == '\n' || c == '\r'
}

/// Whether the character is a decimal digit.
pub open spec fn is_digit(c: char) -> bool {
    ('0' as u32) <= (c as u32) && (c as u32) <= ('9' as u32)
}

/// The numeric value of a decimal digit.
pub open spec fn digit_val(c: char) -> int {
    (c as u32) - ('0' as u32)
}

/// Whether the sequence is all decimal digits.
pub open spec fn all_digits(s: Seq<char>) -> bool {
    forall|i: int| 0 <= i < s.len() ==> is_digit(#[trigger] s[i])
}

/// The value of a digit sequence read in base ten; zero when empty.
pub open spec fn digits_val(s: Seq<char>) -> int
    decreases s.len(),
{
    if s.len() == 0 {
        0
    } else {
        digits_val(s.drop_last()) * 10 + digit_val(s.last())
    }
}

/// Ten to the `n`th power.
pub open spec fn pow10(n: nat) -> int
    decreases n,
{
    if n == 0 {
        1
    } else {
        10 * pow10((n - 1) as nat)
    }
}

/// The pieces of `s` between occurrences of `sep`: always one piece more
/// than there are separators, so an empty input has one empty piece.
pub open spec fn split_on(s: Seq<char>, sep: char) -> Seq<Seq<char>>
    decreases s.len(),
{
    if s.len() == 0 {
        seq![Seq::<char>::empty()]
    } else {
        let rest = split_on(s.skip(1), sep);
        if s[0] == sep {
            seq![Seq::<char>::empty()] + rest
        } else {
            seq![seq![s[0]] + rest[0]] + rest.skip(1)
        }
    }
}

/// Splitting yields at least one piece.
pub proof fn lemma_split_len(s: Seq<char>, sep: char)
    ensures
        split_on(s, sep).len() >= 1,
    decreases s.len(),
{
    if s.len() > 0 {
        lemma_split_len(s.skip(1), sep);
    }
}

/// A separator-free sequence is one whole piece.
pub proof fn lemma_split_clear(s: Seq<char>, sep: char)
    requires
        forall|j: int| 0 <= j < s.len() ==> s[j] != sep,
    ensures
        split_on(s, sep) =~~= seq![s],
    decreases s.len(),
{
    if s.len() > 0 {
        lemma_split_clear(s.skip(1), sep);
        assert(seq![s[0]] + s.skip(1) =~= s);
    }
}

/// Splitting at the first separator: the piece before it, then the pieces of
/// what follows it.
pub proof fn lemma_split_at_sep(s: Seq<char>, sep: char, k: int)
    requires
        0 <= k < s.len(),
        s[k] == sep,
        forall|j: int| 0 <= j < k ==> s[j] != sep,
    ensures
        split_on(s, sep) =~~= seq![s.take(k)] + split_on(s.skip(k + 1), sep),
    decreases k,
{
    lemma_split_len(s.skip(1), sep);
    if k == 0 {
        assert(s.take(0) =~= Seq::<char>::empty());
    } else {
        lemma_split_at_sep(s.skip(1), sep, k - 1);
        lemma_split_len(s.skip(1).skip(k), sep);
        assert(s.skip(1).take(k - 1) =~= s.take(k).skip(1));
        assert(seq![s[0]] + s.take(k).skip(1) =~= s.take(k));
        assert(s.skip(1).skip(k) =~= s.skip(k + 1));
    }
}

/// Copies the characters of `cs` between the two bounds.
fn subvec(cs: &Vec<char>, a: usize, b: usize) -> (r: Vec<char>)
    requires
        a <= b <= cs@.len(),
    ensures
        r@ == cs@.subrange(a as int, b as int),
{
    let mut r: Vec<char> = Vec::new();
    let mut i: usize = a;
    while i < b
        invariant
            a <= i <= b <= cs@.len(),
            r@ =~= cs@.subrange(a as int, i as int),
        decreases b - i,
    {
        r.push(cs[i]);
        proof {
            assert(cs@.subrange(a as int, i + 1 as int) =~= cs@.subrange(a as int, i as int).push(
                cs@[i as int],
            ));
        }
        i = i + 1;
    }
    r
}

/// Splits the characters on the separator: computes [`split_on`].
#[verifier::loop_isolation(false)]
fn split_chars(cs: &Vec<char>, sep: char) -> (r: Vec<Vec<char>>)
    ensures
        r@.map_values(|v: Vec<char>| v@) == split_on(cs@, sep),
{
    let n = cs.len();
    let mut out: Vec<Vec<char>> = Vec::new();
    let mut p: usize = 0;
    proof {
        assert(cs@.skip(0) =~= cs@);
        assert(out@.map_values(|v: Vec<char>| v@) =~= Seq::<Seq<char>>::empty());
    }
    loop
        invariant
            0 <= p <= n,
            n == cs@.len(),
            split_on(cs@, sep) =~~= out@.map_values(|v: Vec<char>| v@) + split_on(
                cs@.skip(p as int),
                sep,
            ),
        decreases n - p,
    {
        let mut j: usize = p;
        while j < n && cs[j] != sep
            invariant
                p <= j <= n,
                forall|t: int| p <= t < j ==> cs@[t] != sep,
            decreases n - j,
        {
            j = j + 1;
        }
        let piece = subvec(cs, p, j);
        let ghost tail = cs@.skip(p as int);
        proof {
            assert(forall|t: int| 0 <= t < j - p ==> tail[t] != sep);
            assert(piece@ =~= tail.take(j - p));
        }
        if j < n {
            proof {
                lemma_split_at_sep(tail, sep, j - p);
                assert(tail.skip(j - p + 1) =~= cs@.skip(j + 1));
            }
            out.push(piece);
            proof {
                assert(out@.map_values(|v: Vec<char>| v@) =~= out@.drop_last().map_values(
                    |v: Vec<char>| v@,
                ).push(piece@));
            }
            p = j + 1;
        } else {
            proof {
                lemma_split_clear(tail, sep);
                assert(tail.take(j - p) =~= tail);
            }
            out.push(piece);
            proof {
                assert(out@.map_values(|v: Vec<char>| v@) =~= out@.drop_last().map_values(
                    |v: Vec<char>| v@,
                ).push(piece@));
                assert(out@.map_values(|v: Vec<char>| v@) =~~= split_on(cs@, sep));
            }
            return out;
        }
    }
}

/// The sequence with leading blank space removed.
pub open spec fn trim_front(s: Seq<char>) -> Seq<char>
    decreases s.len(),
{
    if s.len() > 0 && is_space(s[0]) {
        trim_front(s.skip(1))
    } else {
        s
    }
}

/// The sequence with trailing blank space removed.
pub open spec fn trim_back(s: Seq<char>) -> Seq<char>
    decreases s.len(),
{
    if s.len() > 0 && is_space(s.last()) {
        trim_back(s.drop_last())
    } else {
        s
    }
}

/// The sequence with blank space removed at both ends.
pub open spec fn spec_trim(s: Seq<char>) -> Seq<char> {
    trim_back(trim_front(s))
}

/// Dropping leading blank space reaches the first non-space position.
pub proof fn lemma_trim_front(s: Seq<char>, a: int)
    requires
        0 <= a <= s.len(),
        forall|j: int| 0 <= j < a ==> is_space(#[trigger] s[j]),
        a < s.len() ==> !is_space(s[a]),
    ensures
        trim_front(s) =~~= s.skip(a),
    decreases a,
{
    if a == 0 {
        assert(s.skip(0) =~= s);
    } else {
        lemma_trim_front(s.skip(1), a - 1);
        assert(s.skip(1).skip(a - 1) =~= s.skip(a));
    }
}

/// Dropping trailing blank space reaches the last non-space position.
pub proof fn lemma_trim_back(s: Seq<char>, b: int)
    requires
        0 <= b <= s.len(),
        forall|j: int| b <= j < s.len() ==> is_space(#[trigger] s[j]),
        b > 0 ==> !is_space(s[b - 1]),
    ensures
        trim_back(s) =~~= s.take(b),
    decreases s.len() - b,
{
    if b == s.len() {
        assert(s.take(b) =~= s);
    } else {
        lemma_trim_back(s.drop_last(), b);
        assert(s.drop_last() =~= s.take(s.len() - 1));
        assert(s.take(s.len() - 1).take(b) =~= s.take(b));
    }
}

/// Removes blank space at both ends: computes [`spec_trim`].
#[verifier::loop_isolation(false)]
fn trim_chars(t: &Vec<char>) -> (r: Vec<char>)
    ensures
        r@ == spec_trim(t@),
{
    let n = t.len();
    let mut a: usize = 0;
    while a < n && is_space_char(t[a])
        invariant
            0 <= a <= n,
            forall|j: int| 0 <= j < a ==> is_space(#[trigger] t@[j]),
        decreases n - a,
    {
        a = a + 1;
    }
    let mut b: usize = n;
    while b > a && is_space_char(t[b - 1])
        invariant
            a <= b <= n,
            forall|j: int| b <= j < n ==> is_space(#[trigger] t@[j]),
        decreases b,
    {
        b = b - 1;
    }
    let r = subvec(t, a, b);
    proof {
        lemma_trim_front(t@, a as int);
        let u = t@.skip(a as int);
        if b == a {
            lemma_trim_back(u, 0);
        } else {
            lemma_trim_back(u, b - a);
        }
        assert(u.take(b - a) =~= t@.subrange(a as int, b as int));
    }
    r
}

/// Whether the character is blank space: computes [`is_space`].
fn is_space_char(c: char) -> (r: bool)
    ensures
        r == is_space(c),
{
    c == ' ' || c == '\t' || c == '\n' || c == '\r'
}

/// Digit values are nonnegative, and a digit sequence's value only grows as
/// digits are appended.
proof fn lemma_digits_val_bounds(s: Seq<char>)
    requires
        all_digits(s),
    ensures
        0 <= digits_val(s),
        digits_val(s) < pow10(s.len()),
    decreases s.len(),
{
    if s.len() > 0 {
        assert(all_digits(s.drop_last()));
        lemma_digits_val_bounds(s.drop_last());
        let h = digits_val(s.drop_last());
        let p = pow10((s.len() - 1) as nat);
        assert(h * 10 + digit_val(s.last()) < p * 10) by (nonlinear_arith)
            requires
                0 <= h,
                h < p,
                0 <= digit_val(s.last()) <= 9,
        ;
    }
}

/// A prefix of a digit sequence never exceeds the whole sequence's value.
proof fn lemma_digits_val_monotone(s: Seq<char>, i: int)
    requires
        all_digits(s),
        0 <= i <= s.len(),
    ensures
        digits_val(s.take(i)) <= digits_val(s),
        0 <= digits_val(s.take(i)),
    decreases s.len() - i,
{
    assert(all_digits(s.take(i)));
    lemma_digits_val_bounds(s.take(i));
    if i < s.len() {
        lemma_digits_val_monotone(s, i + 1);
        let u = s.take(i);
        let w = s.take(i + 1);
        assert(w.drop_last() =~= u);
        assert(w.last() == s[i]);
        let h = digits_val(u);
        assert(h <= h * 10 + digit_val(s[i])) by (nonlinear_arith)
            requires
                0 <= h,
                0 <= digit_val(s[i]),
        ;
    } else {
        assert(s.take(i) =~= s);
    }
}

/// Whether the sequence is all digits: computes [`all_digits`].
fn check_all_digits(t: &Vec<char>) -> (r: bool)
    ensures
        r == all_digits(t@),
{
    let n = t.len();
    let mut i: usize = 0;
    while i < n
        invariant
            0 <= i <= n,
            n == t@.len(),
            forall|j: int| 0 <= j < i ==> is_digit(#[trigger] t@[j]),
        decreases n - i,
    {
        let c = t[i];
        if (c as u32) < ('0' as u32) || (c as u32) > ('9' as u32) {
            return false;
        }
        i = i + 1;
    }
    true
}

/// Reads an all-digit sequence in base ten, up to a cap: computes
/// [`digits_val`] when the value is within the cap, reports an overflow
/// otherwise.
#[verifier::loop_isolation(false)]
fn digits_value_capped(t: &Vec<char>, cap: i64) -> (r: Option<i64>)
    requires
        all_digits(t@),
        0 <= cap <= ABS_MAX,
    ensures
        match r {
            Some(v) => v == digits_val(t@) && 0 <= v <= cap,
            None => digits_val(t@) > cap,
        },
{
    let n = t.len();
    let mut acc: i64 = 0;
    let mut i: usize = 0;
    while i < n
        invariant
            0 <= i <= n,
            acc == digits_val(t@.take(i as int)),
            0 <= acc <= cap,
        decreases n - i,
    {
        let c = t[i];
        let d: i64 = ((c as u32) - ('0' as u32)) as i64;
        proof {
            assert(t@.take(i + 1 as int).drop_last() =~= t@.take(i as int));
            assert(t@.take(i + 1 as int).last() == t@[i as int]);
        }
        let next: i64 = acc * 10 + d;
        if next > cap {
            proof {
                lemma_digits_val_monotone(t@, i + 1 as int);
            }
            return None;
        }
        acc = next;
        i = i + 1;
    }
    proof {
        assert(t@.take(n as int) =~= t@);
    }
    Some(acc)
}

/// Ten to a small power: computes [`pow10`].
fn pow10_exec(n: usize) -> (r: i64)
    requires
        n <= 6,
    ensures
        r == pow10(n as nat),
        1 <= r <= 1_000_000,
{
    let mut r: i64 = 1;
    let mut i: usize = 0;
    while i < n
        invariant
            0 <= i <= n <= 6,
            r == pow10(i as nat),
            1 <= r <= 1_000_000,
        decreases n - i,
    {
        r = r * 10;
        i = i + 1;
        proof {
            assert(pow10(i as nat) == 10 * pow10((i - 1) as nat));
            assert(pow10(i as nat) <= 1_000_000) by {
                lemma_pow10_le(i as nat);
            }
        }
    }
    r
}

/// The value of ten to the sixth.
pub proof fn lemma_pow10_val()
    ensures
        pow10(6) == 1_000_000,
{
    reveal_with_fuel(pow10, 8);
}

/// Ten to a power of at most six is at most one million.
proof fn lemma_pow10_le(n: nat)
    requires
        n <= 6,
    ensures
        pow10(n) <= 1_000_000,
        1 <= pow10(n),
{
    assert(pow10(0) == 1);
    assert(pow10(1) == 10);
    assert(pow10(2) == 100);
    assert(pow10(3) == 1000);
    assert(pow10(4) == 10000);
    assert(pow10(5) == 100000);
    assert(pow10(6) == 1000000);
}

/// `v` negated when the flag is set.
pub open spec fn signed(neg: bool, v: int) -> int {
    if neg {
        -v
    } else {
        v
    }
}

/// The fixed-point micro-unit value of a decimal token: an optional sign,
/// then either digits, or digits around one decimal point with at least one
/// digit in all and at most six fractional digits; nothing if the token is
/// not of that form or its magnitude exceeds the coordinate domain.
pub open spec fn spec_parse_number(t: Seq<char>) -> Option<int> {
    let neg = t.len() > 0 && t[0] == '-';
    let mag = if t.len() > 0 && (t[0] == '-' || t[0] == '+') {
        t.skip(1)
    } else {
        t
    };
    let pieces = split_on(mag, '.');
    if pieces.len() == 1 {
        let ip = pieces[0];
        if ip.len() > 0 && all_digits(ip) && digits_val(ip) * (SCALE as int) <= ABS_MAX {
            Some(signed(neg, digits_val(ip) * (SCALE as int)))
        } else {
            None
        }
    } else if pieces.len() == 2 {
        let ip = pieces[0];
        let fp = pieces[1];
        if ip.len() + fp.len() > 0 && all_digits(ip) && all_digits(fp) && fp.len() <= 6 {
            let mag_val = digits_val(ip) * (SCALE as int) + digits_val(fp) * pow10(
                (6 - fp.len()) as nat,
            );
            if mag_val <= ABS_MAX {
                Some(signed(neg, mag_val))
            } else {
                None
            }
        } else {
            None
        }
    } else {
        None
    }
}

/// Reads a decimal token as a fixed-point micro-unit value: computes
/// [`spec_parse_number`].
#[verifier::loop_isolation(false)]
pub fn parse_number(t: &Vec<char>) -> (r: Option<i64>)
    ensures
        match r {
            Some(v) => spec_parse_number(t@) == Some(v as int) && -ABS_MAX <= v <= ABS_MAX,
            None => spec_parse_number(t@) is None,
        },
{
    let n = t.len();
    let neg = n > 0 && t[0] == '-';
    let start: usize = if n > 0 && (t[0] == '-' || t[0] == '+') {
        1
    } else {
        0
    };
    let mag = subvec(t, start, n);
    proof {
        if start == 1 {
            assert(mag@ =~= t@.skip(1));
        } else {
            assert(mag@ =~= t@);
        }
    }
    let pieces = split_chars(&mag, '.');
    let ghost spieces = split_on(mag@, '.');
    proof {
        assert(pieces@.map_values(|v: Vec<char>| v@).len() == pieces@.len());
    }
    if pieces.len() == 1 {
        let ip = &pieces[0];
        proof {
            assert(ip@ == spieces[0]);
        }
        if ip.len() == 0 {
            return None;
        }
        if !check_all_digits(ip) {
            return None;
        }
        let ipv = match digits_value_capped(ip, 1_000_000) {
            Some(v) => v,
            None => {
                proof {
                    let dv = digits_val(ip@);
                    assert(dv * (SCALE as int) > ABS_MAX) by (nonlinear_arith)
                        requires
                            dv > 1_000_000,
                            SCALE == 1_000_000,
                            ABS_MAX == 1_000_000_000_000,
                    ;
                }
                return None;
            },
        };
        let v: i64 = ipv * SCALE;
        if neg {
            Some(-v)
        } else {
            Some(v)
        }
    } else if pieces.len() == 2 {
        let ip = &pieces[0];
        let fp = &pieces[1];
        proof {
            assert(ip@ == spieces[0]);
            assert(fp@ == spieces[1]);
        }
        if ip.len() == 0 && fp.len() == 0 {
            return None;
        }
        if !check_all_digits(ip) {
            return None;
        }
        if !check_all_digits(fp) {
            return None;
        }
        if fp.len() > 6 {
            return None;
        }
        let ipv = match digits_value_capped(ip, 1_000_000) {
            Some(v) => v,
            None => {
                proof {
                    let dv = digits_val(ip@);
                    let fv = digits_val(fp@);
                    lemma_digits_val_bounds(fp@);
                    lemma_pow10_le((6 - fp@.len()) as nat);
                    assert(dv * (SCALE as int) + fv * pow10((6 - fp@.len()) as nat) > ABS_MAX)
                        by (nonlinear_arith)
                        requires
                            dv > 1_000_000,
                            fv >= 0,
                            pow10((6 - fp@.len()) as nat) >= 1,
                            SCALE == 1_000_000,
                            ABS_MAX == 1_000_000_000_000,
                    ;
                }
                return None;
            },
        };
        let fpv = match digits_value_capped(fp, 999_999) {
            Some(v) => v,
            None => {
                proof {
                    lemma_digits_val_bounds(fp@);
                    lemma_pow10_le(fp@.len());
                }
                return None;
            },
        };
        let scale_rest = pow10_exec(6 - fp.len());
        proof {
            lemma_digits_val_bounds(fp@);
            let fv = digits_val(fp@);
            let pr = pow10((6 - fp@.len()) as nat);
            let pl = pow10(fp@.len());
            lemma_pow10_mul_split(fp@.len() as nat);
            assert(fv * pr < pl * pr) by (nonlinear_arith)
                requires
                    0 <= fv < pl,
                    pr >= 1,
            ;
        }
        let frac: i64 = fpv * scale_rest;
        let mag_val: i64 = ipv * SCALE + frac;
        if mag_val > ABS_MAX {
            return None;
        }
        if neg {
            Some(-mag_val)
        } else {
            Some(mag_val)
        }
    } else {
        None
    }
}

/// Ten to the sixth splits across a fractional length.
proof fn lemma_pow10_mul_split(k: nat)
    requires
        k <= 6,
    ensures
        pow10(k) * pow10((6 - k) as nat) == 1_000_000,
    decreases k,
{
    if k == 0 {
        reveal_with_fuel(pow10, 8);
        assert(pow10(0) == 1);
        assert(pow10(6) == 1_000_000);
    } else {
        lemma_pow10_mul_split((k - 1) as nat);
        let a = pow10((k - 1) as nat);
        let b = pow10((6 - k) as nat);
        assert((10 * a) * b == 10 * (a * b)) by (nonlinear_arith);
        assert(pow10((6 - (k - 1)) as nat) == 10 * b);
        assert(a * (10 * b) == 10 * (a * b)) by (nonlinear_arith);
    }
}

/// What a vertex-list text denotes: the vertices, or the first failure.
pub enum TextParse {
    /// The text is well-formed and lists these vertices.
    Parsed(Seq<Vertex>),
    /// The first failing token, trimmed, that is not a decimal number.
    NumberFormat(Seq<char>),
    /// The first group whose number count is not exactly two.
    Arity(Seq<char>),
}

/// A failed parse of a vertex-list text, naming the offending substring.
#[derive(Debug, Clone, PartialEq, Eq)]
pub enum ParseError {
    /// A token that is not a decimal number, trimmed.
    NumberFormat(String),
    /// A vertex group whose number count is not exactly two.
    Arity(String),
}

/// The values of the tokens of one group, each trimmed and read as a
/// decimal, or the first token that fails.
pub open spec fn spec_parse_tokens(toks: Seq<Seq<char>>) -> Result<Seq<int>, Seq<char>>
    decreases toks.len(),
{
    if toks.len() == 0 {
        Result::Ok(Seq::<int>::empty())
    } else {
        let t = spec_trim(toks[0]);
        match spec_parse_number(t) {
            None => Result::Err(t),
            Some(v) => match spec_parse_tokens(toks.skip(1)) {
                Result::Err(e) => Result::Err(e),
                Result::Ok(rest) => Result::Ok(seq![v] + rest),
            },
        }
    }
}

/// One vertex group parsed: a malformed token wins over a wrong count.
pub open spec fn spec_parse_group(g: Seq<char>) -> TextParse {
    match spec_parse_tokens(split_on(g, ',')) {
        Result::Err(tok) => TextParse::NumberFormat(tok),
        Result::Ok(vals) => if vals.len() == 2 {
            TextParse::Parsed(seq![Vertex { x: vals[0] as i64, y: vals[1] as i64 }])
        } else {
            TextParse::Arity(g)
        },
    }
}

/// The groups parsed in order; the first failure aborts the parse.
pub open spec fn spec_parse_groups(gs: Seq<Seq<char>>) -> TextParse
    decreases gs.len(),
{
    if gs.len() == 0 {
        TextParse::Parsed(Seq::<Vertex>::empty())
    } else {
        match spec_parse_group(gs[0]) {
            TextParse::Parsed(v) => match spec_parse_groups(gs.skip(1)) {
                TextParse::Parsed(rest) => TextParse::Parsed(v + rest),
                TextParse::NumberFormat(e) => TextParse::NumberFormat(e),
                TextParse::Arity(e) => TextParse::Arity(e),
            },
            TextParse::NumberFormat(e) => TextParse::NumberFormat(e),
            TextParse::Arity(e) => TextParse::Arity(e),
        }
    }
}

/// What a whole vertex-list text denotes: its semicolon-separated groups
/// parsed in order.
pub open spec fn spec_parse_vertices(s: Seq<char>) -> TextParse {
    spec_parse_groups(split_on(s, ';'))
}

/// A parse outcome with vertices already gathered in front of it.
pub open spec fn spec_with_prefix(prefix: Seq<Vertex>, t: TextParse) -> TextParse {
    match t {
        TextParse::Parsed(v) => TextParse::Parsed(prefix + v),
        TextParse::NumberFormat(e) => TextParse::NumberFormat(e),
        TextParse::Arity(e) => TextParse::Arity(e),
    }
}

/// A token outcome with values already gathered in front of it.
pub open spec fn spec_with_vals(prefix: Seq<int>, t: Result<Seq<int>, Seq<char>>) -> Result<
    Seq<int>,
    Seq<char>,
> {
    match t {
        Result::Ok(v) => Result::Ok(prefix + v),
        Result::Err(e) => Result::Err(e),
    }
}

/// The characters of a string slice, in order.
pub fn chars_of(s: &str) -> (r: Vec<char>)
    ensures
        r@ == s@,
{
    let n = s.unicode_len();
    let mut r: Vec<char> = Vec::new();
    let mut i: usize = 0;
    while i < n
        invariant
            0 <= i <= n,
            n == s@.len(),
            r@ =~= s@.take(i as int),
        decreases n - i,
    {
        r.push(s.get_char(i));
        proof {
            assert(s@.take(i + 1 as int) =~= s@.take(i as int).push(s@[i as int]));
        }
        i = i + 1;
    }
    proof {
        assert(s@.take(n as int) =~= s@);
    }
    r
}

/// Relies on `String::push`: appends one character to the string.
#[verifier::external_body]
fn push_char(s: &mut String, c: char)
    ensures
        final(s)@ == old(s)@.push(c),
{
    s.push(c);
}

/// A string holding exactly the given characters.
pub fn string_of(cs: &Vec<char>) -> (r: String)
    ensures
        r@ == cs@,
{
    let mut r = String::new();
    let n = cs.len();
    let mut i: usize = 0;
    while i < n
        invariant
            0 <= i <= n,
            n == cs@.len(),
            r@ =~= cs@.take(i as int),
        decreases n - i,
    {
        push_char(&mut r, cs[i]);
        proof {
            assert(cs@.take(i + 1 as int) =~= cs@.take(i as int).push(cs@[i as int]));
        }
        i = i + 1;
    }
    proof {
        assert(cs@.take(n as int) =~= cs@);
    }
    r
}

/// Parses a vertex-list text: semicolon-separated groups, each a
/// comma-separated pair of decimal numbers with blank space around each
/// number ignored. Fails on the first token that is not a decimal number in
/// the coordinate domain, naming that token, and otherwise on the first
/// group without exactly two numbers, naming that group. An empty text is
/// one group with one empty token and therefore a malformed number.
#[verifier::loop_isolation(false)]
pub fn parse_vertices(s: &str) -> (r: Result<Vertices, ParseError>)
    ensures
        ({
            let sp = spec_parse_vertices(s@);
            match r {
                Result::Ok(vs) => sp matches TextParse::Parsed(sv) && vs.vals@ == sv,
                Result::Err(ParseError::NumberFormat(t)) => sp matches TextParse::NumberFormat(st)
                    && t@ == st,
                Result::Err(ParseError::Arity(g)) => sp matches TextParse::Arity(sg) && g@ == sg,
            }
        }),
        r matches Result::Ok(vs) ==> crate::poly::verts_wf(vs.vals@),
{
    let cs = chars_of(s);
    let groups = split_chars(&cs, ';');
    let ghost sgroups = split_on(cs@, ';');
    let mut out: Vec<Vertex> = Vec::new();
    let ng = groups.len();
    proof {
        assert(groups@.map_values(|v: Vec<char>| v@) == sgroups);
        assert(ng == sgroups.len());
        assert(sgroups.skip(0) =~= sgroups);
        match spec_parse_groups(sgroups) {
            TextParse::Parsed(v0) => {
                assert(Seq::<Vertex>::empty() + v0 =~= v0);
            },
            TextParse::NumberFormat(_) => {},
            TextParse::Arity(_) => {},
        }
    }
    let mut gi: usize = 0;
    while gi < ng
        invariant
            0 <= gi <= ng,
            spec_with_prefix(out@, spec_parse_groups(sgroups.skip(gi as int)))
                == spec_parse_vertices(cs@),
            crate::poly::verts_wf(out@),
        decreases ng - gi,
    {
        let g = &groups[gi];
        proof {
            assert(g@ == sgroups[gi as int]);
            assert(sgroups.skip(gi as int)[0] == sgroups[gi as int]);
            assert(sgroups.skip(gi as int).skip(1) =~= sgroups.skip(gi as int + 1));
        }
        let toks = split_chars(g, ',');
        let ghost stoks = split_on(g@, ',');
        let nt = toks.len();
        let mut vals: Vec<i64> = Vec::new();
        proof {
            assert(toks@.map_values(|v: Vec<char>| v@) == stoks);
            assert(nt == stoks.len());
            assert(stoks.skip(0) =~= stoks);
            assert(vals@.map_values(|v: i64| v as int) =~= Seq::<int>::empty());
            match spec_parse_tokens(stoks) {
                Result::Ok(v0) => {
                    assert(Seq::<int>::empty() + v0 =~= v0);
                },
                Result::Err(_) => {},
            }
        }
        let mut ti: usize = 0;
        while ti < nt
            invariant
                0 <= ti <= nt,
                spec_with_vals(
                    vals@.map_values(|v: i64| v as int),
                    spec_parse_tokens(stoks.skip(ti as int)),
                ) == spec_parse_tokens(stoks),
                forall|k: int| 0 <= k < vals@.len() ==> -ABS_MAX <= #[trigger] vals@[k] <= ABS_MAX,
            decreases nt - ti,
        {
            proof {
                assert(toks@[ti as int]@ == stoks[ti as int]);
                assert(stoks.skip(ti as int)[0] == stoks[ti as int]);
                assert(stoks.skip(ti as int).skip(1) =~= stoks.skip(ti as int + 1));
            }
            let tt = trim_chars(&toks[ti]);
            match parse_number(&tt) {
                None => {
                    return Result::Err(ParseError::NumberFormat(string_of(&tt)));
                },
                Some(v) => {
                    let ghost vals_before = vals@;
                    vals.push(v);
                    proof {
                        let m_old = vals_before.map_values(|x: i64| x as int);
                        let m_new = vals@.map_values(|x: i64| x as int);
                        assert(m_new =~= m_old.push(v as int));
                        match spec_parse_tokens(stoks.skip(ti as int + 1)) {
                            Result::Ok(rest) => {
                                assert(m_old + (seq![v as int] + rest) =~= m_new + rest);
                            },
                            Result::Err(_) => {},
                        }
                    }
                },
            }
            ti = ti + 1;
        }
        proof {
            assert(stoks.skip(nt as int) =~= Seq::<Seq<char>>::empty());
            assert(vals@.map_values(|x: i64| x as int) + Seq::<int>::empty() =~= vals@.map_values(
                |x: i64| x as int,
            ));
        }
        if vals.len() == 2 {
            let vx = vals[0];
            let vy = vals[1];
            proof {
                assert(vals@.map_values(|x: i64| x as int)[0] == vx as int);
                assert(vals@.map_values(|x: i64| x as int)[1] == vy as int);
            }
            let ghost out_before = out@;
            out.push(Vertex { x: vx, y: vy });
            proof {
                assert(out@ =~= out_before.push(Vertex { x: vx, y: vy }));
                assert(out@.last().wf());
                match spec_parse_groups(sgroups.skip(gi as int + 1)) {
                    TextParse::Parsed(rest) => {
                        assert(out_before + (seq![Vertex { x: vx, y: vy }] + rest) =~= out@
                            + rest);
                    },
                    TextParse::NumberFormat(_) => {},
                    TextParse::Arity(_) => {},
                }
            }
        } else {
            return Result::Err(ParseError::Arity(string_of(g)));
        }
        gi = gi + 1;
    }
    proof {
        assert(sgroups.skip(ng as int) =~= Seq::<Seq<char>>::empty());
        assert(out@ + Seq::<Vertex>::empty() =~= out@);
    }
    Result::Ok(Vertices { vals: out })
}

/// A token list reads back as one value per token.
proof fn lemma_tokens_ok_len(toks: Seq<Seq<char>>)
    ensures
        spec_parse_tokens(toks) matches Result::Ok(vals) ==> vals.len() == toks.len(),
    decreases toks.len(),
{
    if toks.len() > 0 {
        lemma_tokens_ok_len(toks.skip(1));
    }
}

/// Every token of a successfully read token list is a number.
proof fn lemma_tokens_ok_each(toks: Seq<Seq<char>>, j: int)
    requires
        spec_parse_tokens(toks) is Ok,
        0 <= j < toks.len(),
    ensures
        spec_parse_number(spec_trim(toks[j])) is Some,
    decreases j,
{
    if j > 0 {
        assert(spec_parse_tokens(toks.skip(1)) is Ok);
        lemma_tokens_ok_each(toks.skip(1), j - 1);
        assert(toks.skip(1)[j - 1] == toks[j]);
    }
}

/// Every group of a successfully parsed vertex list parsed on its own.
proof fn lemma_groups_each(gs: Seq<Seq<char>>, i: int)
    requires
        spec_parse_groups(gs) is Parsed,
        0 <= i < gs.len(),
    ensures
        spec_parse_group(gs[i]) is Parsed,
    decreases i,
{
    if i > 0 {
        assert(spec_parse_groups(gs.skip(1)) is Parsed);
        lemma_groups_each(gs.skip(1), i - 1);
        assert(gs.skip(1)[i - 1] == gs[i]);
    }
}

/// A vertex-list text parses only when every group holds exactly two
/// numbers: a group with any other count makes the whole parse fail.
pub proof fn lemma_parsed_group_is_pair(s: Seq<char>, i: int)
    requires
        spec_parse_vertices(s) is Parsed,
        0 <= i < split_on(s, ';').len(),
    ensures
        spec_parse_tokens(split_on(split_on(s, ';')[i], ',')) is Ok,
        split_on(split_on(s, ';')[i], ',').len() == 2,
{
    let gs = split_on(s, ';');
    lemma_groups_each(gs, i);
    let toks = split_on(gs[i], ',');
    assert(spec_parse_tokens(toks) is Ok);
    lemma_tokens_ok_len(toks);
}

/// A vertex-list text parses only when every token, trimmed, is a decimal
/// number: a non-numeric token makes the whole parse fail.
pub proof fn lemma_parsed_token_is_number(s: Seq<char>, i: int, j: int)
    requires
        spec_parse_vertices(s) is Parsed,
        0 <= i < split_on(s, ';').len(),
        0 <= j < split_on(split_on(s, ';')[i], ',').len(),
    ensures
        spec_parse_number(spec_trim(split_on(split_on(s, ';')[i], ',')[j])) is Some,
{
    let gs = split_on(s, ';');
    lemma_groups_each(gs, i);
    let toks = split_on(gs[i], ',');
    lemma_tokens_ok_each(toks, j);
}

} // verus!

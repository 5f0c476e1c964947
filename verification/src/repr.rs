//! The canonical text of a polygon: each vertex as `x, y` with the
//! coordinates in minimal decimal form, vertices joined by `; `, and `()`
//! for the empty polygon. Parsing the text of a nonempty polygon gives the
//! same vertices back.

use vstd::prelude::*;

verus! {

use vstd::arithmetic::div_mod::lemma_fundamental_div_mod;
use vstd::arithmetic::div_mod::lemma_div_is_ordered;
use vstd::arithmetic::div_mod::lemma_div_pos_is_pos;

use crate::eco::eco_chars;
use crate::eco::eco_from_str;
use crate::eco::eco_new;
use crate::eco::eco_push_str;
use crate::num::ABS_MAX;
use crate::num::SCALE;
use crate::poly::Polygon;
use crate::poly::Vertex;
use crate::poly::verts_wf;
use crate::text::TextParse;
use crate::text::all_digits;
use crate::text::digit_val;
use crate::text::digits_val;
use crate::text::is_digit;
use crate::text::is_space;
use crate::text::pow10;
use crate::text::spec_parse_vertices;
use crate::text::string_of;

/// The character of one decimal digit.
pub open spec fn digit_char(d: int) -> char {
    if d == 0 {
        '0'
    } else if d == 1 {
        '1'
    } else if d == 2 {
        '2'
    } else if d == 3 {
        '3'
    } else if d == 4 {
        '4'
    } else if d == 5 {
        '5'
    } else if d == 6 {
        '6'
    } else if d == 7 {
        '7'
    } else if d == 8 {
        '8'
    } else {
        '9'
    }
}

/// The decimal digits of a nonnegative number, most significant first.
pub open spec fn spec_fmt_nat(n: int) -> Seq<char>
    recommends
        0 <= n,
    decreases n,
{
    if n <= 9 {
        seq![digit_char(n)]
    } else {
        spec_fmt_nat(n / 10).push(digit_char(n % 10))
    }
}

/// The decimal digits of a number padded with leading zeros to width `k`.
pub open spec fn spec_pad(n: int, k: nat) -> Seq<char>
    decreases k,
{
    if k == 0 {
        Seq::<char>::empty()
    } else {
        spec_pad(n / 10, (k - 1) as nat).push(digit_char(n % 10))
    }
}

/// The sequence with trailing zero digits removed.
pub open spec fn spec_trim_zeros(s: Seq<char>) -> Seq<char>
    decreases s.len(),
{
    if s.len() > 0 && s.last() == '0' {
        spec_trim_zeros(s.drop_last())
    } else {
        s
    }
}

/// The fractional digits of a micro-unit remainder, padded to six places
/// and with trailing zeros removed.
pub open spec fn spec_fmt_frac(fp: int) -> Seq<char> {
    spec_trim_zeros(spec_pad(fp, 6))
}

/// The minimal decimal text of a fixed-point micro-unit value: a sign if
/// negative, the whole units, and the nonzero fraction after a point.
pub open spec fn spec_fmt_scalar(v: int) -> Seq<char> {
    let sign: Seq<char> = if v < 0 {
        seq!['-']
    } else {
        Seq::<char>::empty()
    };
    let m = if v < 0 {
        -v
    } else {
        v
    };
    let ip = m / (SCALE as int);
    let fp = m % (SCALE as int);
    if fp == 0 {
        sign + spec_fmt_nat(ip)
    } else {
        sign + spec_fmt_nat(ip) + seq!['.'] + spec_fmt_frac(fp)
    }
}

/// The text of one vertex: its coordinates separated by a comma and space.
pub open spec fn spec_vertex_repr(v: Vertex) -> Seq<char> {
    spec_fmt_scalar(v.x as int) + seq![',', ' '] + spec_fmt_scalar(v.y as int)
}

/// The text of a polygon: the vertex texts joined by `; `, or `()` when it
/// has no vertices.
pub open spec fn spec_polygon_repr(vs: Seq<Vertex>) -> Seq<char>
    decreases vs.len(),
{
    if vs.len() == 0 {
        seq!['(', ')']
    } else if vs.len() == 1 {
        spec_vertex_repr(vs[0])
    } else {
        spec_polygon_repr(vs.drop_last()) + seq![';', ' '] + spec_vertex_repr(vs.last())
    }
}

/// Whether every character is a digit, a minus sign or a decimal point: the
/// alphabet of scalar texts.
pub open spec fn plain_num(s: Seq<char>) -> bool {
    forall|i: int|
        0 <= i < s.len() ==> is_digit(#[trigger] s[i]) || s[i] == '-' || s[i] == '.'
}

/// Scalar-text characters are neither separators nor blank space.
proof fn lemma_plain_not_special(s: Seq<char>)
    requires
        plain_num(s),
    ensures
        forall|i: int|
            0 <= i < s.len() ==> #[trigger] s[i] != ';' && s[i] != ',' && !is_space(s[i]),
{
    assert forall|i: int|
        0 <= i < s.len() implies #[trigger] s[i] != ';' && s[i] != ',' && !is_space(s[i]) by {
        assert(is_digit(s[i]) || s[i] == '-' || s[i] == '.');
    }
}

/// The digit texts of nonnegative numbers: all digits, at least one, and
/// reading them back gives the number.
proof fn lemma_fmt_nat(n: int)
    requires
        0 <= n,
    ensures
        all_digits(spec_fmt_nat(n)),
        spec_fmt_nat(n).len() >= 1,
        digits_val(spec_fmt_nat(n)) == n,
    decreases n,
{
    if n <= 9 {
        assert(is_digit(digit_char(n)));
        assert(digit_val(digit_char(n)) == n);
        let s = spec_fmt_nat(n);
        assert(s.drop_last() =~= Seq::<char>::empty());
        assert(s.last() == digit_char(n));
        assert(digits_val(s) == digits_val(Seq::<char>::empty()) * 10 + digit_val(digit_char(n)));
    } else {
        lemma_div_pos_is_pos(n, 10);
        lemma_fmt_nat(n / 10);
        let s = spec_fmt_nat(n);
        let h = spec_fmt_nat(n / 10);
        assert(s =~= h.push(digit_char(n % 10)));
        assert(s.drop_last() =~= h);
        assert(is_digit(digit_char(n % 10)));
        assert(digit_val(digit_char(n % 10)) == n % 10);
        lemma_fundamental_div_mod(n, 10);
    }
}

/// The padded digit texts: all digits, width `k`, and reading them back
/// gives the number.
proof fn lemma_pad(n: int, k: nat)
    requires
        0 <= n < pow10(k),
    ensures
        all_digits(spec_pad(n, k)),
        spec_pad(n, k).len() == k,
        digits_val(spec_pad(n, k)) == n,
    decreases k,
{
    if k == 0 {
    } else {
        lemma_div_pos_is_pos(n, 10);
        assert(n / 10 < pow10((k - 1) as nat)) by {
            lemma_fundamental_div_mod(n, 10);
            let q = n / 10;
            let p = pow10((k - 1) as nat);
            assert(pow10(k) == 10 * p);
            assert(q < p) by (nonlinear_arith)
                requires
                    10 * q <= n,
                    n < 10 * p,
            ;
        }
        lemma_pad(n / 10, (k - 1) as nat);
        let s = spec_pad(n, k);
        let h = spec_pad(n / 10, (k - 1) as nat);
        assert(s.drop_last() =~= h);
        assert(is_digit(digit_char(n % 10)));
        assert(digit_val(digit_char(n % 10)) == n % 10);
        lemma_fundamental_div_mod(n, 10);
    }
}

/// Removing trailing zeros keeps the digits and scales the value by a power
/// of ten.
proof fn lemma_trim_zeros(s: Seq<char>)
    requires
        all_digits(s),
    ensures
        all_digits(spec_trim_zeros(s)),
        spec_trim_zeros(s).len() <= s.len(),
        digits_val(s) == digits_val(spec_trim_zeros(s)) * pow10(
            (s.len() - spec_trim_zeros(s).len()) as nat,
        ),
    decreases s.len(),
{
    let t = spec_trim_zeros(s);
    if s.len() > 0 && s.last() == '0' {
        assert(all_digits(s.drop_last()));
        lemma_trim_zeros(s.drop_last());
        let d = s.drop_last();
        let a = digits_val(t);
        let p = pow10((d.len() - t.len()) as nat);
        assert(digit_val('0') == 0);
        assert(digits_val(s) == digits_val(d) * 10);
        assert(pow10((s.len() - t.len()) as nat) == 10 * p);
        assert((a * p) * 10 == a * (10 * p)) by (nonlinear_arith);
    } else {
        assert(digits_val(s) * pow10(0) == digits_val(s) * 1);
    }
}

/// The scalar text of an in-domain value: made of digits, a sign and a
/// point, nonempty, it neither begins nor ends with blank space, and it
/// reads back as exactly that value.
proof fn lemma_fmt_scalar(v: int)
    requires
        -ABS_MAX <= v <= ABS_MAX,
    ensures
        plain_num(spec_fmt_scalar(v)),
        spec_fmt_scalar(v).len() >= 1,
        crate::text::spec_parse_number(spec_fmt_scalar(v)) == Option::Some(v),
{
    let m = if v < 0 {
        -v
    } else {
        v
    };
    let sc = SCALE as int;
    let ip = m / sc;
    let fp = m % sc;
    lemma_fundamental_div_mod(m, sc);
    lemma_div_pos_is_pos(m, sc);
    vstd::arithmetic::div_mod::lemma_remainder_lower(m, sc);
    vstd::arithmetic::div_mod::lemma_remainder_upper(m, sc);
    assert(0 <= fp < sc);
    lemma_div_is_ordered(m, ABS_MAX as int, sc);
    assert(ip <= 1_000_000);
    lemma_fmt_nat(ip);
    let ipd = spec_fmt_nat(ip);
    let s = spec_fmt_scalar(v);
    let neg = v < 0;
    if fp == 0 {
        let sign: Seq<char> = if neg {
            seq!['-']
        } else {
            Seq::<char>::empty()
        };
        assert(s == sign + ipd);
        let mag = if neg {
            s.skip(1)
        } else {
            s
        };
        assert(mag =~= ipd);
        assert(s.len() >= 1);
        if neg {
            assert(s[0] == '-');
        } else {
            assert(s[0] == ipd[0]);
            assert(is_digit(s[0]));
            assert(s[0] != '-' && s[0] != '+');
        }
        assert(forall|j: int| 0 <= j < mag.len() ==> is_digit(#[trigger] mag[j]) && mag[j]
            != '.');
        crate::text::lemma_split_clear(mag, '.');
        let pieces = crate::text::split_on(mag, '.');
        assert(pieces =~~= seq![mag]);
        assert(pieces.len() == 1);
        assert(pieces[0] == mag);
        assert(digits_val(mag) == ip);
        assert(ip * sc == m);
        assert(ip * sc <= ABS_MAX);
        assert(crate::text::signed(s.len() > 0 && s[0] == '-', ip * sc) == v);
        assert(plain_num(s));
    } else {
        assert(pow10(6) == 1_000_000) by {
            crate::text::lemma_pow10_val();
        }
        lemma_pad(fp, 6);
        lemma_trim_zeros(spec_pad(fp, 6));
        let frac = spec_fmt_frac(fp);
        let flen = frac.len();
        assert(flen <= 6);
        assert(fp == digits_val(frac) * pow10((6 - flen) as nat));
        let sign: Seq<char> = if neg {
            seq!['-']
        } else {
            Seq::<char>::empty()
        };
        assert(s == sign + ipd + seq!['.'] + frac);
        let mag = if neg {
            s.skip(1)
        } else {
            s
        };
        assert(mag =~= ipd + seq!['.'] + frac);
        let k = ipd.len() as int;
        assert(mag[k] == '.');
        assert(forall|j: int| 0 <= j < k ==> is_digit(#[trigger] mag[j]) && mag[j] != '.');
        crate::text::lemma_split_at_sep(mag, '.', k);
        assert(mag.take(k) =~= ipd);
        assert(mag.skip(k + 1) =~= frac);
        assert(forall|j: int| 0 <= j < frac.len() ==> #[trigger] frac[j] != '.');
        crate::text::lemma_split_clear(frac, '.');
        let pieces = crate::text::split_on(mag, '.');
        assert(pieces =~~= seq![ipd] + seq![frac]);
        assert(pieces.len() == 2);
        assert(pieces[0] == ipd);
        assert(pieces[1] == frac);
        assert(ipd.len() + frac.len() > 0);
        let mag_val = digits_val(ipd) * sc + digits_val(frac) * pow10((6 - flen) as nat);
        assert(mag_val == ip * sc + fp);
        assert(mag_val == m);
        assert(s.len() >= 1);
        if neg {
            assert(s[0] == '-');
        } else {
            assert(s[0] == ipd[0]);
            assert(is_digit(s[0]));
            assert(s[0] != '-' && s[0] != '+');
        }
        assert(crate::text::signed(s.len() > 0 && s[0] == '-', mag_val) == v);
        assert(frac.len() > 0) by {
            if frac.len() == 0 {
                assert(digits_val(frac) == 0);
                assert(fp == 0 * pow10(6));
            }
        }
        assert(plain_num(s));
    }
}

/// No character of a vertex text is a semicolon.
proof fn lemma_vertex_no_semi(v: Vertex)
    requires
        v.wf(),
    ensures
        forall|j: int|
            0 <= j < spec_vertex_repr(v).len() ==> (#[trigger] spec_vertex_repr(v)[j]) != ';',
{
    let fx = spec_fmt_scalar(v.x as int);
    let fy = spec_fmt_scalar(v.y as int);
    lemma_fmt_scalar(v.x as int);
    lemma_fmt_scalar(v.y as int);
    lemma_plain_not_special(fx);
    lemma_plain_not_special(fy);
    let g = spec_vertex_repr(v);
    assert forall|j: int| 0 <= j < g.len() implies (#[trigger] g[j]) != ';' by {
        if j < fx.len() {
            assert(g[j] == fx[j]);
        } else if j == fx.len() {
            assert(g[j] == ',');
        } else if j == fx.len() + 1 {
            assert(g[j] == ' ');
        } else {
            assert(g[j] == fy[j - fx.len() - 2]);
        }
    }
}

/// A vertex text with any blank lead parses as exactly that vertex.
proof fn lemma_vertex_group(v: Vertex, lead: Seq<char>)
    requires
        v.wf(),
        forall|j: int| 0 <= j < lead.len() ==> is_space(#[trigger] lead[j]),
    ensures
        crate::text::spec_parse_group(lead + spec_vertex_repr(v)) == TextParse::Parsed(seq![v]),
{
    let fx = spec_fmt_scalar(v.x as int);
    let fy = spec_fmt_scalar(v.y as int);
    lemma_fmt_scalar(v.x as int);
    lemma_fmt_scalar(v.y as int);
    lemma_plain_not_special(fx);
    lemma_plain_not_special(fy);
    let g = lead + spec_vertex_repr(v);
    let k = lead.len() as int + fx.len() as int;
    assert(g[k] == ',');
    assert forall|j: int| 0 <= j < k implies g[j] != ',' by {
        if j < lead.len() {
            assert(is_space(g[j]));
        } else {
            assert(g[j] == fx[j - lead.len()]);
        }
    }
    crate::text::lemma_split_at_sep(g, ',', k);
    assert(g.take(k) =~= lead + fx);
    let t1 = seq![' '] + fy;
    assert(g.skip(k + 1) =~= t1);
    assert forall|j: int| 0 <= j < t1.len() implies t1[j] != ',' by {
        if j == 0 {
            assert(t1[j] == ' ');
        } else {
            assert(t1[j] == fy[j - 1]);
        }
    }
    crate::text::lemma_split_clear(t1, ',');
    let toks = crate::text::split_on(g, ',');
    assert(toks =~~= seq![lead + fx] + seq![t1]);
    assert(toks.len() == 2);
    assert(toks[0] == lead + fx);
    assert(toks[1] == t1);
    // Trimming the first token removes the lead and nothing else.
    crate::text::lemma_trim_front(lead + fx, lead.len() as int);
    assert((lead + fx).skip(lead.len() as int) =~= fx);
    crate::text::lemma_trim_back(fx, fx.len() as int);
    assert(fx.take(fx.len() as int) =~= fx);
    assert(crate::text::spec_trim(lead + fx) == fx);
    // Trimming the second token removes the single space.
    crate::text::lemma_trim_front(t1, 1);
    assert(t1.skip(1) =~= fy);
    crate::text::lemma_trim_back(fy, fy.len() as int);
    assert(fy.take(fy.len() as int) =~= fy);
    assert(crate::text::spec_trim(t1) == fy);
    // The token list reads back as the two coordinates.
    assert(toks.skip(1) =~= seq![t1]);
    assert(seq![t1].skip(1) =~= Seq::<Seq<char>>::empty());
    let vals = crate::text::spec_parse_tokens(toks);
    assert(crate::text::spec_parse_tokens(Seq::<Seq<char>>::empty()) == Result::<
        Seq<int>,
        Seq<char>,
    >::Ok(Seq::<int>::empty()));
    assert(crate::text::spec_parse_tokens(seq![t1]) == Result::<Seq<int>, Seq<char>>::Ok(
        seq![v.y as int] + Seq::<int>::empty(),
    ));
    assert(seq![v.y as int] + Seq::<int>::empty() =~= seq![v.y as int]);
    assert(vals == Result::<Seq<int>, Seq<char>>::Ok(seq![v.x as int] + seq![v.y as int]));
    let vv = seq![v.x as int] + seq![v.y as int];
    assert(vv.len() == 2);
    assert(vv[0] == v.x as int);
    assert(vv[1] == v.y as int);
    assert(Vertex { x: vv[0] as i64, y: vv[1] as i64 } == v);
    assert(crate::text::spec_parse_group(g) == TextParse::Parsed(seq![v]));
}

/// The text of two or more vertices starts with the first vertex's text.
proof fn lemma_repr_front(vs: Seq<Vertex>)
    requires
        vs.len() >= 2,
    ensures
        spec_polygon_repr(vs) =~= spec_vertex_repr(vs[0]) + seq![';', ' '] + spec_polygon_repr(
            vs.skip(1),
        ),
    decreases vs.len(),
{
    if vs.len() == 2 {
        assert(vs.drop_last() =~= seq![vs[0]]);
        assert(seq![vs[0]][0] == vs[0]);
        assert(vs.skip(1) =~= seq![vs[1]]);
        assert(seq![vs[1]][0] == vs[1]);
        assert(vs.last() == vs[1]);
        assert(spec_polygon_repr(vs.drop_last()) == spec_vertex_repr(vs[0]));
        assert(spec_polygon_repr(vs.skip(1)) == spec_vertex_repr(vs[1]));
        assert(spec_polygon_repr(vs) == spec_polygon_repr(vs.drop_last()) + seq![';', ' ']
            + spec_vertex_repr(vs.last()));
    } else {
        let dl = vs.drop_last();
        lemma_repr_front(dl);
        assert(dl[0] == vs[0]);
        let tl = vs.skip(1);
        assert(tl.len() >= 2);
        assert(tl.drop_last() =~= dl.skip(1));
        assert(tl.last() == vs.last());
        let joiner = seq![';', ' '];
        assert(spec_polygon_repr(tl) == spec_polygon_repr(tl.drop_last()) + joiner
            + spec_vertex_repr(tl.last()));
        assert(spec_polygon_repr(tl) == spec_polygon_repr(dl.skip(1)) + joiner + spec_vertex_repr(
            vs.last(),
        ));
        assert(spec_polygon_repr(vs) == spec_polygon_repr(dl) + joiner + spec_vertex_repr(
            vs.last(),
        ));
        assert(spec_polygon_repr(vs) =~= spec_vertex_repr(vs[0]) + joiner + spec_polygon_repr(tl));
    }
}

/// The text of a nonempty vertex list, after any blank lead, parses group
/// by group into exactly those vertices.
proof fn lemma_repr_groups(vs: Seq<Vertex>, lead: Seq<char>)
    requires
        verts_wf(vs),
        vs.len() >= 1,
        forall|j: int| 0 <= j < lead.len() ==> is_space(#[trigger] lead[j]),
    ensures
        crate::text::spec_parse_groups(
            crate::text::split_on(lead + spec_polygon_repr(vs), ';'),
        ) == TextParse::Parsed(vs),
    decreases vs.len(),
{
    if vs.len() == 1 {
        let g = lead + spec_polygon_repr(vs);
        assert(spec_polygon_repr(vs) == spec_vertex_repr(vs[0]));
        lemma_vertex_no_semi(vs[0]);
        assert forall|j: int| 0 <= j < g.len() implies g[j] != ';' by {
            if j < lead.len() {
                assert(is_space(g[j]));
            } else {
                assert(g[j] == spec_vertex_repr(vs[0])[j - lead.len()]);
            }
        }
        crate::text::lemma_split_clear(g, ';');
        let groups = crate::text::split_on(g, ';');
        assert(groups =~~= seq![g]);
        assert(groups[0] == g);
        assert(groups.skip(1) =~= Seq::<Seq<char>>::empty());
        lemma_vertex_group(vs[0], lead);
        assert(crate::text::spec_parse_groups(Seq::<Seq<char>>::empty()) == TextParse::Parsed(
            Seq::<Vertex>::empty(),
        ));
        assert(seq![vs[0]] + Seq::<Vertex>::empty() =~= vs);
    } else {
        lemma_repr_front(vs);
        let g0 = lead + spec_vertex_repr(vs[0]);
        let rest = seq![' '] + spec_polygon_repr(vs.skip(1));
        let s = lead + spec_polygon_repr(vs);
        assert(s =~= g0 + seq![';'] + rest);
        let k = g0.len() as int;
        assert(s[k] == ';');
        lemma_vertex_no_semi(vs[0]);
        assert forall|j: int| 0 <= j < k implies s[j] != ';' by {
            if j < lead.len() {
                assert(is_space(s[j]));
            } else {
                assert(s[j] == spec_vertex_repr(vs[0])[j - lead.len()]);
            }
        }
        crate::text::lemma_split_at_sep(s, ';', k);
        assert(s.take(k) =~= g0);
        assert(s.skip(k + 1) =~= rest);
        assert(verts_wf(vs.skip(1)));
        lemma_repr_groups(vs.skip(1), seq![' ']);
        lemma_vertex_group(vs[0], lead);
        let groups = crate::text::split_on(s, ';');
        let sub = crate::text::split_on(rest, ';');
        assert(groups =~~= seq![g0] + sub);
        crate::text::lemma_split_len(rest, ';');
        assert(groups[0] == g0);
        assert(groups.skip(1) =~= sub);
        assert(seq![vs[0]] + vs.skip(1) =~= vs);
    }
}

/// Parsing the text of a nonempty polygon gives back exactly its vertices,
/// in order and with the same coordinate values.
pub proof fn lemma_repr_roundtrip(vs: Seq<Vertex>)
    requires
        verts_wf(vs),
        vs.len() >= 1,
    ensures
        spec_parse_vertices(spec_polygon_repr(vs)) == TextParse::Parsed(vs),
{
    lemma_repr_groups(vs, Seq::<char>::empty());
    assert(Seq::<char>::empty() + spec_polygon_repr(vs) =~= spec_polygon_repr(vs));
}

/// The character of one decimal digit: computes [`digit_char`].
fn digit_char_exec(d: i64) -> (c: char)
    requires
        0 <= d <= 9,
    ensures
        c == digit_char(d as int),
{
    if d == 0 {
        '0'
    } else if d == 1 {
        '1'
    } else if d == 2 {
        '2'
    } else if d == 3 {
        '3'
    } else if d == 4 {
        '4'
    } else if d == 5 {
        '5'
    } else if d == 6 {
        '6'
    } else if d == 7 {
        '7'
    } else if d == 8 {
        '8'
    } else {
        '9'
    }
}

/// The decimal digits of a nonnegative number: computes [`spec_fmt_nat`].
fn fmt_nat(n: i64) -> (r: Vec<char>)
    requires
        0 <= n,
    ensures
        r@ == spec_fmt_nat(n as int),
    decreases n,
{
    if n <= 9 {
        let mut v: Vec<char> = Vec::new();
        v.push(digit_char_exec(n));
        proof {
            assert(v@ =~= seq![digit_char(n as int)]);
        }
        v
    } else {
        let mut v = fmt_nat(n / 10);
        v.push(digit_char_exec(n % 10));
        v
    }
}

/// The zero-padded decimal digits: computes [`spec_pad`].
fn pad_digits(n: i64, k: usize) -> (r: Vec<char>)
    requires
        0 <= n,
    ensures
        r@ == spec_pad(n as int, k as nat),
    decreases k,
{
    if k == 0 {
        let v: Vec<char> = Vec::new();
        proof {
            assert(v@ =~= Seq::<char>::empty());
        }
        v
    } else {
        let mut v = pad_digits(n / 10, k - 1);
        v.push(digit_char_exec(n % 10));
        v
    }
}

/// The fractional digits with trailing zeros removed: computes
/// [`spec_fmt_frac`].
#[verifier::loop_isolation(false)]
fn fmt_frac(fp: i64) -> (r: Vec<char>)
    requires
        0 < fp < 1_000_000,
    ensures
        r@ == spec_fmt_frac(fp as int),
{
    let mut v = pad_digits(fp, 6);
    let ghost orig = v@;
    while v.len() > 0 && v[v.len() - 1] == '0'
        invariant
            spec_trim_zeros(orig) == spec_trim_zeros(v@),
        decreases v.len(),
    {
        v.pop();
    }
    proof {
        assert(spec_trim_zeros(v@) == v@);
    }
    v
}

/// The minimal decimal text of a fixed-point value: computes
/// [`spec_fmt_scalar`].
fn fmt_scalar(x: i64) -> (r: Vec<char>)
    requires
        -ABS_MAX <= x <= ABS_MAX,
    ensures
        r@ == spec_fmt_scalar(x as int),
{
    let mut v: Vec<char> = Vec::new();
    let m: i64 = if x < 0 {
        v.push('-');
        -x
    } else {
        x
    };
    let ip = m / SCALE;
    let fp = m % SCALE;
    let mut ipd = fmt_nat(ip);
    v.append(&mut ipd);
    if fp != 0 {
        v.push('.');
        let mut fd = fmt_frac(fp);
        v.append(&mut fd);
        proof {
            let sign: Seq<char> = if x < 0 {
                seq!['-']
            } else {
                Seq::<char>::empty()
            };
            assert(v@ =~= sign + spec_fmt_nat(ip as int) + seq!['.'] + spec_fmt_frac(fp as int));
        }
    } else {
        proof {
            let sign: Seq<char> = if x < 0 {
                seq!['-']
            } else {
                Seq::<char>::empty()
            };
            assert(v@ =~= sign + spec_fmt_nat(ip as int));
        }
    }
    v
}

/// Appends one vertex's text to the builder.
fn append_vertex(e: &mut ecow::EcoString, v: Vertex)
    requires
        v.wf(),
    ensures
        eco_chars(*final(e)) == eco_chars(*old(e)) + spec_vertex_repr(v),
{
    let cx = fmt_scalar(v.x);
    let sx = string_of(&cx);
    eco_push_str(e, sx.as_str());
    eco_push_str(e, ", ");
    let cy = fmt_scalar(v.y);
    let sy = string_of(&cy);
    eco_push_str(e, sy.as_str());
    proof {
        reveal_strlit(", ");
        assert(", "@ =~= seq![',', ' ']);
        assert(eco_chars(*e) =~= eco_chars(*old(e)) + spec_vertex_repr(v));
    }
}

impl Polygon {
    /// The canonical text of this polygon: each vertex as `x, y`, vertices
    /// joined by `; `, and `()` when there are none.
    pub fn repr(&self) -> (r: ecow::EcoString)
        requires
            self.wf(),
        ensures
            eco_chars(r) == spec_polygon_repr(self.vertices@),
    {
        let ghost vs = self.vertices@;
        let n = self.vertices.len();
        if n == 0 {
            let r = eco_from_str("()");
            proof {
                reveal_strlit("()");
                assert("()"@ =~= seq!['(', ')']);
            }
            return r;
        }
        let mut r = eco_new();
        append_vertex(&mut r, self.vertices[0]);
        proof {
            assert(vs.take(1)[0] == vs[0]);
            assert(Seq::<char>::empty() + spec_vertex_repr(vs[0]) =~= spec_vertex_repr(vs[0]));
            assert(eco_chars(r) == spec_polygon_repr(vs.take(1)));
        }
        let mut i: usize = 1;
        while i < n
            invariant
                1 <= i <= n,
                n == vs.len(),
                vs == self.vertices@,
                verts_wf(vs),
                eco_chars(r) == spec_polygon_repr(vs.take(i as int)),
            decreases n - i,
        {
            eco_push_str(&mut r, "; ");
            append_vertex(&mut r, self.vertices[i]);
            proof {
                reveal_strlit("; ");
                assert("; "@ =~= seq![';', ' ']);
                let w = vs.take(i as int + 1);
                assert(w.drop_last() =~= vs.take(i as int));
                assert(w.last() == vs[i as int]);
                assert(w.len() >= 2);
                assert(eco_chars(r) =~= spec_polygon_repr(vs.take(i as int)) + seq![';', ' ']
                    + spec_vertex_repr(vs[i as int]));
            }
            i = i + 1;
        }
        proof {
            assert(vs.take(n as int) =~= vs);
        }
        r
    }
}

} // verus!

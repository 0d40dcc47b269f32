//! Parsing IPv4 and IPv6 addresses from text, by the grammar that std's
//! `Ipv4Addr` and `Ipv6Addr` parsers accept: a run of digits is read whole,
//! an IPv6 group holds one to four hexadecimal digits of either case, an IPv4
//! octet one to three decimal digits without a leading zero, `::` stands for
//! the groups left out, and the last two groups may be written as an IPv4
//! address.

use vstd::prelude::*;
use crate::net::{
    Ipv4Address, Ipv6Address, hex_groups, ipv4_text, ipv6_text, is_first_zero_start, is_ipv4_mapped,
    is_longest_zero_len, longest_zero_len, longest_zero_start, mapped_octets, zero_window,
};
use crate::text::{decimal_text, digit_char, digit_chars, hex_text};

verus! {

/// The value of a digit in base 10, or in base 16 with either case; -1 for
/// any other character.
pub open spec fn digit_value(c: char, hex: bool) -> int {
    let x = c as int;
    if 48 <= x <= 57 {
        x - 48
    } else if hex && 97 <= x <= 102 {
        x - 87
    } else if hex && 65 <= x <= 70 {
        x - 55
    } else {
        -1
    }
}

/// `c` is a digit of the base.
pub open spec fn is_digit(c: char, hex: bool) -> bool {
    digit_value(c, hex) >= 0
}

/// The length of the run of digits that starts at `p`.
pub open spec fn run_len(t: Seq<char>, p: int, hex: bool) -> int
    decreases t.len() - p,
{
    if 0 <= p < t.len() && is_digit(t[p], hex) {
        1 + run_len(t, p + 1, hex)
    } else {
        0
    }
}

/// The value of the `k` digits at `p`, most significant first.
pub open spec fn run_value(t: Seq<char>, p: int, k: int, hex: bool) -> int
    decreases k,
{
    if k <= 0 {
        0
    } else {
        let v = run_value(t, p, k - 1, hex);
        (if hex { v * 16 } else { v * 10 }) + digit_value(t[p + k - 1], hex)
    }
}

/// A number at `p`: the whole run of digits there, which must hold at least
/// one and at most `max` digits, and no leading zero before other digits
/// unless `zero_prefix`; its value and the position after it.
pub open spec fn read_number(t: Seq<char>, p: int, hex: bool, max: int, zero_prefix: bool) -> Option<(int, int)> {
    let k = run_len(t, p, hex);
    if k == 0 || k > max || (!zero_prefix && t[p] == '0' && k > 1) {
        None
    } else {
        Some((run_value(t, p, k, hex), p + k))
    }
}

/// An IPv4 octet at `p`: up to three decimal digits, no leading zero, at
/// most 255.
pub open spec fn read_octet(t: Seq<char>, p: int) -> Option<(int, int)> {
    match read_number(t, p, false, 3, false) {
        Some((v, q)) => if v <= 255 {
            Some((v, q))
        } else {
            None
        },
        None => None,
    }
}

/// `t[p]` is the character `c`.
pub open spec fn char_at(t: Seq<char>, p: int, c: char) -> bool {
    0 <= p < t.len() && t[p] == c
}

/// An IPv4 address at `p`: four octets separated by dots; its octets and the
/// position after it.
pub open spec fn read_ipv4_at(t: Seq<char>, p: int) -> Option<(Seq<u8>, int)> {
    match read_octet(t, p) {
        None => None,
        Some((a, p1)) => if !char_at(t, p1, '.') {
            None
        } else {
            match read_octet(t, p1 + 1) {
                None => None,
                Some((b, p2)) => if !char_at(t, p2, '.') {
                    None
                } else {
                    match read_octet(t, p2 + 1) {
                        None => None,
                        Some((c, p3)) => if !char_at(t, p3, '.') {
                            None
                        } else {
                            match read_octet(t, p3 + 1) {
                                None => None,
                                Some((d, p4)) => Some((seq![a as u8, b as u8, c as u8, d as u8], p4)),
                            }
                        },
                    }
                },
            }
        },
    }
}

/// Where group `i` starts when the text so far ends at `p`: right there for
/// the first group, after a colon for the others.
pub open spec fn after_sep(t: Seq<char>, p: int, i: int) -> Option<int> {
    if i == 0 {
        Some(p)
    } else if char_at(t, p, ':') {
        Some(p + 1)
    } else {
        None
    }
}

/// An IPv4 address read as group `i`: it fills two groups, so it is tried
/// only where two groups are left.
pub open spec fn embedded_ipv4(t: Seq<char>, p: int, i: int, limit: int) -> Option<(Seq<u8>, int)> {
    if i < limit - 1 {
        match after_sep(t, p, i) {
            Some(q) => read_ipv4_at(t, q),
            None => None,
        }
    } else {
        None
    }
}

/// Group `i` as one to four hexadecimal digits.
pub open spec fn hex_group(t: Seq<char>, p: int, i: int) -> Option<(int, int)> {
    match after_sep(t, p, i) {
        Some(q) => read_number(t, q, true, 4, true),
        None => None,
    }
}

/// Groups `i` up to `limit` from `p`, as many as can be read: the groups, the
/// position after them, and whether the last two came from an IPv4 address,
/// which ends the groups.
pub open spec fn read_groups(t: Seq<char>, p: int, i: int, limit: int) -> (Seq<u16>, int, bool)
    decreases limit - i,
{
    if i >= limit {
        (seq![], p, false)
    } else {
        match embedded_ipv4(t, p, i, limit) {
            Some((o, q)) => (
                seq![(o[0] as int * 256 + o[1] as int) as u16, (o[2] as int * 256 + o[3] as int) as u16],
                q,
                true,
            ),
            None => match hex_group(t, p, i) {
                Some((v, q)) => {
                    let rest = read_groups(t, q, i + 1, limit);
                    (seq![v as u16] + rest.0, rest.1, rest.2)
                },
                None => (seq![], p, false),
            },
        }
    }
}

/// `n` zero groups.
pub open spec fn zero_groups(n: int) -> Seq<u16> {
    Seq::new(n as nat, |k: int| 0u16)
}

/// The IPv4 address that `t` is, if it is one.
pub open spec fn parse_v4(t: Seq<char>) -> Option<Seq<u8>> {
    match read_ipv4_at(t, 0) {
        Some((o, q)) => if q == t.len() {
            Some(o)
        } else {
            None
        },
        None => None,
    }
}

/// The IPv6 address that `t` is, if it is one: eight groups, or fewer groups
/// around a `::` that stands for the zero groups left out (at least one).
pub open spec fn parse_v6(t: Seq<char>) -> Option<Seq<u16>> {
    let head = read_groups(t, 0, 0, 8);
    if head.0.len() == 8 {
        if head.1 == t.len() {
            Some(head.0)
        } else {
            None
        }
    } else if head.2 {
        None
    } else if !(char_at(t, head.1, ':') && char_at(t, head.1 + 1, ':')) {
        None
    } else {
        let tail = read_groups(t, head.1 + 2, 0, 7 - head.0.len());
        if tail.1 == t.len() {
            Some(head.0 + zero_groups(8 - head.0.len() - tail.0.len()) + tail.0)
        } else {
            None
        }
    }
}

/// `w` stands in `t` at `p`.
pub open spec fn text_at(t: Seq<char>, p: int, w: Seq<char>) -> bool {
    &&& 0 <= p
    &&& p + w.len() <= t.len()
    &&& forall|k: int| 0 <= k < w.len() ==> #[trigger] t[p + k] == w[k]
}

/// No run of digits of the base goes on at `e`.
pub open spec fn run_ends(t: Seq<char>, e: int, hex: bool) -> bool {
    e == t.len() || !is_digit(t[e], hex)
}

/// `t` holds no dot.
pub open spec fn no_dot(t: Seq<char>) -> bool {
    forall|k: int| 0 <= k < t.len() ==> #[trigger] t[k] != '.'
}

/// Where `a + b` stands, `a` stands and `b` follows it.
proof fn lemma_text_at_split(t: Seq<char>, p: int, a: Seq<char>, b: Seq<char>)
    requires
        text_at(t, p, a + b),
    ensures
        text_at(t, p, a),
        text_at(t, p + a.len(), b),
{
    assert forall|k: int| 0 <= k < a.len() implies #[trigger] t[p + k] == a[k] by {
        assert(t[p + k] == (a + b)[k]);
    }
    assert forall|k: int| 0 <= k < b.len() implies #[trigger] t[p + a.len() + k] == b[k] by {
        assert(t[p + (a.len() + k)] == (a + b)[a.len() + k]);
    }
}

/// The lower-case digits and their values.
proof fn lemma_digit_char(d: nat)
    requires
        d < 16,
    ensures
        is_digit(digit_char(d), true),
        digit_value(digit_char(d), true) == d,
        d < 10 ==> is_digit(digit_char(d), false) && digit_value(digit_char(d), false) == d,
        (digit_char(d) == '0') == (d == 0),
{
    let s = digit_chars();
    if d == 0 { assert(s[0] == '0'); }
    else if d == 1 { assert(s[1] == '1'); }
    else if d == 2 { assert(s[2] == '2'); }
    else if d == 3 { assert(s[3] == '3'); }
    else if d == 4 { assert(s[4] == '4'); }
    else if d == 5 { assert(s[5] == '5'); }
    else if d == 6 { assert(s[6] == '6'); }
    else if d == 7 { assert(s[7] == '7'); }
    else if d == 8 { assert(s[8] == '8'); }
    else if d == 9 { assert(s[9] == '9'); }
    else if d == 10 { assert(s[10] == 'a'); }
    else if d == 11 { assert(s[11] == 'b'); }
    else if d == 12 { assert(s[12] == 'c'); }
    else if d == 13 { assert(s[13] == 'd'); }
    else if d == 14 { assert(s[14] == 'e'); }
    else { assert(s[15] == 'f'); }
}

/// A decimal numeral: digits only, one to three of them below 1000, and no
/// leading zero.
proof fn lemma_decimal_shape(n: nat)
    ensures
        decimal_text(n).len() >= 1,
        forall|k: int| 0 <= k < decimal_text(n).len() ==> is_digit(#[trigger] decimal_text(n)[k], false),
        n < 10 ==> decimal_text(n).len() == 1,
        n < 100 ==> decimal_text(n).len() <= 2,
        n < 1000 ==> decimal_text(n).len() <= 3,
        n >= 1 ==> decimal_text(n)[0] != '0',
    decreases n,
{
    if n < 10 {
        lemma_digit_char(n);
    } else {
        lemma_decimal_shape(n / 10);
        lemma_digit_char(n % 10);
        let a = decimal_text(n / 10);
        assert(decimal_text(n) == a.push(digit_char(n % 10)));
        assert forall|k: int| 0 <= k < decimal_text(n).len() implies is_digit(#[trigger] decimal_text(n)[k], false) by {
            if k < a.len() {
                assert(decimal_text(n)[k] == a[k]);
            }
        }
    }
}

/// A hexadecimal numeral: digits only, one to four of them below 65536.
proof fn lemma_hex_shape(n: nat)
    ensures
        hex_text(n).len() >= 1,
        forall|k: int| 0 <= k < hex_text(n).len() ==> is_digit(#[trigger] hex_text(n)[k], true),
        n < 16 ==> hex_text(n).len() == 1,
        n < 256 ==> hex_text(n).len() <= 2,
        n < 4096 ==> hex_text(n).len() <= 3,
        n < 65536 ==> hex_text(n).len() <= 4,
    decreases n,
{
    if n < 16 {
        lemma_digit_char(n);
    } else {
        lemma_hex_shape(n / 16);
        lemma_digit_char(n % 16);
        let a = hex_text(n / 16);
        assert(hex_text(n) == a.push(digit_char(n % 16)));
        assert forall|k: int| 0 <= k < hex_text(n).len() implies is_digit(#[trigger] hex_text(n)[k], true) by {
            if k < a.len() {
                assert(hex_text(n)[k] == a[k]);
            }
        }
    }
}

/// The digits of a decimal numeral read back as its value.
proof fn lemma_decimal_value(t: Seq<char>, q: int, n: nat)
    requires
        text_at(t, q, decimal_text(n)),
    ensures
        run_value(t, q, decimal_text(n).len() as int, false) == n,
    decreases n,
{
    lemma_decimal_shape(n);
    if n < 10 {
        lemma_digit_char(n);
        assert(decimal_text(n) == seq![digit_char(n)]);
        assert(t[q + 0] == decimal_text(n)[0]);
        assert(run_value(t, q, 0, false) == 0);
        assert(run_value(t, q, 1, false) == run_value(t, q, 0, false) * 10 + digit_value(t[q + 1 - 1], false));
    } else {
        let a = decimal_text(n / 10);
        lemma_digit_char(n % 10);
        assert(decimal_text(n) == a.push(digit_char(n % 10)));
        assert forall|k: int| 0 <= k < a.len() implies #[trigger] t[q + k] == a[k] by {
            assert(t[q + k] == decimal_text(n)[k]);
        }
        lemma_decimal_value(t, q, n / 10);
        let l = a.len() as int;
        assert(t[q + l] == decimal_text(n)[l]);
        assert(run_value(t, q, l + 1, false) == run_value(t, q, l, false) * 10 + digit_value(t[q + (l + 1) - 1], false));
        assert((n / 10) * 10 + n % 10 == n);
    }
}

/// The digits of a hexadecimal numeral read back as its value.
proof fn lemma_hex_value(t: Seq<char>, q: int, n: nat)
    requires
        text_at(t, q, hex_text(n)),
    ensures
        run_value(t, q, hex_text(n).len() as int, true) == n,
    decreases n,
{
    lemma_hex_shape(n);
    if n < 16 {
        lemma_digit_char(n);
        assert(hex_text(n) == seq![digit_char(n)]);
        assert(t[q + 0] == hex_text(n)[0]);
        assert(run_value(t, q, 0, true) == 0);
        assert(run_value(t, q, 1, true) == run_value(t, q, 0, true) * 16 + digit_value(t[q + 1 - 1], true));
    } else {
        let a = hex_text(n / 16);
        lemma_digit_char(n % 16);
        assert(hex_text(n) == a.push(digit_char(n % 16)));
        assert forall|k: int| 0 <= k < a.len() implies #[trigger] t[q + k] == a[k] by {
            assert(t[q + k] == hex_text(n)[k]);
        }
        lemma_hex_value(t, q, n / 16);
        let l = a.len() as int;
        assert(t[q + l] == hex_text(n)[l]);
        assert(run_value(t, q, l + 1, true) == run_value(t, q, l, true) * 16 + digit_value(t[q + (l + 1) - 1], true));
        assert((n / 16) * 16 + n % 16 == n);
    }
}

/// An octet's numeral, followed by no digit, reads as the octet.
proof fn lemma_read_octet_text(t: Seq<char>, q: int, n: nat)
    requires
        n <= 255,
        text_at(t, q, decimal_text(n)),
        run_ends(t, q + decimal_text(n).len(), false),
    ensures
        read_octet(t, q) == Some((n as int, q + decimal_text(n).len())),
{
    let w = decimal_text(n);
    lemma_decimal_shape(n);
    assert forall|j: int| q <= j < q + w.len() implies is_digit(#[trigger] t[j], false) by {
        assert(t[q + (j - q)] == w[j - q]);
    }
    lemma_run(t, q, w.len() as int, false);
    lemma_decimal_value(t, q, n);
    if w.len() > 1 {
        assert(t[q + 0] == w[0]);
    }
}

/// A group's numeral, followed by no hexadecimal digit, reads as the group.
proof fn lemma_read_hex_text(t: Seq<char>, q: int, n: nat)
    requires
        n < 65536,
        text_at(t, q, hex_text(n)),
        run_ends(t, q + hex_text(n).len(), true),
    ensures
        read_number(t, q, true, 4, true) == Some((n as int, q + hex_text(n).len())),
{
    let w = hex_text(n);
    lemma_hex_shape(n);
    assert forall|j: int| q <= j < q + w.len() implies is_digit(#[trigger] t[j], true) by {
        assert(t[q + (j - q)] == w[j - q]);
    }
    lemma_run(t, q, w.len() as int, true);
    lemma_hex_value(t, q, n);
}

/// An IPv4 address's text, running to the end, reads as the address.
proof fn lemma_read_ipv4_text(t: Seq<char>, q: int, o: Seq<u8>)
    requires
        o.len() == 4,
        text_at(t, q, ipv4_text(o)),
        q + ipv4_text(o).len() == t.len(),
    ensures
        read_ipv4_at(t, q) == Some((o, t.len() as int)),
{
    let d0 = decimal_text(o[0] as nat);
    let d1 = decimal_text(o[1] as nat);
    let d2 = decimal_text(o[2] as nat);
    let d3 = decimal_text(o[3] as nat);
    let dot = seq!['.'];
    assert(ipv4_text(o) == d0 + dot + d1 + dot + d2 + dot + d3);
    lemma_text_at_split(t, q, d0 + dot + d1 + dot + d2 + dot, d3);
    lemma_text_at_split(t, q, d0 + dot + d1 + dot + d2, dot);
    lemma_text_at_split(t, q, d0 + dot + d1 + dot, d2);
    lemma_text_at_split(t, q, d0 + dot + d1, dot);
    lemma_text_at_split(t, q, d0 + dot, d1);
    lemma_text_at_split(t, q, d0, dot);
    let p1 = q + d0.len();
    let p2 = p1 + 1 + d1.len();
    let p3 = p2 + 1 + d2.len();
    let p4 = p3 + 1 + d3.len();
    assert(t[p1 + 0] == dot[0]);
    assert(t[p2 + 0] == dot[0]);
    assert(t[p3 + 0] == dot[0]);
    lemma_read_octet_text(t, q, o[0] as nat);
    lemma_read_octet_text(t, p1 + 1, o[1] as nat);
    lemma_read_octet_text(t, p2 + 1, o[2] as nat);
    lemma_read_octet_text(t, p3 + 1, o[3] as nat);
    assert(seq![o[0] as int as u8, o[1] as int as u8, o[2] as int as u8, o[3] as int as u8] =~= o);
}

/// An IPv4 address's textual form parses back to it.
pub proof fn lemma_parse_ipv4_text(o: Seq<u8>)
    requires
        o.len() == 4,
    ensures
        parse_v4(ipv4_text(o)) == Some(o),
{
    let t = ipv4_text(o);
    lemma_read_ipv4_text(t, 0, o);
}

/// The digits of a run are digits.
proof fn lemma_run_digits(t: Seq<char>, p: int, hex: bool)
    requires
        0 <= p,
    ensures
        p + run_len(t, p, hex) <= t.len() || run_len(t, p, hex) == 0,
        forall|j: int| p <= j < p + run_len(t, p, hex) ==> is_digit(#[trigger] t[j], hex),
    decreases t.len() - p,
{
    if 0 <= p < t.len() && is_digit(t[p], hex) {
        lemma_run_digits(t, p + 1, hex);
        lemma_run_len_nonneg(t, p + 1, hex);
    }
}

/// The decimal digit whose value is `d`.
proof fn lemma_decimal_char(c: char)
    requires
        is_digit(c, false),
    ensures
        0 <= digit_value(c, false) < 10,
        c == digit_char(digit_value(c, false) as nat),
        (c == '0') == (digit_value(c, false) == 0),
{
    let d = digit_value(c, false);
    lemma_digit_char(d as nat);
    assert(digit_char(d as nat) as int == c as int);
}

/// Decimal digits with no leading zero before other digits are the numeral
/// of their value.
proof fn lemma_digits_are_numeral(t: Seq<char>, p: int, k: int)
    requires
        1 <= k,
        0 <= p,
        p + k <= t.len(),
        forall|j: int| p <= j < p + k ==> is_digit(#[trigger] t[j], false),
        k == 1 || t[p] != '0',
    ensures
        run_value(t, p, k, false) >= 0,
        k >= 2 ==> run_value(t, p, k, false) >= 10,
        t.subrange(p, p + k) == decimal_text(run_value(t, p, k, false) as nat),
    decreases k,
{
    let v = run_value(t, p, k, false);
    let c = t[p + k - 1];
    assert(is_digit(c, false));
    lemma_decimal_char(c);
    let d = digit_value(c, false);
    if k == 1 {
        assert(run_value(t, p, 0, false) == 0);
        assert(v == d);
        assert(t.subrange(p, p + 1) =~= seq![c]);
    } else {
        lemma_digits_are_numeral(t, p, k - 1);
        let w = run_value(t, p, k - 1, false);
        if k - 1 == 1 {
            lemma_decimal_char(t[p]);
            assert(run_value(t, p, 0, false) == 0);
            assert(w == digit_value(t[p], false));
        }
        assert(w >= 1);
        assert(v == w * 10 + d);
        assert(v / 10 == w);
        assert(v % 10 == d);
        assert(decimal_text(v as nat) == decimal_text(w as nat).push(digit_char(d as nat)));
        assert(t.subrange(p, p + k) =~= t.subrange(p, p + k - 1).push(c));
    }
}

/// An octet as read is the numeral of its value.
proof fn lemma_octet_is_numeral(t: Seq<char>, p: int)
    requires
        0 <= p,
        read_octet(t, p) is Some,
    ensures
        ({
            let (v, q) = read_octet(t, p)->0;
            &&& 0 <= v <= 255
            &&& p < q <= t.len()
            &&& t.subrange(p, q) == decimal_text(v as nat)
        }),
{
    let k = run_len(t, p, false);
    lemma_run_len_nonneg(t, p, false);
    lemma_run_digits(t, p, false);
    assert(read_number(t, p, false, 3, false) is Some);
    assert(k >= 1 && k <= 3);
    assert(k == 1 || t[p] != '0');
    lemma_digits_are_numeral(t, p, k);
    assert(read_number(t, p, false, 3, false)->0 == (run_value(t, p, k, false), p + k));
}

/// Only an IPv4 address's textual form parses to it: IPv4 text is read in
/// canonical form only.
pub proof fn lemma_parse_ipv4_canonical(t: Seq<char>)
    requires
        parse_v4(t) is Some,
    ensures
        ipv4_text(parse_v4(t)->0) == t,
{
    let (a, p1) = read_octet(t, 0)->0;
    lemma_octet_is_numeral(t, 0);
    let (b, p2) = read_octet(t, p1 + 1)->0;
    lemma_octet_is_numeral(t, p1 + 1);
    let (c, p3) = read_octet(t, p2 + 1)->0;
    lemma_octet_is_numeral(t, p2 + 1);
    let (d, p4) = read_octet(t, p3 + 1)->0;
    lemma_octet_is_numeral(t, p3 + 1);
    let o = parse_v4(t)->0;
    assert(o == seq![a as u8, b as u8, c as u8, d as u8]);
    assert(o[0] as nat == a && o[1] as nat == b && o[2] as nat == c && o[3] as nat == d);
    let dot = seq!['.'];
    assert(t =~= t.subrange(0, p1) + dot + t.subrange(p1 + 1, p2) + dot + t.subrange(p2 + 1, p3) + dot
        + t.subrange(p3 + 1, p4));
}

/// Text without a dot holds no IPv4 address.
proof fn lemma_no_dot_no_ipv4(t: Seq<char>, q: int)
    requires
        no_dot(t),
    ensures
        read_ipv4_at(t, q) is None,
{
}

/// Groups each after a colon: `:g0:g1...`.
pub open spec fn sep_groups(g: Seq<u16>) -> Seq<char>
    decreases g.len(),
{
    if g.len() == 0 {
        seq![]
    } else {
        seq![':'] + hex_text(g[0] as nat) + sep_groups(g.drop_first())
    }
}

/// Groups separated by colons, first to last.
pub open spec fn groups_text(g: Seq<u16>) -> Seq<char> {
    if g.len() == 0 {
        seq![]
    } else {
        hex_text(g[0] as nat) + sep_groups(g.drop_first())
    }
}

proof fn lemma_sep_groups_push(x: Seq<u16>, y: u16)
    ensures
        sep_groups(x.push(y)) == sep_groups(x) + seq![':'] + hex_text(y as nat),
    decreases x.len(),
{
    if x.len() == 0 {
        let xy = x.push(y);
        assert(xy.drop_first() =~= Seq::<u16>::empty());
        assert(xy[0] == y);
        assert(sep_groups(xy.drop_first()) == Seq::<char>::empty());
        assert(sep_groups(xy) == seq![':'] + hex_text(y as nat) + sep_groups(xy.drop_first()));
        assert(sep_groups(x) == Seq::<char>::empty());
        assert(sep_groups(xy) =~= sep_groups(x) + seq![':'] + hex_text(y as nat));
    } else {
        let xy = x.push(y);
        assert(xy.drop_first() =~= x.drop_first().push(y));
        assert(xy[0] == x[0]);
        lemma_sep_groups_push(x.drop_first(), y);
        let h = seq![':'] + hex_text(x[0] as nat);
        assert(sep_groups(xy) == h + sep_groups(xy.drop_first()));
        assert(sep_groups(x) == h + sep_groups(x.drop_first()));
        assert(sep_groups(xy) =~= sep_groups(x) + seq![':'] + hex_text(y as nat));
    }
}

/// `hex_groups`, built from the last group, is the same text built from the
/// first.
proof fn lemma_hex_groups_front(g: Seq<u16>)
    ensures
        hex_groups(g) == groups_text(g),
    decreases g.len(),
{
    if g.len() >= 2 {
        let a = g.drop_last();
        lemma_hex_groups_front(a);
        lemma_sep_groups_push(a.drop_first(), g.last());
        assert(a.drop_first().push(g.last()) =~= g.drop_first());
        assert(hex_groups(g) =~= groups_text(g));
    } else if g.len() == 1 {
        assert(g.drop_first() =~= Seq::<u16>::empty());
        assert(hex_groups(g) =~= groups_text(g));
    }
}

/// `hex_groups` holds hexadecimal digits and colons only.
proof fn lemma_hex_groups_chars(g: Seq<u16>)
    ensures
        forall|k: int| 0 <= k < hex_groups(g).len() ==> #[trigger] hex_groups(g)[k] == ':' || is_digit(
            hex_groups(g)[k],
            true,
        ),
    decreases g.len(),
{
    if g.len() == 1 {
        lemma_hex_shape(g[0] as nat);
    } else if g.len() >= 2 {
        lemma_hex_groups_chars(g.drop_last());
        lemma_hex_shape(g.last() as nat);
        let a = hex_groups(g.drop_last());
        let b = hex_text(g.last() as nat);
        assert(hex_groups(g) == a + seq![':'] + b);
        assert forall|k: int| 0 <= k < hex_groups(g).len() implies #[trigger] hex_groups(g)[k] == ':' || is_digit(
            hex_groups(g)[k],
            true,
        ) by {
            if k < a.len() {
                assert(hex_groups(g)[k] == a[k]);
            } else if k > a.len() {
                assert(hex_groups(g)[k] == b[k - a.len() - 1]);
            }
        }
    }
}

/// Groups after colons read back, up to where no further group follows.
proof fn lemma_read_sep_groups(t: Seq<char>, p: int, i: int, limit: int, g: Seq<u16>)
    requires
        1 <= i,
        i + g.len() <= limit,
        text_at(t, p, sep_groups(g)),
        no_dot(t),
        run_ends(t, p + sep_groups(g).len(), true),
        i + g.len() == limit || !(char_at(t, p + sep_groups(g).len(), ':') && run_len(
            t,
            p + sep_groups(g).len() + 1,
            true,
        ) > 0),
    ensures
        read_groups(t, p, i, limit) == (g, p + sep_groups(g).len(), false),
    decreases g.len(),
{
    lemma_no_dot_no_ipv4(t, p);
    lemma_no_dot_no_ipv4(t, p + 1);
    lemma_run_len_nonneg(t, p + 1, true);
    if g.len() == 0 {
        if i < limit {
            assert(hex_group(t, p, i) is None);
        }
    } else {
        let g0 = g[0];
        let rest = g.drop_first();
        let w = hex_text(g0 as nat);
        assert(sep_groups(g) == seq![':'] + w + sep_groups(rest));
        lemma_text_at_split(t, p, seq![':'] + w, sep_groups(rest));
        lemma_text_at_split(t, p, seq![':'], w);
        assert(t[p + 0] == ':');
        let q = p + 1 + w.len();
        if rest.len() > 0 {
            assert(sep_groups(rest) == seq![':'] + hex_text(rest[0] as nat) + sep_groups(rest.drop_first()));
            assert(t[q + 0] == sep_groups(rest)[0]);
        }
        lemma_read_hex_text(t, p + 1, g0 as nat);
        lemma_read_sep_groups(t, q, i + 1, limit, rest);
        assert(seq![g0 as int as u16] + rest =~= g);
    }
}

/// Groups separated by colons read back, up to where no further group
/// follows.
proof fn lemma_read_groups_text(t: Seq<char>, p: int, limit: int, g: Seq<u16>)
    requires
        g.len() <= limit,
        text_at(t, p, groups_text(g)),
        no_dot(t),
        run_ends(t, p + groups_text(g).len(), true),
        g.len() == limit || !(char_at(t, p + groups_text(g).len(), ':') && run_len(
            t,
            p + groups_text(g).len() + 1,
            true,
        ) > 0),
    ensures
        read_groups(t, p, 0, limit) == (g, p + groups_text(g).len(), false),
{
    lemma_no_dot_no_ipv4(t, p);
    if g.len() == 0 {
        if 0 < limit {
            assert(run_len(t, p, true) == 0);
            assert(hex_group(t, p, 0) is None);
        }
    } else {
        let g0 = g[0];
        let rest = g.drop_first();
        let w = hex_text(g0 as nat);
        lemma_text_at_split(t, p, w, sep_groups(rest));
        let q = p + w.len();
        if rest.len() > 0 {
            assert(sep_groups(rest) == seq![':'] + hex_text(rest[0] as nat) + sep_groups(rest.drop_first()));
            assert(t[q + 0] == sep_groups(rest)[0]);
        }
        lemma_read_hex_text(t, p, g0 as nat);
        lemma_read_sep_groups(t, q, 1, limit, rest);
        assert(seq![g0 as int as u16] + rest =~= g);
    }
}

/// The scan for the first longest run of zero groups finds one: the
/// longest length and its first start exist.
proof fn lemma_zero_scan(s: Seq<u16>, i: int, cur: int, bs: int, bl: int)
    requires
        s.len() == 8,
        0 <= i <= 8,
        0 <= cur <= i,
        zero_window(s, i - cur, cur),
        cur < i ==> s[i - cur - 1] != 0,
        zero_window(s, bs, bl),
        bs + bl <= i,
        forall|st: int, l: int| #[trigger] zero_window(s, st, l) && st + l <= i ==> l <= bl,
        forall|st: int| 0 <= st < bs && st + bl <= i ==> !zero_window(s, st, bl),
    ensures
        is_longest_zero_len(s, longest_zero_len(s)),
        is_first_zero_start(s, longest_zero_start(s), longest_zero_len(s)),
    decreases 8 - i,
{
    if i == 8 {
        assert(is_longest_zero_len(s, bl));
        let l2 = longest_zero_len(s);
        assert(is_longest_zero_len(s, l2));
        let st2 = choose|st: int| zero_window(s, st, l2);
        assert(zero_window(s, st2, l2));
        assert(l2 == bl);
        assert(is_first_zero_start(s, bs, bl));
    } else {
        let ncur = if s[i] == 0 { cur + 1 } else { 0 };
        let grows = s[i] == 0 && ncur > bl;
        let nbs = if grows { i + 1 - ncur } else { bs };
        let nbl = if grows { ncur } else { bl };
        if s[i] == 0 {
            assert(zero_window(s, i + 1 - ncur, ncur));
        }
        assert forall|st: int, l: int| #[trigger] zero_window(s, st, l) && st + l <= i + 1 implies l <= nbl by {
            if st + l == i + 1 && l > 0 {
                assert(s[i] == 0);
                if l > ncur {
                    let k = i - cur;
                    assert(st <= k - 1 < st + l);
                    assert(s[k - 1] == 0);
                }
            }
        }
        assert forall|st: int| 0 <= st < nbs && st + nbl <= i + 1 implies !zero_window(s, st, nbl) by {
            if zero_window(s, st, nbl) {
                assert(st + nbl <= i);
            }
        }
        lemma_zero_scan(s, i + 1, ncur, nbs, nbl);
    }
}

/// Every address has a longest run of zero groups and a first place where
/// one starts.
proof fn lemma_longest_zero(s: Seq<u16>)
    requires
        s.len() == 8,
    ensures
        is_longest_zero_len(s, longest_zero_len(s)),
        is_first_zero_start(s, longest_zero_start(s), longest_zero_len(s)),
{
    lemma_zero_scan(s, 0, 0, 0, 0);
}

/// The textual form of an IPv4-mapped address parses back to it.
#[verifier::spinoff_prover]
#[verifier::rlimit(60)]
proof fn lemma_parse_mapped_text(s: Seq<u16>)
    requires
        s.len() == 8,
        is_ipv4_mapped(s),
    ensures
        parse_v6(ipv6_text(s)) == Some(s),
{
    let t = ipv6_text(s);
    let o = mapped_octets(s);
    let pre = seq![':', ':', 'f', 'f', 'f', 'f', ':'];
    assert(t == pre + ipv4_text(o));
    lemma_text_at_split(t, 0, pre, ipv4_text(o));
    assert(t[0int + 0] == pre[0]);
    assert(t[0int + 1] == pre[1]);
    assert(t[0int + 2] == pre[2]);
    assert(t[0int + 3] == pre[3]);
    assert(t[0int + 4] == pre[4]);
    assert(t[0int + 5] == pre[5]);
    assert(t[0int + 6] == pre[6]);
    // No group before the `::`.
    assert(run_len(t, 0, false) == 0);
    assert(run_len(t, 0, true) == 0);
    assert(read_ipv4_at(t, 0) is None);
    assert(read_groups(t, 0, 0, 8) == (Seq::<u16>::empty(), 0int, false));
    // After it: `ffff`, then the IPv4 address.
    assert(run_len(t, 2, false) == 0);
    assert(read_ipv4_at(t, 2) is None);
    lemma_run(t, 2, 4, true);
    assert(t[2] == 'f' && t[3] == 'f' && t[4] == 'f' && t[5] == 'f');
    assert(digit_value('f', true) == 15);
    assert(run_value(t, 2, 0, true) == 0);
    assert(run_value(t, 2, 1, true) == 15);
    assert(run_value(t, 2, 2, true) == 255);
    assert(run_value(t, 2, 3, true) == 4095);
    assert(run_value(t, 2, 4, true) == 65535);
    assert(hex_group(t, 2, 0) == Some((65535int, 6int)));
    lemma_read_ipv4_text(t, 7, o);
    let w1 = (o[0] as int * 256 + o[1] as int) as u16;
    let w2 = (o[2] as int * 256 + o[3] as int) as u16;
    assert(read_groups(t, 6, 1, 7) == (seq![w1, w2], t.len() as int, true));
    assert(read_groups(t, 2, 0, 7) == (seq![65535u16] + seq![w1, w2], t.len() as int, true));
    assert(w1 == s[6]);
    assert(w2 == s[7]);
    assert(zero_groups(5) + (seq![65535u16] + seq![w1, w2]) =~= s);
    assert(Seq::<u16>::empty() + zero_groups(8 - 0 - 3) + (seq![65535u16] + seq![w1, w2]) =~= s);
}

/// The compressed text of two runs of groups holds no dot.
proof fn lemma_compressed_no_dot(h: Seq<u16>, tl: Seq<u16>)
    ensures
        no_dot(hex_groups(h) + seq![':', ':'] + hex_groups(tl)),
{
    let a = hex_groups(h);
    let b = hex_groups(tl);
    let colons = seq![':', ':'];
    let t = a + colons + b;
    lemma_hex_groups_chars(h);
    lemma_hex_groups_chars(tl);
    assert forall|k: int| 0 <= k < t.len() implies #[trigger] t[k] != '.' by {
        if k < a.len() {
            assert(t[k] == a[k]);
        } else if k >= a.len() + 2 {
            assert(t[k] == b[k - a.len() - 2]);
        } else {
            assert(t[k] == colons[k - a.len()]);
        }
    }
}

/// The textual form of an address with a run of two or more zero groups
/// parses back to it.
#[verifier::spinoff_prover]
#[verifier::rlimit(60)]
proof fn lemma_parse_compressed_text(s: Seq<u16>)
    requires
        s.len() == 8,
        !is_ipv4_mapped(s),
        is_longest_zero_len(s, longest_zero_len(s)),
        is_first_zero_start(s, longest_zero_start(s), longest_zero_len(s)),
        longest_zero_len(s) > 1,
    ensures
        parse_v6(ipv6_text(s)) == Some(s),
{
    let t = ipv6_text(s);
    let z = longest_zero_len(s);
    let st = longest_zero_start(s);
    let h = s.subrange(0, st);
    let tl = s.subrange(st + z, 8);
    let a = hex_groups(h);
    let b = hex_groups(tl);
    let colons = seq![':', ':'];
    assert(t == a + colons + b);
    lemma_hex_groups_front(h);
    lemma_hex_groups_front(tl);
    lemma_compressed_no_dot(h, tl);
    lemma_text_at_split(t, 0, a + colons, b);
    lemma_text_at_split(t, 0, a, colons);
    assert(t[a.len() as int + 0] == ':');
    assert(t[a.len() as int + 1] == ':');
    assert(run_len(t, a.len() as int + 1, true) == 0);
    lemma_read_groups_text(t, 0, 8, h);
    lemma_read_groups_text(t, a.len() as int + 2, 7 - st, tl);
    assert(h + zero_groups(8 - h.len() - tl.len()) + tl =~= s);
}

/// An IPv6 address's textual form parses back to it.
pub proof fn lemma_parse_ipv6_text(s: Seq<u16>)
    requires
        s.len() == 8,
    ensures
        parse_v6(ipv6_text(s)) == Some(s),
{
    if is_ipv4_mapped(s) {
        lemma_parse_mapped_text(s);
    } else {
        lemma_longest_zero(s);
        if longest_zero_len(s) > 1 {
            lemma_parse_compressed_text(s);
        } else {
            let t = ipv6_text(s);
            lemma_hex_groups_front(s);
            lemma_hex_groups_chars(s);
            lemma_read_groups_text(t, 0, 8, s);
        }
    }
}

/// No digits at `p` or after.
proof fn lemma_run_len_nonneg(t: Seq<char>, p: int, hex: bool)
    ensures
        run_len(t, p, hex) >= 0,
    decreases t.len() - p,
{
    if 0 <= p < t.len() && is_digit(t[p], hex) {
        lemma_run_len_nonneg(t, p + 1, hex);
    }
}

/// Where `k` digits follow `p`, the run is at least `k` long, and exactly `k`
/// when no digit comes next.
pub proof fn lemma_run(t: Seq<char>, p: int, k: int, hex: bool)
    requires
        0 <= p,
        0 <= k,
        p + k <= t.len(),
        forall|j: int| p <= j < p + k ==> is_digit(#[trigger] t[j], hex),
    ensures
        run_len(t, p, hex) >= k,
        (p + k == t.len() || !is_digit(t[p + k], hex)) ==> run_len(t, p, hex) == k,
    decreases k,
{
    if k == 0 {
        lemma_run_len_nonneg(t, p, hex);
    } else {
        assert(is_digit(t[p], hex));
        lemma_run(t, p + 1, k - 1, hex);
    }
}

/// The value of a digit character.
fn digit_of(c: char, hex: bool) -> (r: Option<u32>)
    ensures
        match r {
            Some(d) => is_digit(c, hex) && d as int == digit_value(c, hex) && d < 16,
            None => !is_digit(c, hex),
        },
{
    let x = c as u32;
    if 48 <= x && x <= 57 {
        Some(x - 48)
    } else if hex && 97 <= x && x <= 102 {
        Some(x - 87)
    } else if hex && 65 <= x && x <= 70 {
        Some(x - 55)
    } else {
        None
    }
}

/// Whether the character at `j` is a digit of the base.
fn digit_at(t: &str, n: usize, j: usize, hex: bool) -> (r: bool)
    requires
        n == t@.len(),
    ensures
        r == (j < n && is_digit(t@[j as int], hex)),
{
    if j < n {
        match digit_of(t.get_char(j), hex) {
            Some(_) => true,
            None => false,
        }
    } else {
        false
    }
}

/// Reads a number at `p` (see `read_number`).
fn read_number_at(t: &str, n: usize, p: usize, hex: bool, max: usize, zero_prefix: bool) -> (r: Option<(u32, usize)>)
    requires
        n == t@.len(),
        p <= n,
        1 <= max <= 4,
    ensures
        match r {
            Some((v, q)) => read_number(t@, p as int, hex, max as int, zero_prefix) == Some((v as int, q as int))
                && q <= n,
            None => read_number(t@, p as int, hex, max as int, zero_prefix) is None,
        },
{
    let mut j = p;
    let mut v: u32 = 0;
    while digit_at(t, n, j, hex)
        invariant
            n == t@.len(),
            p <= j <= n,
            j - p <= max,
            max <= 4,
            forall|k: int| p <= k < j ==> is_digit(#[trigger] t@[k], hex),
            v as int == run_value(t@, p as int, j - p, hex),
            j - p == 0 ==> v == 0,
            j - p <= 1 ==> v < 16,
            j - p <= 2 ==> v < 256,
            j - p <= 3 ==> v < 4096,
            v < 65536,
        decreases n - j,
    {
        let d = match digit_of(t.get_char(j), hex) {
            Some(d) => d,
            None => 0,
        };
        if j - p == max {
            proof {
                lemma_run(t@, p as int, (j - p + 1) as int, hex);
            }
            return None;
        }
        v = if hex {
            v * 16 + d
        } else {
            v * 10 + d
        };
        j = j + 1;
    }
    proof {
        lemma_run(t@, p as int, (j - p) as int, hex);
    }
    if j == p {
        return None;
    }
    if !zero_prefix && j - p > 1 && t.get_char(p) == '0' {
        return None;
    }
    Some((v, j))
}

/// Reads an octet at `p` (see `read_octet`).
fn read_octet_at(t: &str, n: usize, p: usize) -> (r: Option<(u8, usize)>)
    requires
        n == t@.len(),
        p <= n,
    ensures
        match r {
            Some((v, q)) => read_octet(t@, p as int) == Some((v as int, q as int)) && q <= n,
            None => read_octet(t@, p as int) is None,
        },
{
    match read_number_at(t, n, p, false, 3, false) {
        Some((v, q)) => if v <= 255 {
            Some((v as u8, q))
        } else {
            None
        },
        None => None,
    }
}

/// Whether the character at `p` is `c`.
fn is_char_at(t: &str, n: usize, p: usize, c: char) -> (r: bool)
    requires
        n == t@.len(),
    ensures
        r == char_at(t@, p as int, c),
{
    p < n && t.get_char(p) == c
}

/// Reads an IPv4 address at `p` (see `read_ipv4_at`).
fn read_ipv4_at_exec(t: &str, n: usize, p: usize) -> (r: Option<([u8; 4], usize)>)
    requires
        n == t@.len(),
        p <= n,
    ensures
        match r {
            Some((o, q)) => read_ipv4_at(t@, p as int) == Some((o@, q as int)) && q <= n,
            None => read_ipv4_at(t@, p as int) is None,
        },
{
    let (a, p1) = match read_octet_at(t, n, p) {
        Some(x) => x,
        None => return None,
    };
    if !is_char_at(t, n, p1, '.') {
        return None;
    }
    let (b, p2) = match read_octet_at(t, n, p1 + 1) {
        Some(x) => x,
        None => return None,
    };
    if !is_char_at(t, n, p2, '.') {
        return None;
    }
    let (c, p3) = match read_octet_at(t, n, p2 + 1) {
        Some(x) => x,
        None => return None,
    };
    if !is_char_at(t, n, p3, '.') {
        return None;
    }
    let (d, p4) = match read_octet_at(t, n, p3 + 1) {
        Some(x) => x,
        None => return None,
    };
    let o: [u8; 4] = [a, b, c, d];
    assert(o@ =~= seq![a as int as u8, b as int as u8, c as int as u8, d as int as u8]);
    Some((o, p4))
}

/// Where group `i` starts (see `after_sep`).
fn after_sep_at(t: &str, n: usize, p: usize, i: usize) -> (r: Option<usize>)
    requires
        n == t@.len(),
        p <= n,
    ensures
        match r {
            Some(q) => after_sep(t@, p as int, i as int) == Some(q as int) && q <= n,
            None => after_sep(t@, p as int, i as int) is None,
        },
{
    if i == 0 {
        Some(p)
    } else if is_char_at(t, n, p, ':') {
        Some(p + 1)
    } else {
        None
    }
}

/// Reads groups `i` up to `limit` (see `read_groups`).
fn read_groups_at(t: &str, n: usize, p: usize, i: usize, limit: usize) -> (r: (Vec<u16>, usize, bool))
    requires
        n == t@.len(),
        p <= n,
        i <= limit <= 8,
    ensures
        (r.0@, r.1 as int, r.2) == read_groups(t@, p as int, i as int, limit as int),
        r.1 <= n,
        r.0@.len() <= limit - i,
    decreases limit - i,
{
    if i >= limit {
        return (Vec::new(), p, false);
    }
    let start = after_sep_at(t, n, p, i);
    if i + 1 < limit {
        match start {
            Some(q) => match read_ipv4_at_exec(t, n, q) {
                Some((o, q2)) => {
                    let mut g: Vec<u16> = Vec::new();
                    g.push((o[0] as u16) * 256 + o[1] as u16);
                    g.push((o[2] as u16) * 256 + o[3] as u16);
                    assert(g@ =~= seq![
                        (o@[0] as int * 256 + o@[1] as int) as u16,
                        (o@[2] as int * 256 + o@[3] as int) as u16,
                    ]);
                    return (g, q2, true);
                },
                None => {},
            },
            None => {},
        }
    }
    assert(embedded_ipv4(t@, p as int, i as int, limit as int) is None);
    let group = match start {
        Some(q) => read_number_at(t, n, q, true, 4, true),
        None => None,
    };
    match group {
        Some((v, q)) => {
            let (mut rest, e, b) = read_groups_at(t, n, q, i + 1, limit);
            let mut g: Vec<u16> = Vec::new();
            g.push(v as u16);
            g.append(&mut rest);
            (g, e, b)
        },
        None => (Vec::new(), p, false),
    }
}

/// Parses an IPv4 address, as std's `Ipv4Addr` parser does.
pub fn parse_ipv4(t: &str) -> (r: Option<Ipv4Address>)
    ensures
        match r {
            Some(a) => parse_v4(t@) == Some(a.octets@),
            None => parse_v4(t@) is None,
        },
{
    let n = t.unicode_len();
    match read_ipv4_at_exec(t, n, 0) {
        Some((o, q)) => if q == n {
            Some(Ipv4Address { octets: o })
        } else {
            None
        },
        None => None,
    }
}

/// Group `k` of the address made of `head`, zero groups, then `tail`.
fn group_at(head: &Vec<u16>, tail: &Vec<u16>, k: usize) -> (r: u16)
    requires
        head@.len() + tail@.len() <= 8,
        k < 8,
    ensures
        r == (head@ + zero_groups(8 - head@.len() - tail@.len()) + tail@)[k as int],
{
    let h = head.len();
    let z = 8 - head.len() - tail.len();
    if k < h {
        head[k]
    } else if k < h + z {
        0
    } else {
        tail[k - h - z]
    }
}

/// Parses an IPv6 address, as std's `Ipv6Addr` parser does.
pub fn parse_ipv6(t: &str) -> (r: Option<Ipv6Address>)
    ensures
        match r {
            Some(a) => parse_v6(t@) == Some(a.segments@),
            None => parse_v6(t@) is None,
        },
{
    let n = t.unicode_len();
    let (head, p, h4) = read_groups_at(t, n, 0, 0, 8);
    if head.len() == 8 {
        if p == n {
            let s: [u16; 8] = [head[0], head[1], head[2], head[3], head[4], head[5], head[6], head[7]];
            assert(s@ =~= head@);
            return Some(Ipv6Address { segments: s });
        }
        return None;
    }
    if h4 {
        return None;
    }
    if !(is_char_at(t, n, p, ':') && is_char_at(t, n, p + 1, ':')) {
        return None;
    }
    let (tail, q, _) = read_groups_at(t, n, p + 2, 0, 7 - head.len());
    if q != n {
        return None;
    }
    let s: [u16; 8] = [
        group_at(&head, &tail, 0),
        group_at(&head, &tail, 1),
        group_at(&head, &tail, 2),
        group_at(&head, &tail, 3),
        group_at(&head, &tail, 4),
        group_at(&head, &tail, 5),
        group_at(&head, &tail, 6),
        group_at(&head, &tail, 7),
    ];
    assert(s@ =~= head@ + zero_groups(8 - head@.len() - tail@.len()) + tail@);
    Some(Ipv6Address { segments: s })
}

/// A decimal numeral reads back as its value: it is made of decimal digits,
/// begins with `0` only for zero, and its digits' value is the number; the
/// same holds of a hexadecimal numeral.
pub proof fn lemma_numerals_read_back(n: nat)
    ensures
        run_value(decimal_text(n), 0, decimal_text(n).len() as int, false) == n,
        forall|k: int| 0 <= k < decimal_text(n).len() ==> is_digit(#[trigger] decimal_text(n)[k], false),
        n >= 1 ==> decimal_text(n)[0] != '0',
        run_value(hex_text(n), 0, hex_text(n).len() as int, true) == n,
        forall|k: int| 0 <= k < hex_text(n).len() ==> is_digit(#[trigger] hex_text(n)[k], true),
{
    lemma_decimal_shape(n);
    lemma_hex_shape(n);
    let d = decimal_text(n);
    let h = hex_text(n);
    assert forall|k: int| 0 <= k < d.len() implies #[trigger] d[0 + k] == d[k] by {}
    assert forall|k: int| 0 <= k < h.len() implies #[trigger] h[0 + k] == h[k] by {}
    lemma_decimal_value(d, 0, n);
    lemma_hex_value(h, 0, n);
}

} // verus!

//! IPv4 and IPv6 addresses held as plain numbers, with their textual forms.

use vstd::prelude::*;
use crate::text::{decimal_text, hex_text, push_char, push_decimal, push_hex, push_str};

verus! {

/// An IPv4 address as its four octets, most significant first.
#[derive(Clone, Copy, Debug)]
pub struct Ipv4Address {
    pub octets: [u8; 4],
}

/// An IPv6 address as its eight 16-bit segments, most significant first.
#[derive(Clone, Copy, Debug)]
pub struct Ipv6Address {
    pub segments: [u16; 8],
}

/// Dotted-decimal form `a.b.c.d` of four octets.
pub open spec fn ipv4_text(o: Seq<u8>) -> Seq<char> {
    decimal_text(o[0] as nat) + seq!['.'] + decimal_text(o[1] as nat) + seq!['.'] + decimal_text(
        o[2] as nat,
    ) + seq!['.'] + decimal_text(o[3] as nat)
}

/// Segments `s[0..5]` are zero and `s[5]` is `ffff`: an IPv4-mapped address.
pub open spec fn is_ipv4_mapped(s: Seq<u16>) -> bool {
    &&& s[0] == 0
    &&& s[1] == 0
    &&& s[2] == 0
    &&& s[3] == 0
    &&& s[4] == 0
    &&& s[5] == 0xffff
}

/// The IPv4 address held in the last two segments of a mapped address.
pub open spec fn mapped_octets(s: Seq<u16>) -> Seq<u8> {
    seq![(s[6] / 256) as u8, (s[6] % 256) as u8, (s[7] / 256) as u8, (s[7] % 256) as u8]
}

/// `s[start..start + len]` lies inside `s` and holds only zero segments.
pub open spec fn zero_window(s: Seq<u16>, start: int, len: int) -> bool {
    &&& 0 <= start
    &&& 0 <= len
    &&& start + len <= s.len()
    &&& forall|k: int| start <= k < start + len ==> s[k] == 0
}

/// `len` is the length of the longest run of zero segments in `s`.
pub open spec fn is_longest_zero_len(s: Seq<u16>, len: int) -> bool {
    &&& exists|st: int| zero_window(s, st, len)
    &&& forall|st: int, l: int| #[trigger] zero_window(s, st, l) ==> l <= len
}

/// Length of the longest run of zero segments.
pub open spec fn longest_zero_len(s: Seq<u16>) -> int {
    choose|len: int| is_longest_zero_len(s, len)
}

/// `start` is where the first run of zero segments of length `len` begins.
pub open spec fn is_first_zero_start(s: Seq<u16>, start: int, len: int) -> bool {
    &&& zero_window(s, start, len)
    &&& forall|st: int| 0 <= st < start ==> !zero_window(s, st, len)
}

/// Where the first longest run of zero segments begins.
pub open spec fn longest_zero_start(s: Seq<u16>) -> int {
    choose|start: int| is_first_zero_start(s, start, longest_zero_len(s))
}

/// Segments in lower-case hexadecimal, separated by colons.
pub open spec fn hex_groups(s: Seq<u16>) -> Seq<char>
    decreases s.len(),
{
    if s.len() == 0 {
        seq![]
    } else if s.len() == 1 {
        hex_text(s[0] as nat)
    } else {
        hex_groups(s.drop_last()) + seq![':'] + hex_text(s.last() as nat)
    }
}

/// Textual form of an IPv6 address: IPv4-mapped addresses as `::ffff:a.b.c.d`;
/// otherwise hexadecimal segments where the first longest run of two or more
/// zero segments is replaced by `::`.
pub open spec fn ipv6_text(s: Seq<u16>) -> Seq<char> {
    if is_ipv4_mapped(s) {
        seq![':', ':', 'f', 'f', 'f', 'f', ':'] + ipv4_text(mapped_octets(s))
    } else if longest_zero_len(s) > 1 {
        let st = longest_zero_start(s);
        let len = longest_zero_len(s);
        hex_groups(s.subrange(0, st)) + seq![':', ':'] + hex_groups(s.subrange(st + len, s.len() as int))
    } else {
        hex_groups(s)
    }
}

/// Appends the dotted-decimal form of four octets.
fn push_ipv4(out: &mut String, o: [u8; 4])
    ensures
        final(out)@ == old(out)@ + ipv4_text(o@),
{
    push_decimal(out, o[0] as u64);
    push_char(out, '.');
    push_decimal(out, o[1] as u64);
    push_char(out, '.');
    push_decimal(out, o[2] as u64);
    push_char(out, '.');
    push_decimal(out, o[3] as u64);
    assert(final(out)@ =~= old(out)@ + ipv4_text(o@));
}

/// Appends `s[from..to]` as colon-separated hexadecimal segments.
fn push_hex_groups(out: &mut String, s: &[u16; 8], from: usize, to: usize)
    requires
        from <= to <= 8,
    ensures
        final(out)@ == old(out)@ + hex_groups(s@.subrange(from as int, to as int)),
{
    let ghost start = out@;
    let mut i = from;
    assert(s@.subrange(from as int, from as int) =~= Seq::<u16>::empty());
    while i < to
        invariant
            from <= i <= to <= 8,
            s@.len() == 8,
            out@ == start + hex_groups(s@.subrange(from as int, i as int)),
        decreases to - i,
    {
        let ghost prev = s@.subrange(from as int, i as int);
        let ghost next = s@.subrange(from as int, i + 1);
        assert(next.drop_last() =~= prev);
        if i > from {
            push_char(out, ':');
        }
        push_hex(out, s[i] as u64);
        i = i + 1;
        proof {
            if i - 1 > from {
                assert(out@ =~= start + hex_groups(next));
            } else {
                assert(prev =~= Seq::<u16>::empty());
                assert(out@ =~= start + hex_groups(next));
            }
        }
    }
}

impl Ipv4Address {
    /// The dotted-decimal form, e.g. `192.0.2.1`.
    pub fn to_text(&self) -> (r: String)
        ensures
            r@ == ipv4_text(self.octets@),
    {
        let mut r = String::new();
        push_ipv4(&mut r, self.octets);
        assert(r@ =~= ipv4_text(self.octets@));
        r
    }
}

/// Finds the first longest run of zero segments: its start and length.
fn find_longest_zero_run(s: &[u16; 8]) -> (r: (usize, usize))
    ensures
        r.0 as int == longest_zero_start(s@),
        r.1 as int == longest_zero_len(s@),
        zero_window(s@, r.0 as int, r.1 as int),
{
    let mut best_start: usize = 0;
    let mut best_len: usize = 0;
    let mut cur_len: usize = 0;
    let mut i: usize = 0;
    while i < 8
        invariant
            0 <= i <= 8,
            s@.len() == 8,
            cur_len <= i,
            zero_window(s@, i - cur_len, cur_len as int),
            cur_len < i ==> s@[i - cur_len - 1] != 0,
            zero_window(s@, best_start as int, best_len as int),
            best_start + best_len <= i,
            forall|st: int, l: int| #[trigger] zero_window(s@, st, l) && st + l <= i ==> l <= best_len,
            forall|st: int| 0 <= st < best_start && st + best_len <= i ==> !zero_window(s@, st, best_len as int),
        decreases 8 - i,
    {
        if s[i] == 0 {
            cur_len = cur_len + 1;
            assert(zero_window(s@, i + 1 - cur_len, cur_len as int));
            if cur_len > best_len {
                best_start = i + 1 - cur_len;
                best_len = cur_len;
            }
        } else {
            cur_len = 0;
        }
        proof {
            assert forall|st: int, l: int| #[trigger] zero_window(s@, st, l) && st + l <= i + 1 implies l <= best_len by {
                if st + l == i + 1 && l > 0 {
                    assert(s@[i as int] == 0);
                    if l > cur_len {
                        let k = i - cur_len as int;
                        assert(st <= k - 1 < st + l);
                        assert(s@[k - 1] == 0);
                    }
                }
            }
            assert forall|st: int| 0 <= st < best_start && st + best_len <= i + 1 implies !zero_window(s@, st, best_len as int) by {
                if zero_window(s@, st, best_len as int) {
                    assert(st + best_len <= i);
                }
            }
        }
        i = i + 1;
    }
    proof {
        let len = best_len as int;
        assert(is_longest_zero_len(s@, len));
        let l2 = longest_zero_len(s@);
        assert(is_longest_zero_len(s@, l2));
        let st2 = choose|st: int| zero_window(s@, st, l2);
        assert(zero_window(s@, st2, l2));
        assert(l2 == len);
        assert(is_first_zero_start(s@, best_start as int, len));
        let b = longest_zero_start(s@);
        assert(is_first_zero_start(s@, b, len));
        assert(b == best_start);
    }
    (best_start, best_len)
}

impl Ipv6Address {
    /// The textual form, as `std::net::Ipv6Addr` displays it.
    pub fn to_text(&self) -> (r: String)
        ensures
            r@ == ipv6_text(self.segments@),
    {
        let s = &self.segments;
        let mut r = String::new();
        if s[0] == 0 && s[1] == 0 && s[2] == 0 && s[3] == 0 && s[4] == 0 && s[5] == 0xffff {
            push_str(&mut r, "::ffff:");
            let o: [u8; 4] = [(s[6] / 256) as u8, (s[6] % 256) as u8, (s[7] / 256) as u8, (s[7] % 256) as u8];
            assert(o@ =~= mapped_octets(s@));
            push_ipv4(&mut r, o);
            proof {
                reveal_strlit("::ffff:");
            }
            assert(r@ =~= ipv6_text(s@));
        } else {
            let (st, len) = find_longest_zero_run(s);
            if len > 1 {
                push_hex_groups(&mut r, s, 0, st);
                push_char(&mut r, ':');
                push_char(&mut r, ':');
                push_hex_groups(&mut r, s, st + len, 8);
                assert(r@ =~= ipv6_text(s@));
            } else {
                push_hex_groups(&mut r, s, 0, 8);
                assert(s@.subrange(0, 8) =~= s@);
            }
        }
        r
    }
}

} // verus!

//! The host-visible address list of a peer: IPv4 addresses other than loopback and
//! link-local, in dotted-decimal text, `192.168.*` first, then in text order, joined by commas.
use vstd::prelude::*;
use crate::discovery::IpAddress;
use crate::text::{all_ascii, ascii_chars, ascii_string};

verus! {

/// Whether an IPv4 address is shown to the host: not loopback (127/8), not link-local
/// (169.254/16).
pub open spec fn visible_v4(a: [u8; 4]) -> bool {
    a@[0] != 127 && !(a@[0] == 169 && a@[1] == 254)
}

/// Whether an IPv4 address is in 192.168/16.
pub open spec fn is_home(a: [u8; 4]) -> bool {
    a@[0] == 192 && a@[1] == 168
}

/// Decimal digits of a byte, without leading zeros.
pub open spec fn dec_bytes(n: u8) -> Seq<u8> {
    if n >= 100 {
        seq![(48 + n / 100) as u8, (48 + (n / 10) % 10) as u8, (48 + n % 10) as u8]
    } else if n >= 10 {
        seq![(48 + n / 10) as u8, (48 + n % 10) as u8]
    } else {
        seq![(48 + n) as u8]
    }
}

/// Dotted-decimal text of an IPv4 address, as ASCII bytes.
pub open spec fn v4_text(a: [u8; 4]) -> Seq<u8> {
    dec_bytes(a@[0]) + seq![46u8] + dec_bytes(a@[1]) + seq![46u8] + dec_bytes(a@[2]) + seq![46u8]
        + dec_bytes(a@[3])
}

/// `a` sorts before or with `b` in byte order.
pub open spec fn lex_le(a: Seq<u8>, b: Seq<u8>) -> bool
    decreases a.len(),
{
    if a.len() == 0 {
        true
    } else if b.len() == 0 {
        false
    } else if a[0] != b[0] {
        a[0] < b[0]
    } else {
        lex_le(a.drop_first(), b.drop_first())
    }
}

/// Display order: `192.168.*` first, then text order.
pub open spec fn shown_before(a: [u8; 4], b: [u8; 4]) -> bool {
    if is_home(a) != is_home(b) {
        is_home(a)
    } else {
        lex_le(v4_text(a), v4_text(b))
    }
}

/// The visible IPv4 addresses of a list, in list order.
pub open spec fn visible_of(s: Seq<IpAddress>) -> Seq<[u8; 4]>
    decreases s.len(),
{
    if s.len() == 0 {
        Seq::empty()
    } else {
        let rest = visible_of(s.drop_last());
        match s.last() {
            IpAddress::V4(a) => if visible_v4(a) {
                rest.push(a)
            } else {
                rest
            },
            IpAddress::V6(_) => rest,
        }
    }
}

/// Texts joined by commas.
pub open spec fn joined(s: Seq<[u8; 4]>) -> Seq<u8>
    decreases s.len(),
{
    if s.len() == 0 {
        Seq::empty()
    } else if s.len() == 1 {
        v4_text(s[0])
    } else {
        joined(s.drop_last()) + seq![44u8] + v4_text(s.last())
    }
}

fn push_dec(out: &mut Vec<u8>, n: u8)
    ensures
        final(out)@ == old(out)@ + dec_bytes(n),
{
    if n >= 100 {
        out.push(48 + n / 100);
        out.push(48 + (n / 10) % 10);
        out.push(48 + n % 10);
    } else if n >= 10 {
        out.push(48 + n / 10);
        out.push(48 + n % 10);
    } else {
        out.push(48 + n);
    }
    assert(final(out)@ =~= old(out)@ + dec_bytes(n));
}

fn push_v4(out: &mut Vec<u8>, a: [u8; 4])
    ensures
        final(out)@ == old(out)@ + v4_text(a),
{
    push_dec(out, a[0]);
    out.push(46);
    push_dec(out, a[1]);
    out.push(46);
    push_dec(out, a[2]);
    out.push(46);
    push_dec(out, a[3]);
    assert(final(out)@ =~= old(out)@ + v4_text(a));
}

/// Dotted-decimal text of an IPv4 address.
pub fn ipv4_text(a: [u8; 4]) -> (r: String)
    ensures
        r@ == ascii_chars(v4_text(a)),
{
    let mut out: Vec<u8> = Vec::new();
    push_v4(&mut out, a);
    assert(out@ =~= v4_text(a));
    assert(all_ascii(out@));
    ascii_string(out.as_slice())
}

fn text_le(a: &Vec<u8>, b: &Vec<u8>) -> (r: bool)
    ensures
        r == lex_le(a@, b@),
{
    let mut i: usize = 0;
    assert(a@.skip(0) =~= a@);
    assert(b@.skip(0) =~= b@);
    while i < a.len() && i < b.len() && a[i] == b[i]
        invariant
            i <= a@.len(),
            i <= b@.len(),
            lex_le(a@, b@) == lex_le(a@.skip(i as int), b@.skip(i as int)),
        decreases a@.len() - i,
    {
        proof {
            assert(a@.skip(i as int).drop_first() =~= a@.skip(i + 1));
            assert(b@.skip(i as int).drop_first() =~= b@.skip(i + 1));
        }
        i += 1;
    }
    if i == a.len() {
        true
    } else if i == b.len() {
        false
    } else {
        a[i] < b[i]
    }
}

fn shown_before_exec(a: [u8; 4], b: [u8; 4]) -> (r: bool)
    ensures
        r == shown_before(a, b),
{
    let ha = a[0] == 192 && a[1] == 168;
    let hb = b[0] == 192 && b[1] == 168;
    if ha != hb {
        return ha;
    }
    let mut ta: Vec<u8> = Vec::new();
    push_v4(&mut ta, a);
    let mut tb: Vec<u8> = Vec::new();
    push_v4(&mut tb, b);
    assert(ta@ =~= v4_text(a));
    assert(tb@ =~= v4_text(b));
    text_le(&ta, &tb)
}

/// The visible IPv4 addresses of `addresses`, each adjacent pair in display order.
pub fn visible_sorted(addresses: &Vec<IpAddress>) -> (r: Vec<[u8; 4]>)
    ensures
        r@.to_multiset() == visible_of(addresses@).to_multiset(),
        forall|i: int| 0 <= i < r@.len() - 1 ==> shown_before(#[trigger] r@[i], r@[i + 1]),
{
    broadcast use vstd::seq_lib::group_to_multiset_ensures;

    let mut r: Vec<[u8; 4]> = Vec::new();
    let mut k: usize = 0;
    while k < addresses.len()
        invariant
            k <= addresses@.len(),
            r@.to_multiset() == visible_of(addresses@.take(k as int)).to_multiset(),
            forall|i: int| 0 <= i < r@.len() - 1 ==> shown_before(#[trigger] r@[i], r@[i + 1]),
        decreases addresses@.len() - k,
    {
        proof {
            assert(addresses@.take(k + 1).drop_last() =~= addresses@.take(k as int));
        }
        match addresses[k] {
            IpAddress::V4(a) => {
                if a[0] != 127 && !(a[0] == 169 && a[1] == 254) {
                    let mut p: usize = 0;
                    while p < r.len() && shown_before_exec(r[p], a)
                        invariant
                            p <= r@.len(),
                            p > 0 ==> shown_before(r@[p - 1], a),
                        decreases r@.len() - p,
                    {
                        p += 1;
                    }
                    let ghost before = r@;
                    r.insert(p, a);
                    proof {
                        assert(r@ == before.insert(p as int, a));
                        vstd::seq_lib::to_multiset_insert(before, p as int, a);
                        vstd::seq_lib::to_multiset_build(visible_of(addresses@.take(k as int)), a);
                        assert forall|i: int| 0 <= i < r@.len() - 1 implies shown_before(#[trigger] r@[i], r@[i + 1]) by {
                            if i + 1 < p {
                                assert(shown_before(before[i], before[i + 1]));
                            } else if i + 1 == p {
                            } else if i == p {
                                if p < before.len() {
                                    lemma_shown_before_total(before[p as int], a);
                                }
                            } else {
                                assert(shown_before(before[i - 1], before[i]));
                            }
                        }
                    }
                }
            },
            IpAddress::V6(_) => {},
        }
        k += 1;
    }
    proof {
        assert(addresses@.take(k as int) =~= addresses@);
    }
    r
}

pub proof fn lemma_lex_total(a: Seq<u8>, b: Seq<u8>)
    ensures
        lex_le(a, b) || lex_le(b, a),
    decreases a.len(),
{
    if a.len() > 0 && b.len() > 0 && a[0] == b[0] {
        lemma_lex_total(a.drop_first(), b.drop_first());
    }
}

pub proof fn lemma_shown_before_total(a: [u8; 4], b: [u8; 4])
    ensures
        shown_before(a, b) || shown_before(b, a),
{
    lemma_lex_total(v4_text(a), v4_text(b));
}

/// The host-visible address list: visible IPv4 addresses in display order, joined by commas.
pub fn host_addresses(addresses: &Vec<IpAddress>) -> (r: String)
    ensures
        exists|l: Seq<[u8; 4]>|
            #![trigger joined(l)]
            l.to_multiset() == visible_of(addresses@).to_multiset() && (forall|i: int|
                0 <= i < l.len() - 1 ==> shown_before(#[trigger] l[i], l[i + 1])) && r@ == ascii_chars(
                joined(l),
            ),
{
    let l = visible_sorted(addresses);
    let mut out: Vec<u8> = Vec::new();
    let mut i: usize = 0;
    while i < l.len()
        invariant
            i <= l@.len(),
            out@ == joined(l@.take(i as int)),
            all_ascii(out@),
        decreases l@.len() - i,
    {
        let ghost before = out@;
        if i > 0 {
            out.push(44);
        }
        push_v4(&mut out, l[i]);
        proof {
            assert(l@.take(i + 1).drop_last() =~= l@.take(i as int));
            assert(all_ascii(out@));
        }
        i += 1;
    }
    assert(l@.take(i as int) =~= l@);
    ascii_string(out.as_slice())
}

} // verus!

//! Canonical byte form of a claims payload.
//!
//! Every field is written in a fixed, self-delimiting layout: strings as a
//! little-endian 64-bit byte count followed by their UTF-8 bytes, timestamps
//! as their 64-bit two's-complement image, and name lists as a 64-bit count
//! followed by the names.  The layout is canonical: parsing accepts exactly
//! the byte strings the writer produces, which is what makes the codec's
//! round-trip law provable.

use vstd::prelude::*;
use vstd::bytes::*;
use vstd::utf8::*;
use crate::claims::{Claims, ClaimsView};

verus! {

/// Little-endian image of a 64-bit word.
pub open spec fn enc_u64(x: u64) -> Seq<u8> {
    spec_u64_to_le_bytes(x)
}

/// Two's-complement image of a signed timestamp.
pub open spec fn u64_of_i64(x: i64) -> u64 {
    x as u64
}

/// Inverse of [`u64_of_i64`].
pub open spec fn i64_of_u64(x: u64) -> i64 {
    x as i64
}

pub proof fn lemma_i64_bits_round_trip()
    ensures
        forall|x: i64| #![trigger u64_of_i64(x)] i64_of_u64(u64_of_i64(x)) == x,
{
    assert(forall|x: i64| #![trigger x as u64] (x as u64) as i64 == x) by (bit_vector);
}

/// A length-prefixed block of bytes.
pub open spec fn enc_block(b: Seq<u8>) -> Seq<u8> {
    enc_u64(b.len() as u64) + b
}

/// A length-prefixed name, written as its UTF-8 bytes.
pub open spec fn enc_name(s: Seq<char>) -> Seq<u8> {
    enc_block(encode_utf8(s))
}

/// A list of names, one length-prefixed block after the other.
pub open spec fn enc_names(xs: Seq<Seq<char>>) -> Seq<u8>
    decreases xs.len(),
{
    if xs.len() == 0 {
        Seq::empty()
    } else {
        enc_name(xs[0]) + enc_names(xs.drop_first())
    }
}

/// The whole payload: subject, issue time, expiry, roles, policies.
pub open spec fn spec_payload(c: ClaimsView) -> Seq<u8> {
    enc_name(c.sub) + enc_u64(u64_of_i64(c.iat as i64)) + enc_u64(u64_of_i64(c.exp as i64))
        + enc_u64(c.roles.len() as u64) + enc_names(c.roles) + enc_u64(c.policies.len() as u64)
        + enc_names(c.policies)
}

/// Machine-representability of a claims view: every count and every UTF-8
/// byte length fits the 64-bit length fields of the layout.  Claims held in
/// executable values always satisfy this.
pub open spec fn fits(c: ClaimsView) -> bool {
    &&& encode_utf8(c.sub).len() <= u64::MAX
    &&& c.roles.len() <= u64::MAX
    &&& forall|i: int| 0 <= i < c.roles.len() ==> encode_utf8(#[trigger] c.roles[i]).len()
        <= u64::MAX
    &&& c.policies.len() <= u64::MAX
    &&& forall|i: int| 0 <= i < c.policies.len() ==> encode_utf8(#[trigger] c.policies[i]).len()
        <= u64::MAX
}

proof fn lemma_enc_names_push(xs: Seq<Seq<char>>, x: Seq<char>)
    ensures
        enc_names(xs.push(x)) == enc_names(xs) + enc_name(x),
    decreases xs.len(),
{
    let p = xs.push(x);
    if xs.len() == 0 {
        assert(p[0] == x);
        assert(p.drop_first() =~= Seq::<Seq<char>>::empty());
        assert(enc_names(p) == enc_name(x) + enc_names(p.drop_first()));
        assert(enc_names(p.drop_first()) == Seq::<u8>::empty());
        assert(enc_names(xs) == Seq::<u8>::empty());
        assert(enc_names(p) =~= enc_names(xs) + enc_name(x));
    } else {
        assert(p[0] == xs[0]);
        assert(p.drop_first() =~= xs.drop_first().push(x));
        lemma_enc_names_push(xs.drop_first(), x);
        assert(enc_names(p) == enc_name(xs[0]) + enc_names(p.drop_first()));
        assert(enc_names(p.drop_first()) == enc_names(xs.drop_first()) + enc_name(x));
        assert(enc_names(xs) == enc_name(xs[0]) + enc_names(xs.drop_first()));
        assert(enc_names(p) =~= enc_names(xs) + enc_name(x));
    }
}

fn write_u64(out: &mut Vec<u8>, x: u64)
    ensures
        final(out)@ == old(out)@ + enc_u64(x),
{
    let mut bs = u64_to_le_bytes(x);
    out.append(&mut bs);
}

fn write_name(out: &mut Vec<u8>, s: &String)
    ensures
        final(out)@ == old(out)@ + enc_name(s@),
        encode_utf8(s@).len() <= u64::MAX,
{
    let mut bs = s.as_str().as_bytes_vec();
    let n = bs.len();
    write_u64(out, n as u64);
    out.append(&mut bs);
    assert(enc_name(s@) =~= enc_u64(encode_utf8(s@).len() as u64) + encode_utf8(s@));
}

fn write_names(out: &mut Vec<u8>, xs: &Vec<String>)
    ensures
        final(out)@ == old(out)@ + enc_u64(xs@.len() as u64) + enc_names(xs.deep_view()),
        xs.deep_view().len() <= u64::MAX,
        forall|i: int| 0 <= i < xs.deep_view().len() ==> encode_utf8(
            #[trigger] xs.deep_view()[i],
        ).len() <= u64::MAX,
{
    write_u64(out, xs.len() as u64);
    let ghost base = out@;
    let mut i: usize = 0;
    while i < xs.len()
        invariant
            0 <= i <= xs.len(),
            out@ == base + enc_names(xs.deep_view().take(i as int)),
            forall|j: int| 0 <= j < i ==> encode_utf8(#[trigger] xs.deep_view()[j]).len()
                <= u64::MAX,
        decreases xs.len() - i,
    {
        write_name(out, &xs[i]);
        proof {
            assert(xs.deep_view()[i as int] == xs[i as int]@);
            lemma_enc_names_push(xs.deep_view().take(i as int), xs.deep_view()[i as int]);
            assert(xs.deep_view().take(i as int).push(xs.deep_view()[i as int])
                =~= xs.deep_view().take(i + 1));
        }
        i += 1;
    }
    proof {
        assert(xs.deep_view().take(xs@.len() as int) =~= xs.deep_view());
    }
}

// ------------------------------------------------------------------
// Parsing, stated first as total functions over byte sequences; the
// executable parser below is proved equivalent to them.
// ------------------------------------------------------------------

/// Reads one little-endian 64-bit word.
pub open spec fn sp_u64(b: Seq<u8>, pos: int) -> Option<(u64, int)> {
    if 0 <= pos && pos + 8 <= b.len() {
        Some((spec_u64_from_le_bytes(b.subrange(pos, pos + 8)), pos + 8))
    } else {
        None
    }
}

/// Reads one length-prefixed block of bytes.
pub open spec fn sp_block(b: Seq<u8>, pos: int) -> Option<(Seq<u8>, int)> {
    match sp_u64(b, pos) {
        Some((n, p)) => if p + n <= b.len() {
            Some((b.subrange(p, p + n), p + n))
        } else {
            None
        },
        None => None,
    }
}

/// Reads one length-prefixed name; the block must be valid UTF-8.
pub open spec fn sp_name(b: Seq<u8>, pos: int) -> Option<(Seq<char>, int)> {
    match sp_block(b, pos) {
        Some((bb, p)) => if valid_utf8(bb) {
            Some((decode_utf8(bb), p))
        } else {
            None
        },
        None => None,
    }
}

/// Reads `count` names in a row.
pub open spec fn sp_names(b: Seq<u8>, pos: int, count: nat) -> Option<(Seq<Seq<char>>, int)>
    decreases count,
{
    if count == 0 {
        Some((Seq::empty(), pos))
    } else {
        match sp_name(b, pos) {
            Some((s, p)) => match sp_names(b, p, (count - 1) as nat) {
                Some((ss, p2)) => Some((seq![s] + ss, p2)),
                None => None,
            },
            None => None,
        }
    }
}

/// Reads a whole payload.  Succeeds exactly on byte strings that are the
/// canonical form of a well-formed claims view and that carry no trailing
/// bytes.
pub open spec fn sp_payload(b: Seq<u8>) -> Option<ClaimsView> {
    match sp_name(b, 0) {
        Some((sub, p1)) => match sp_u64(b, p1) {
            Some((iat_bits, p2)) => match sp_u64(b, p2) {
                Some((exp_bits, p3)) => match sp_u64(b, p3) {
                    Some((nr, p4)) => match sp_names(b, p4, nr as nat) {
                        Some((roles, p5)) => match sp_u64(b, p5) {
                            Some((np, p6)) => match sp_names(b, p6, np as nat) {
                                Some((policies, p7)) => {
                                    let c = ClaimsView {
                                        sub,
                                        iat: i64_of_u64(iat_bits) as int,
                                        exp: i64_of_u64(exp_bits) as int,
                                        roles,
                                        policies,
                                    };
                                    if p7 == b.len() && c.wf() {
                                        Some(c)
                                    } else {
                                        None
                                    }
                                },
                                None => None,
                            },
                            None => None,
                        },
                        None => None,
                    },
                    None => None,
                },
                None => None,
            },
            None => None,
        },
        None => None,
    }
}

/// Relies on String::from_utf8: it accepts exactly the valid UTF-8 byte
/// strings and returns the string those bytes spell.
#[verifier::external_body]
fn bytes_to_string(v: Vec<u8>) -> (r: Option<String>)
    ensures
        r matches Some(s) ==> v@ == encode_utf8(s@),
        valid_utf8(v@) ==> r is Some,
{
    String::from_utf8(v).ok()
}

fn parse_u64(b: &Vec<u8>, pos: usize) -> (r: Option<(u64, usize)>)
    requires
        pos <= b@.len(),
    ensures
        r matches Some((x, p)) ==> sp_u64(b@, pos as int) == Some((x, p as int)) && p <= b@.len(),
        r is None ==> sp_u64(b@, pos as int) is None,
{
    if b.len() - pos >= 8 {
        let s = vstd::slice::slice_subrange(b.as_slice(), pos, pos + 8);
        let x = u64_from_le_bytes(s);
        Some((x, pos + 8))
    } else {
        None
    }
}

fn parse_block(b: &Vec<u8>, pos: usize) -> (r: Option<(Vec<u8>, usize)>)
    requires
        pos <= b@.len(),
    ensures
        r matches Some((v, p)) ==> sp_block(b@, pos as int) == Some((v@, p as int)) && p
            <= b@.len(),
        r is None ==> sp_block(b@, pos as int) is None,
{
    match parse_u64(b, pos) {
        None => None,
        Some((n, p)) => {
            let rem = b.len() - p;
            if n <= rem as u64 {
                let l = n as usize;
                let s = vstd::slice::slice_subrange(b.as_slice(), p, p + l);
                let v = vstd::slice::slice_to_vec(s);
                Some((v, p + l))
            } else {
                None
            }
        },
    }
}

fn parse_name(b: &Vec<u8>, pos: usize) -> (r: Option<(String, usize)>)
    requires
        pos <= b@.len(),
    ensures
        r matches Some((s, p)) ==> sp_name(b@, pos as int) == Some((s@, p as int)) && p
            <= b@.len(),
        r is None ==> sp_name(b@, pos as int) is None,
{
    match parse_block(b, pos) {
        None => None,
        Some((v, p)) => {
            let ghost vb = v@;
            match bytes_to_string(v) {
                None => None,
                Some(s) => {
                    proof {
                        encode_utf8_valid_utf8(s@);
                        encode_utf8_decode_utf8(s@);
                    }
                    Some((s, p))
                },
            }
        },
    }
}

/// Prefixes the name list of a parse outcome, for the loop invariant below.
spec fn opt_prepend(pre: Seq<Seq<char>>, o: Option<(Seq<Seq<char>>, int)>) -> Option<
    (Seq<Seq<char>>, int),
> {
    match o {
        Some((ss, p)) => Some((pre + ss, p)),
        None => None,
    }
}

fn parse_names(b: &Vec<u8>, pos: usize, count: u64) -> (r: Option<(Vec<String>, usize)>)
    requires
        pos <= b@.len(),
    ensures
        r matches Some((xs, p)) ==> sp_names(b@, pos as int, count as nat) == Some(
            (xs.deep_view(), p as int),
        ) && p <= b@.len(),
        r is None ==> sp_names(b@, pos as int, count as nat) is None,
{
    let mut acc: Vec<String> = Vec::new();
    let mut i: u64 = 0;
    let mut cur: usize = pos;
    while i < count
        invariant
            i <= count,
            cur <= b@.len(),
            sp_names(b@, pos as int, count as nat) == opt_prepend(
                acc.deep_view(),
                sp_names(b@, cur as int, (count - i) as nat),
            ),
        decreases count - i,
    {
        let ghost k = (count - i) as nat;
        match parse_name(b, cur) {
            None => {
                proof {
                    assert(sp_names(b@, cur as int, k) is None);
                }
                return None;
            },
            Some((s, p)) => {
                let ghost pre = acc.deep_view();
                proof {
                    let o = sp_names(b@, p as int, (k - 1) as nat);
                    match o {
                        Some((ss, p2)) => {
                            assert(sp_names(b@, cur as int, k) == Some((seq![s@] + ss, p2)));
                            assert(pre + (seq![s@] + ss) =~= pre.push(s@) + ss);
                        },
                        None => {
                            assert(sp_names(b@, cur as int, k) is None);
                        },
                    }
                }
                acc.push(s);
                proof {
                    assert(acc.deep_view() =~= pre.push(s@));
                }
                cur = p;
                i += 1;
            },
        }
    }
    proof {
        assert(sp_names(b@, cur as int, 0) == Some((Seq::<Seq<char>>::empty(), cur as int)));
        assert(acc.deep_view() + Seq::<Seq<char>>::empty() =~= acc.deep_view());
    }
    Some((acc, cur))
}

/// Reads a claims value back out of its canonical byte form; the executable
/// counterpart of [`sp_payload`].
pub fn parse_payload(b: &Vec<u8>) -> (r: Option<Claims>)
    ensures
        r matches Some(c) ==> sp_payload(b@) == Some(c@),
        r is None ==> sp_payload(b@) is None,
{
    let sub_r = parse_name(b, 0);
    let (sub, p1) = match sub_r {
        Some(x) => x,
        None => {
            return None;
        },
    };
    let (iat_bits, p2) = match parse_u64(b, p1) {
        Some(x) => x,
        None => {
            return None;
        },
    };
    let (exp_bits, p3) = match parse_u64(b, p2) {
        Some(x) => x,
        None => {
            return None;
        },
    };
    let (nr, p4) = match parse_u64(b, p3) {
        Some(x) => x,
        None => {
            return None;
        },
    };
    let (roles, p5) = match parse_names(b, p4, nr) {
        Some(x) => x,
        None => {
            return None;
        },
    };
    let (np, p6) = match parse_u64(b, p5) {
        Some(x) => x,
        None => {
            return None;
        },
    };
    let (policies, p7) = match parse_names(b, p6, np) {
        Some(x) => x,
        None => {
            return None;
        },
    };
    let iat = #[verifier::truncate] (iat_bits as i64);
    let exp = #[verifier::truncate] (exp_bits as i64);
    if p7 == b.len() && !sub.as_str().is_empty() && iat < exp {
        let c = Claims { sub, exp, iat, roles, policies };
        proof {
            assert(c@ =~= sp_payload(b@).unwrap());
        }
        Some(c)
    } else {
        None
    }
}

// ------------------------------------------------------------------
// The two directions of the canonical-form law: parsing recovers
// exactly what the writer produced, and parsing accepts nothing else.
// ------------------------------------------------------------------

proof fn lemma_sp_u64_complete(b: Seq<u8>, pos: int, x: u64)
    requires
        0 <= pos,
        pos + 8 <= b.len(),
        b.subrange(pos, pos + 8) == enc_u64(x),
    ensures
        sp_u64(b, pos) == Some((x, pos + 8)),
{
    lemma_auto_spec_u64_to_from_le_bytes();
}

proof fn lemma_sp_u64_sound(b: Seq<u8>, pos: int)
    ensures
        sp_u64(b, pos) matches Some((x, p)) ==> {
            &&& 0 <= pos
            &&& p == pos + 8
            &&& p <= b.len()
            &&& b.subrange(pos, p) == enc_u64(x)
        },
{
    if sp_u64(b, pos) is Some {
        lemma_auto_spec_u64_to_from_le_bytes();
        let s = b.subrange(pos, pos + 8);
        assert(s.len() == 8);
        assert(spec_u64_to_le_bytes(spec_u64_from_le_bytes(s)) == s);
    }
}

proof fn lemma_sp_block_complete(b: Seq<u8>, pos: int, s: Seq<u8>)
    requires
        0 <= pos,
        s.len() <= u64::MAX,
        pos + 8 + s.len() <= b.len(),
        b.subrange(pos, pos + 8 + s.len()) == enc_block(s),
    ensures
        sp_block(b, pos) == Some((s, pos + 8 + s.len())),
{
    lemma_auto_spec_u64_to_from_le_bytes();
    let seg = b.subrange(pos, pos + 8 + s.len());
    let lw = s.len() as u64;
    assert(enc_u64(lw).len() == 8);
    assert(b.subrange(pos, pos + 8) =~= seg.subrange(0, 8));
    assert(seg.subrange(0, 8) =~= enc_u64(lw));
    lemma_sp_u64_complete(b, pos, lw);
    assert(b.subrange(pos + 8, pos + 8 + s.len()) =~= seg.subrange(8, 8 + s.len() as int));
    assert(seg.subrange(8, 8 + s.len() as int) =~= s);
}

proof fn lemma_sp_block_sound(b: Seq<u8>, pos: int)
    ensures
        sp_block(b, pos) matches Some((s, p)) ==> {
            &&& 0 <= pos
            &&& pos + 8 <= p <= b.len()
            &&& s.len() == p - pos - 8
            &&& s.len() <= u64::MAX
            &&& b.subrange(pos, p) == enc_block(s)
        },
{
    if sp_block(b, pos) is Some {
        lemma_sp_u64_sound(b, pos);
        let n = spec_u64_from_le_bytes(b.subrange(pos, pos + 8));
        let p = pos + 8 + n;
        let s = b.subrange(pos + 8, p);
        assert(s.len() as u64 == n);
        assert(b.subrange(pos, p) =~= b.subrange(pos, pos + 8) + s);
        assert(b.subrange(pos, p) =~= enc_block(s));
    }
}

proof fn lemma_sp_name_complete(b: Seq<u8>, pos: int, s: Seq<char>)
    requires
        0 <= pos,
        encode_utf8(s).len() <= u64::MAX,
        pos + 8 + encode_utf8(s).len() <= b.len(),
        b.subrange(pos, pos + 8 + encode_utf8(s).len()) == enc_name(s),
    ensures
        sp_name(b, pos) == Some((s, pos + 8 + encode_utf8(s).len())),
{
    lemma_sp_block_complete(b, pos, encode_utf8(s));
    encode_utf8_valid_utf8(s);
    encode_utf8_decode_utf8(s);
}

proof fn lemma_sp_name_sound(b: Seq<u8>, pos: int)
    ensures
        sp_name(b, pos) matches Some((s, p)) ==> {
            &&& 0 <= pos
            &&& pos + 8 <= p <= b.len()
            &&& encode_utf8(s).len() == p - pos - 8
            &&& encode_utf8(s).len() <= u64::MAX
            &&& b.subrange(pos, p) == enc_name(s)
        },
{
    if sp_name(b, pos) is Some {
        lemma_sp_block_sound(b, pos);
        match sp_block(b, pos) {
            Some((bb, p)) => {
                decode_utf8_encode_utf8(bb);
            },
            None => {},
        }
    }
}

proof fn lemma_sp_names_complete(b: Seq<u8>, pos: int, xs: Seq<Seq<char>>)
    requires
        0 <= pos,
        pos + enc_names(xs).len() <= b.len(),
        b.subrange(pos, pos + enc_names(xs).len()) == enc_names(xs),
        forall|i: int| 0 <= i < xs.len() ==> encode_utf8(#[trigger] xs[i]).len() <= u64::MAX,
    ensures
        sp_names(b, pos, xs.len()) == Some((xs, pos + enc_names(xs).len())),
    decreases xs.len(),
{
    if xs.len() == 0 {
        assert(xs =~= Seq::<Seq<char>>::empty());
    } else {
        lemma_auto_spec_u64_to_from_le_bytes();
        let s0 = xs[0];
        let e0 = enc_name(s0);
        let rest = xs.drop_first();
        assert(enc_names(xs) == e0 + enc_names(rest));
        assert(e0.len() == 8 + encode_utf8(s0).len());
        let p1 = pos + e0.len();
        assert(b.subrange(pos, pos + e0.len()) =~= e0);
        lemma_sp_name_complete(b, pos, s0);
        assert(forall|i: int| 0 <= i < rest.len() ==> rest[i] == xs[i + 1]);
        let capl = enc_names(xs).len() as int;
        let l0 = e0.len() as int;
        let seg = b.subrange(pos, pos + capl);
        assert(b.subrange(p1, p1 + enc_names(rest).len()) =~= seg.subrange(l0, capl));
        assert(seg.subrange(l0, capl) =~= enc_names(rest));
        lemma_sp_names_complete(b, p1, rest);
        assert(seq![s0] + rest =~= xs);
        assert(pos + enc_names(xs).len() == p1 + enc_names(rest).len());
    }
}

proof fn lemma_sp_names_sound(b: Seq<u8>, pos: int, count: nat)
    requires
        0 <= pos <= b.len(),
    ensures
        sp_names(b, pos, count) matches Some((xs, p)) ==> {
            &&& xs.len() == count
            &&& pos <= p <= b.len()
            &&& b.subrange(pos, p) == enc_names(xs)
            &&& forall|i: int| 0 <= i < xs.len() ==> encode_utf8(#[trigger] xs[i]).len()
                <= u64::MAX
        },
    decreases count,
{
    if count == 0 {
        assert(b.subrange(pos, pos) =~= enc_names(Seq::<Seq<char>>::empty()));
    } else if sp_names(b, pos, count) is Some {
        lemma_sp_name_sound(b, pos);
        match sp_name(b, pos) {
            Some((s, p1)) => {
                lemma_sp_names_sound(b, p1, (count - 1) as nat);
                match sp_names(b, p1, (count - 1) as nat) {
                    Some((ss, p)) => {
                        let xs = seq![s] + ss;
                        assert(xs[0] == s);
                        assert(xs.drop_first() =~= ss);
                        assert(enc_names(xs) == enc_name(s) + enc_names(ss));
                        assert(b.subrange(pos, p) =~= b.subrange(pos, p1) + b.subrange(p1, p));
                        assert(forall|i: int| 0 < i < xs.len() ==> xs[i] == ss[i - 1]);
                    },
                    None => {},
                }
            },
            None => {},
        }
    }
}

/// Parsing accepts only the canonical byte form: whatever it accepts is a
/// well-formed, machine-representable claims view, and the input is exactly
/// that view's canonical form.
pub proof fn lemma_payload_sound(b: Seq<u8>)
    requires
        b.len() <= u64::MAX,
    ensures
        sp_payload(b) matches Some(c) ==> {
            &&& c.wf()
            &&& fits(c)
            &&& b == spec_payload(c)
        },
{
    if sp_payload(b) is Some {
        lemma_sp_name_sound(b, 0);
        match sp_name(b, 0) {
            Some((sub, p1)) => {
                lemma_sp_u64_sound(b, p1);
                match sp_u64(b, p1) {
                    Some((iat_bits, p2)) => {
                        lemma_sp_u64_sound(b, p2);
                        match sp_u64(b, p2) {
                            Some((exp_bits, p3)) => {
                                lemma_sp_u64_sound(b, p3);
                                match sp_u64(b, p3) {
                                    Some((nr, p4)) => {
                                        lemma_sp_names_sound(b, p4, nr as nat);
                                        match sp_names(b, p4, nr as nat) {
                                            Some((roles, p5)) => {
                                                lemma_sp_u64_sound(b, p5);
                                                match sp_u64(b, p5) {
                                                    Some((np, p6)) => {
                                                        lemma_sp_names_sound(b, p6, np as nat);
                                                        match sp_names(b, p6, np as nat) {
                                                            Some((policies, p7)) => {
                                                                lemma_payload_sound_assemble(
                                                                    b,
                                                                    p1,
                                                                    p2,
                                                                    p3,
                                                                    p4,
                                                                    p5,
                                                                    p6,
                                                                    p7,
                                                                    iat_bits,
                                                                    exp_bits,
                                                                    nr,
                                                                    np,
                                                                    sub,
                                                                    roles,
                                                                    policies,
                                                                );
                                                            },
                                                            None => {},
                                                        }
                                                    },
                                                    None => {},
                                                }
                                            },
                                            None => {},
                                        }
                                    },
                                    None => {},
                                }
                            },
                            None => {},
                        }
                    },
                    None => {},
                }
            },
            None => {},
        }
    }
}

#[verifier::spinoff_prover]
proof fn lemma_payload_sound_assemble(
    b: Seq<u8>,
    p1: int,
    p2: int,
    p3: int,
    p4: int,
    p5: int,
    p6: int,
    p7: int,
    iat_bits: u64,
    exp_bits: u64,
    nr: u64,
    np: u64,
    sub: Seq<char>,
    roles: Seq<Seq<char>>,
    policies: Seq<Seq<char>>,
)
    requires
        b.len() <= u64::MAX,
        0 <= p1 <= p2 <= p3 <= p4 <= p5 <= p6 <= p7 <= b.len(),
        b.subrange(0, p1) == enc_name(sub),
        encode_utf8(sub).len() <= u64::MAX,
        b.subrange(p1, p2) == enc_u64(iat_bits),
        b.subrange(p2, p3) == enc_u64(exp_bits),
        b.subrange(p3, p4) == enc_u64(nr),
        b.subrange(p4, p5) == enc_names(roles),
        roles.len() == nr as nat,
        forall|i: int| 0 <= i < roles.len() ==> encode_utf8(#[trigger] roles[i]).len() <= u64::MAX,
        b.subrange(p5, p6) == enc_u64(np),
        b.subrange(p6, p7) == enc_names(policies),
        policies.len() == np as nat,
        forall|i: int| 0 <= i < policies.len() ==> encode_utf8(#[trigger] policies[i]).len()
            <= u64::MAX,
        p7 == b.len(),
    ensures
        ({
            let c = ClaimsView {
                sub,
                iat: i64_of_u64(iat_bits) as int,
                exp: i64_of_u64(exp_bits) as int,
                roles,
                policies,
            };
            fits(c) && b == spec_payload(c)
        }),
{
    let c = ClaimsView {
        sub,
        iat: i64_of_u64(iat_bits) as int,
        exp: i64_of_u64(exp_bits) as int,
        roles,
        policies,
    };
    assert(forall|x: u64| #![trigger x as i64] (x as i64) as u64 == x) by (bit_vector);
    assert(u64_of_i64(c.iat as i64) == iat_bits);
    assert(u64_of_i64(c.exp as i64) == exp_bits);
    assert(c.roles.len() as u64 == nr);
    assert(c.policies.len() as u64 == np);
    assert(b =~= b.subrange(0, p1) + b.subrange(p1, p2) + b.subrange(p2, p3) + b.subrange(p3, p4)
        + b.subrange(p4, p5) + b.subrange(p5, p6) + b.subrange(p6, p7));
    assert(b == spec_payload(c));
}

/// Parsing recovers exactly what the writer produced: the round-trip law of
/// the canonical byte form.
pub proof fn lemma_payload_complete(cv: ClaimsView)
    requires
        cv.wf(),
        fits(cv),
    ensures
        sp_payload(spec_payload(cv)) == Some(cv),
{
    lemma_auto_spec_u64_to_from_le_bytes();
    lemma_i64_bits_round_trip();
    let b = spec_payload(cv);
    let e_sub = enc_name(cv.sub);
    let e_iat = enc_u64(u64_of_i64(cv.iat as i64));
    let e_exp = enc_u64(u64_of_i64(cv.exp as i64));
    let e_nr = enc_u64(cv.roles.len() as u64);
    let e_r = enc_names(cv.roles);
    let e_np = enc_u64(cv.policies.len() as u64);
    let e_p = enc_names(cv.policies);
    assert(b == e_sub + e_iat + e_exp + e_nr + e_r + e_np + e_p);
    assert(e_sub.len() == 8 + encode_utf8(cv.sub).len());
    let p1 = e_sub.len() as int;
    let p2 = p1 + 8;
    let p3 = p2 + 8;
    let p4 = p3 + 8;
    let p5 = p4 + e_r.len() as int;
    let p6 = p5 + 8;
    let p7 = p6 + e_p.len() as int;
    assert(b.len() == p7);
    assert(b.subrange(0, p1) =~= e_sub);
    lemma_sp_name_complete(b, 0, cv.sub);
    assert(b.subrange(p1, p2) =~= e_iat);
    lemma_sp_u64_complete(b, p1, u64_of_i64(cv.iat as i64));
    assert(b.subrange(p2, p3) =~= e_exp);
    lemma_sp_u64_complete(b, p2, u64_of_i64(cv.exp as i64));
    assert(b.subrange(p3, p4) =~= e_nr);
    lemma_sp_u64_complete(b, p3, cv.roles.len() as u64);
    assert(b.subrange(p4, p5) =~= e_r);
    lemma_sp_names_complete(b, p4, cv.roles);
    assert((cv.roles.len() as u64) as nat == cv.roles.len());
    assert(b.subrange(p5, p6) =~= e_np);
    lemma_sp_u64_complete(b, p5, cv.policies.len() as u64);
    assert(b.subrange(p6, p7) =~= e_p);
    lemma_sp_names_complete(b, p6, cv.policies);
    assert((cv.policies.len() as u64) as nat == cv.policies.len());
    match sp_payload(b) {
        Some(c) => {
            assert(i64_of_u64(u64_of_i64(cv.iat as i64)) as int == cv.iat);
            assert(i64_of_u64(u64_of_i64(cv.exp as i64)) as int == cv.exp);
            assert(c =~= cv);
        },
        None => {
            assert(false);
        },
    }
}

/// Writes the canonical byte form of `c`, and in passing establishes that
/// any executable claims value is machine-representable.
pub fn encode_payload(c: &Claims) -> (out: Vec<u8>)
    ensures
        out@ == spec_payload(c@),
        fits(c@),
{
    let mut out: Vec<u8> = Vec::new();
    write_name(&mut out, &c.sub);
    let iat_bits = #[verifier::truncate] (c.iat as u64);
    let exp_bits = #[verifier::truncate] (c.exp as u64);
    write_u64(&mut out, iat_bits);
    write_u64(&mut out, exp_bits);
    write_names(&mut out, &c.roles);
    write_names(&mut out, &c.policies);
    proof {
        assert(out@ =~= spec_payload(c@));
    }
    out
}

} // verus!

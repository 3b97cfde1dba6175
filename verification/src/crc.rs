//! The Galaxy bus 1-byte additive checksum.
//!
//! The checksum of a byte sequence starts from the seed `0xAA`, adds every
//! byte as an unsigned 16-bit quantity and folds the high byte back into the
//! low byte (`sum = (sum & 0xFF) + (sum >> 8)`) until the sum fits one byte.
//! Equivalently, it is the representative in `1..=255` of
//! `(0xAA + sum of bytes) mod 255`.

use vstd::prelude::*;

verus! {

/// One step of the checksum: add a byte to the running accumulator and fold
/// the carry back in. For an accumulator already folded to one byte, a single
/// fold suffices (the intermediate sum is at most `0x1FE`).
pub open spec fn crc_step(acc: int, b: u8) -> int {
    let t = acc + b;
    if t > 0xFF {
        t % 0x100 + t / 0x100
    } else {
        t
    }
}

/// The accumulator after absorbing every byte of `s`, starting from `acc`.
pub open spec fn crc_acc(acc: int, s: Seq<u8>) -> int
    decreases s.len(),
{
    if s.len() == 0 {
        acc
    } else {
        crc_acc(crc_step(acc, s[0]), s.drop_first())
    }
}

/// The Galaxy checksum of a byte sequence.
pub open spec fn galaxy_crc_spec(s: Seq<u8>) -> u8 {
    crc_acc(0xAA, s) as u8
}

/// A framed message passes the checksum test when its final byte is the
/// checksum of everything before it.
pub open spec fn crc_check_ok(m: Seq<u8>) -> bool
    recommends
        m.len() >= 1,
{
    m.last() == galaxy_crc_spec(m.drop_last())
}

/// A byte sequence followed by its own checksum, as transmitted on the wire.
pub open spec fn with_crc(s: Seq<u8>) -> Seq<u8> {
    s.push(galaxy_crc_spec(s))
}

/// The accumulator stays in `1..=255` once it starts there.
pub proof fn lemma_crc_acc_bounds(acc: int, s: Seq<u8>)
    requires
        1 <= acc <= 0xFF,
    ensures
        1 <= crc_acc(acc, s) <= 0xFF,
    decreases s.len(),
{
    if s.len() > 0 {
        lemma_crc_acc_bounds(crc_step(acc, s[0]), s.drop_first());
    }
}

/// Absorbing a concatenation is absorbing one part after the other.
pub proof fn lemma_crc_acc_append(acc: int, s: Seq<u8>, t: Seq<u8>)
    ensures
        crc_acc(acc, s + t) == crc_acc(crc_acc(acc, s), t),
    decreases s.len(),
{
    if s.len() == 0 {
        assert(s + t =~= t);
    } else {
        assert((s + t).drop_first() =~= s.drop_first() + t);
        lemma_crc_acc_append(crc_step(acc, s[0]), s.drop_first(), t);
    }
}

/// The sum of a byte sequence, as a mathematical integer.
pub open spec fn byte_sum(s: Seq<u8>) -> int
    decreases s.len(),
{
    if s.len() == 0 {
        0
    } else {
        s[0] + byte_sum(s.drop_first())
    }
}

proof fn lemma_byte_sum_nonneg(s: Seq<u8>)
    ensures
        0 <= byte_sum(s),
    decreases s.len(),
{
    if s.len() > 0 {
        lemma_byte_sum_nonneg(s.drop_first());
    }
}

/// The representative in `1..=255` of `x mod 255`, for positive `x`.
pub open spec fn crc_rep(x: int) -> int {
    if x % 255 == 0 {
        255
    } else {
        x % 255
    }
}

/// Closed form of the checksum accumulator: it is the `1..=255`
/// representative of the plain sum modulo 255.
pub proof fn lemma_crc_acc_closed_form(acc: int, s: Seq<u8>)
    requires
        1 <= acc <= 0xFF,
    ensures
        crc_acc(acc, s) == crc_rep(acc + byte_sum(s)),
    decreases s.len(),
{
    lemma_byte_sum_nonneg(s);
    if s.len() == 0 {
    } else {
        let b = s[0];
        let a2 = crc_step(acc, b);
        lemma_byte_sum_nonneg(s.drop_first());
        lemma_crc_acc_closed_form(a2, s.drop_first());
        let r = byte_sum(s.drop_first());
        if acc + b > 0xFF {
            // One fold subtracts exactly 255, which mod 255 is invisible.
            assert(a2 == acc + b - 255);
            assert((a2 + r) % 255 == (acc + b + r) % 255) by {
                vstd::arithmetic::div_mod::lemma_mod_add_multiples_vanish(a2 + r, 255);
            }
        }
    }
}

/// Changing one byte changes the sum by exactly the difference of the bytes.
proof fn lemma_byte_sum_update(s: Seq<u8>, i: int, v: u8)
    requires
        0 <= i < s.len(),
    ensures
        byte_sum(s.update(i, v)) == byte_sum(s) - s[i] + v,
    decreases s.len(),
{
    if i == 0 {
        assert(s.update(0, v).drop_first() =~= s.drop_first());
    } else {
        assert(s.update(i, v).drop_first() =~= s.drop_first().update(i - 1, v));
        lemma_byte_sum_update(s.drop_first(), i - 1, v);
    }
}

/// Appending a sequence's own checksum yields a frame that passes the check.
/// This is one half of the round-trip law for the checksum.
pub proof fn lemma_crc_round_trip(s: Seq<u8>)
    requires
        s.len() >= 1,
    ensures
        crc_check_ok(with_crc(s)),
{
    assert(with_crc(s).drop_last() =~= s);
}

/// Replacing any single byte of a framed message with a different value makes
/// the checksum test fail, except for exchanging `0x00` and `0xFF` within the
/// payload: those two bytes are congruent modulo 255 and the additive
/// checksum cannot tell them apart.
pub proof fn lemma_crc_detects_byte_change(s: Seq<u8>, i: int, v: u8)
    requires
        s.len() >= 1,
        0 <= i < with_crc(s).len(),
        v != with_crc(s)[i],
        i < s.len() ==> !(s[i] == 0x00 && v == 0xFF) && !(s[i] == 0xFF && v == 0x00),
    ensures
        !crc_check_ok(with_crc(s).update(i, v)),
{
    let m = with_crc(s);
    let m2 = m.update(i, v);
    if i == s.len() {
        // The checksum byte itself was changed; the payload is untouched.
        assert(m2.drop_last() =~= s);
        assert(m2.last() == v);
    } else {
        // A payload byte was changed: the two payload sums differ by a value
        // in -254..=254 other than 0, so their residues mod 255 differ.
        let s2 = s.update(i, v);
        assert(m2.drop_last() =~= s2);
        assert(m2.last() == galaxy_crc_spec(s));
        lemma_byte_sum_update(s, i, v);
        lemma_byte_sum_nonneg(s);
        lemma_crc_acc_closed_form(0xAA, s);
        lemma_crc_acc_closed_form(0xAA, s2);
        lemma_crc_acc_bounds(0xAA, s);
        lemma_crc_acc_bounds(0xAA, s2);
        let x1 = 0xAA + byte_sum(s);
        let x2 = 0xAA + byte_sum(s2);
        let d = v - s[i];
        assert(x2 == x1 + d);
        assert(-255 < d < 255 && d != 0);
        assert(x1 % 255 != x2 % 255) by {
            if x1 % 255 == x2 % 255 {
                vstd::arithmetic::div_mod::lemma_fundamental_div_mod(x1, 255);
                vstd::arithmetic::div_mod::lemma_fundamental_div_mod(x2, 255);
                let q1 = x1 / 255;
                let q2 = x2 / 255;
                assert(d == 255 * (q2 - q1));
                if q2 - q1 >= 1 {
                    assert(d >= 255) by (nonlinear_arith)
                        requires d == 255 * (q2 - q1) && q2 - q1 >= 1;
                } else if q2 - q1 <= -1 {
                    assert(d <= -255) by (nonlinear_arith)
                        requires d == 255 * (q2 - q1) && q2 - q1 <= -1;
                } else {
                    assert(q2 - q1 == 0);
                }
                assert(false);
            }
        }
        assert(crc_rep(x1) % 255 == x1 % 255) by {
            vstd::arithmetic::div_mod::lemma_mod_self_0(255);
            vstd::arithmetic::div_mod::lemma_mod_twice(x1, 255);
        }
        assert(crc_rep(x2) % 255 == x2 % 255) by {
            vstd::arithmetic::div_mod::lemma_mod_self_0(255);
            vstd::arithmetic::div_mod::lemma_mod_twice(x2, 255);
        }
        assert(galaxy_crc_spec(s) != galaxy_crc_spec(s2));
    }
}

/// Absorb one byte into a folded accumulator.
fn crc_push(acc: u16, b: u8) -> (r: u16)
    requires
        1 <= acc <= 0xFF,
    ensures
        r as int == crc_step(acc as int, b),
        1 <= r <= 0xFF,
{
    let t = acc + b as u16;
    if t > 0xFF {
        t % 0x100 + t / 0x100
    } else {
        t
    }
}

/// Absorb every byte of a slice, starting from a folded accumulator.
fn crc_extend(acc: u16, s: &[u8]) -> (r: u16)
    requires
        1 <= acc <= 0xFF,
    ensures
        r as int == crc_acc(acc as int, s@),
        1 <= r <= 0xFF,
{
    let mut cur = acc;
    let mut i: usize = 0;
    proof {
        assert(s@.subrange(0, s@.len() as int) =~= s@);
    }
    while i < s.len()
        invariant
            1 <= cur <= 0xFF,
            0 <= i <= s@.len(),
            crc_acc(acc as int, s@) == crc_acc(cur as int, s@.subrange(i as int, s@.len() as int)),
        decreases s@.len() - i,
    {
        let ghost rest = s@.subrange(i as int, s@.len() as int);
        cur = crc_push(cur, s[i]);
        proof {
            assert(rest[0] == s@[i as int]);
            assert(rest.drop_first() =~= s@.subrange(i as int + 1, s@.len() as int));
        }
        i = i + 1;
    }
    proof {
        assert(s@.subrange(s@.len() as int, s@.len() as int) =~= Seq::<u8>::empty());
    }
    cur
}

/// The Galaxy checksum of one contiguous byte slice.
pub fn galaxy_crc(msg: &[u8]) -> (r: u8)
    ensures
        r == galaxy_crc_spec(msg@),
{
    let acc = crc_extend(0xAA, msg);
    proof {
        lemma_crc_acc_bounds(0xAA, msg@);
    }
    acc as u8
}

/// The flattening of a sequence of byte sequences, in order.
pub open spec fn concat_bytes(vs: Seq<Seq<u8>>) -> Seq<u8>
    decreases vs.len(),
{
    if vs.len() == 0 {
        Seq::empty()
    } else {
        vs[0] + concat_bytes(vs.drop_first())
    }
}

/// The Galaxy checksum of a scatter-gather input: the result equals the
/// checksum of the concatenation of all the slices.
pub fn galaxy_crc_vectored(vecs: &[&[u8]]) -> (r: u8)
    ensures
        r == galaxy_crc_spec(concat_bytes(vecs@.map_values(|v: &[u8]| v@))),
{
    let ghost all = vecs@.map_values(|v: &[u8]| v@);
    let mut acc: u16 = 0xAA;
    let mut i: usize = 0;
    proof {
        assert(all.subrange(0, all.len() as int) =~= all);
    }
    while i < vecs.len()
        invariant
            1 <= acc <= 0xFF,
            0 <= i <= all.len(),
            all == vecs@.map_values(|v: &[u8]| v@),
            vecs@.len() == all.len(),
            crc_acc(0xAA, concat_bytes(all)) == crc_acc(
                acc as int,
                concat_bytes(all.subrange(i as int, all.len() as int)),
            ),
        decreases all.len() - i,
    {
        let ghost rest = all.subrange(i as int, all.len() as int);
        proof {
            assert(rest[0] == all[i as int]);
            assert(rest.drop_first() =~= all.subrange(i as int + 1, all.len() as int));
            assert(concat_bytes(rest) == all[i as int] + concat_bytes(rest.drop_first()));
            lemma_crc_acc_append(acc as int, all[i as int], concat_bytes(rest.drop_first()));
        }
        acc = crc_extend(acc, vecs[i]);
        i = i + 1;
    }
    proof {
        assert(all.subrange(all.len() as int, all.len() as int) =~= Seq::<Seq<u8>>::empty());
        lemma_crc_acc_bounds(0xAA, concat_bytes(all));
    }
    acc as u8
}

/// Types whose bytes carry a Galaxy checksum.
pub trait GalaxyCRC {
    /// The byte sequence the checksum is computed over.
    spec fn crc_view(&self) -> Seq<u8>;

    /// Compute the Galaxy checksum of this value's bytes.
    fn galaxy_crc(&self) -> (r: u8)
        ensures
            r == galaxy_crc_spec(self.crc_view()),
    ;
}

impl GalaxyCRC for [u8] {
    open spec fn crc_view(&self) -> Seq<u8> {
        self@
    }

    fn galaxy_crc(&self) -> (r: u8) {
        galaxy_crc(self)
    }
}

impl GalaxyCRC for Vec<u8> {
    open spec fn crc_view(&self) -> Seq<u8> {
        self@
    }

    fn galaxy_crc(&self) -> (r: u8) {
        galaxy_crc(self.as_slice())
    }
}

/// The embedded checksum did not match; carries the checksum that the bytes
/// before it actually require.
#[derive(Clone, Copy, Debug, PartialEq, Eq, Structural)]
pub struct GalaxyCRCCheckError(pub u8);

/// Types that end in an embedded Galaxy checksum which can be validated.
pub trait CheckGalaxyCRC {
    /// The byte sequence holding the framed message, checksum last.
    spec fn check_view(&self) -> Seq<u8>;

    /// Check the final byte against the checksum of everything before it.
    fn check_galaxy_crc(&self) -> (r: Result<(), GalaxyCRCCheckError>)
        requires
            self.check_view().len() >= 1,
        ensures
            r matches Ok(()) <==> crc_check_ok(self.check_view()),
            r matches Err(e) ==> e == GalaxyCRCCheckError(
                galaxy_crc_spec(self.check_view().drop_last()),
            ),
    ;
}

impl CheckGalaxyCRC for [u8] {
    open spec fn check_view(&self) -> Seq<u8> {
        self@
    }

    fn check_galaxy_crc(&self) -> (r: Result<(), GalaxyCRCCheckError>) {
        let msg_crc: u8 = self[self.len() - 1];
        let expect = galaxy_crc(&self[0..self.len() - 1]);
        proof {
            assert(self@.subrange(0, self@.len() - 1) =~= self@.drop_last());
        }
        if msg_crc == expect {
            Ok(())
        } else {
            Err(GalaxyCRCCheckError(expect))
        }
    }
}

impl CheckGalaxyCRC for Vec<u8> {
    open spec fn check_view(&self) -> Seq<u8> {
        self@
    }

    fn check_galaxy_crc(&self) -> (r: Result<(), GalaxyCRCCheckError>) {
        self.as_slice().check_galaxy_crc()
    }
}

} // verus!

//! The Ristretto255 group: scalars, points and what is computed with them.
//!
//! A point is known by its canonical encoding. The group is cyclic of prime
//! order, so a point is `x * G` for exactly one `x` below the order, its
//! logarithm; every operation is stated as arithmetic on logarithms. That the
//! order is prime is what the documentation of curve25519-dalek says of the
//! group; it enters as a property of the points that its functions return.

use curve25519_dalek::ristretto::CompressedRistretto;
use curve25519_dalek::traits::VartimeMultiscalarMul;
use vstd::prelude::*;

use crate::wire;

verus! {

/// The order of the group.
pub open spec fn group_order() -> int {
    7237005577332262213973186563042994240857116359379907606001950938285454250989int
}

/// The canonical encoding of `x` times the base point.
pub uninterp spec fn ristretto_encoding(x: int) -> Seq<u8>;

/// The logarithm of `k` times the point of logarithm `x`.
pub open spec fn multiple(k: int, x: int) -> int {
    (k * x) % group_order()
}

/// No multiple below the group order takes a point of logarithm `x` to the identity.
pub open spec fn has_full_order(x: int) -> bool {
    forall|k: int| 0 < k < group_order() ==> #[trigger] multiple(k, x) != 0
}

/// `x`, below the group order, is the one multiple of the base point that `p`
/// encodes. The group has prime order, so a point other than the identity has
/// full order.
pub open spec fn is_log(p: Seq<u8>, x: int) -> bool {
    &&& 0 <= x < group_order()
    &&& x != 0 ==> has_full_order(x)
    &&& ristretto_encoding(x) == p
    &&& forall|y: int|
        0 <= y < group_order() && #[trigger] ristretto_encoding(y) == p ==> y == x
}

/// `p` is the canonical encoding of a group element.
pub open spec fn is_point(p: Seq<u8>) -> bool {
    exists|x: int| is_log(p, x)
}

/// The logarithm of the point that `p` encodes.
pub open spec fn log(p: Seq<u8>) -> int {
    choose|x: int| is_log(p, x)
}

/// The sum of the points' logarithms, each times the scalar at its position.
pub open spec fn weighted_sum(scalars: Seq<Scalar>, points: Seq<RistrettoPoint>) -> int
    decreases scalars.len(),
{
    if scalars.len() == 0 {
        0
    } else {
        weighted_sum(scalars.drop_last(), points.drop_last()) + scalars.last()@ * log(
            points.last()@,
        )
    }
}

/// A point has one logarithm.
pub proof fn lemma_log_unique(p: Seq<u8>, x: int)
    requires
        is_log(p, x),
    ensures
        is_point(p),
        log(p) == x,
{
}

/// Different scalars take a point of full order to different points.
pub proof fn lemma_multiples_differ(a: int, b: int, x: int)
    requires
        0 <= a < group_order(),
        0 <= b < group_order(),
        a != b,
        has_full_order(x),
    ensures
        multiple(a, x) != multiple(b, x),
{
    let m = group_order();
    if multiple(a, x) == multiple(b, x) {
        let (hi, lo) = if a > b {
            (a, b)
        } else {
            (b, a)
        };
        let k = hi - lo;
        vstd::arithmetic::div_mod::lemma_mod_equivalence(hi * x, lo * x, m);
        assert(k * x == hi * x - lo * x) by (nonlinear_arith)
            requires
                k == hi - lo,
        ;
        assert(multiple(k, x) == 0);
    }
}

/// A scalar: an integer below the group order, kept as 32 little-endian bytes.
#[derive(Debug, Clone, Copy)]
pub struct Scalar {
    bytes: [u8; 32],
}

impl View for Scalar {
    type V = int;

    closed spec fn view(&self) -> int {
        wire::le_nat(self.bytes@) as int
    }
}

impl Scalar {
    /// Scalars are reduced.
    #[verifier::type_invariant]
    pub open spec fn wf(self) -> bool {
        0 <= self@ < group_order()
    }

    /// The scalar one.
    pub fn one() -> (r: Self)
        ensures
            r@ == 1,
    {
        let mut bytes: [u8; 32] = [0u8; 32];
        bytes[0] = 1;
        proof {
            let tail = bytes@.drop_first();
            wire::lemma_le_nat_zero_tail(Seq::empty(), tail);
            assert(Seq::<u8>::empty() + tail =~= tail);
        }
        Scalar { bytes }
    }

    /// The residue of the integer that the bytes spell.
    pub fn from_bytes_mod_order(bytes: &[u8; 32]) -> (r: Self)
        ensures
            r@ == wire::le_nat(bytes@) as int % group_order(),
    {
        let bytes = scalar_reduce(bytes);
        Scalar { bytes }
    }

    /// The residue of the integer that the bytes spell.
    pub fn from_bytes_mod_order_wide(bytes: &[u8; 64]) -> (r: Self)
        ensures
            r@ == wire::le_nat(bytes@) as int % group_order(),
    {
        let bytes = scalar_reduce_wide(bytes);
        Scalar { bytes }
    }

    /// The scalar's 32 little-endian bytes.
    pub fn to_bytes(&self) -> (r: [u8; 32])
        ensures
            wire::le_nat(r@) == self@,
    {
        self.bytes
    }

    /// The sum modulo the group order.
    pub fn plus(&self, other: &Scalar) -> (r: Self)
        ensures
            r@ == (self@ + other@) % group_order(),
    {
        let bytes = scalar_add(&self.bytes, &other.bytes);
        Scalar { bytes }
    }

    /// The product modulo the group order.
    pub fn times(&self, other: &Scalar) -> (r: Self)
        ensures
            r@ == (self@ * other@) % group_order(),
    {
        let bytes = scalar_mul(&self.bytes, &other.bytes);
        Scalar { bytes }
    }
}

/// A group element, kept as its canonical encoding.
#[derive(Debug, Clone, Copy)]
pub struct RistrettoPoint {
    compressed: [u8; 32],
}

impl View for RistrettoPoint {
    type V = Seq<u8>;

    closed spec fn view(&self) -> Seq<u8> {
        self.compressed@
    }
}

impl RistrettoPoint {
    /// The bytes encode a group element.
    #[verifier::type_invariant]
    pub open spec fn wf(self) -> bool {
        is_point(self@) && self@.len() == 32
    }

    /// The element that the bytes encode, where they are a canonical encoding.
    pub fn decompress(bytes: &[u8; 32]) -> (r: Option<Self>)
        ensures
            match r {
                Some(p) => is_point(bytes@) && p@ == bytes@,
                None => !is_point(bytes@),
            },
    {
        if is_canonical_point(bytes) {
            Some(RistrettoPoint { compressed: *bytes })
        } else {
            None
        }
    }

    /// The canonical encoding.
    pub fn compress(&self) -> (r: [u8; 32])
        ensures
            r@ == self@,
    {
        self.compressed
    }

    /// The base point times a scalar.
    pub fn mul_base(scalar: &Scalar) -> (r: Self)
        ensures
            is_log(r@, scalar@),
    {
        proof {
            use_type_invariant(scalar);
        }
        let compressed = point_mul_base(&scalar.bytes);
        RistrettoPoint { compressed }
    }

    /// This point times a scalar.
    pub fn times(&self, scalar: &Scalar) -> (r: Self)
        ensures
            is_log(r@, (scalar@ * log(self@)) % group_order()),
    {
        proof {
            use_type_invariant(self);
        }
        let compressed = point_mul(&scalar.bytes, &self.compressed);
        RistrettoPoint { compressed }
    }

    /// The sum of two points.
    pub fn plus(&self, other: &RistrettoPoint) -> (r: Self)
        ensures
            is_log(r@, (log(self@) + log(other@)) % group_order()),
    {
        proof {
            use_type_invariant(self);
            use_type_invariant(other);
        }
        let compressed = point_add(&self.compressed, &other.compressed);
        RistrettoPoint { compressed }
    }

    /// The sum of the points, each times the scalar at its position.
    pub fn vartime_multiscalar_mul(scalars: &[Scalar], points: &[RistrettoPoint]) -> (r: Self)
        requires
            scalars@.len() == points@.len(),
        ensures
            is_log(r@, weighted_sum(scalars@, points@) % group_order()),
    {
        let compressed = point_multiscalar_mul(scalars, points);
        RistrettoPoint { compressed }
    }
}

/// Calls `Scalar::from_bytes_mod_order` of curve25519-dalek and `to_bytes`: the
/// integer that the bytes spell is reduced modulo the group order.
#[verifier::external_body]
fn scalar_reduce(bytes: &[u8; 32]) -> (r: [u8; 32])
    ensures
        wire::le_nat(r@) == wire::le_nat(bytes@) as int % group_order(),
{
    curve25519_dalek::scalar::Scalar::from_bytes_mod_order(*bytes).to_bytes()
}

/// Calls `Scalar::from_bytes_mod_order_wide` of curve25519-dalek and
/// `to_bytes`: the integer that the bytes spell is reduced modulo the group order.
#[verifier::external_body]
fn scalar_reduce_wide(bytes: &[u8; 64]) -> (r: [u8; 32])
    ensures
        wire::le_nat(r@) == wire::le_nat(bytes@) as int % group_order(),
{
    curve25519_dalek::scalar::Scalar::from_bytes_mod_order_wide(bytes).to_bytes()
}

/// Adds two `Scalar`s of curve25519-dalek: the sum modulo the group order.
#[verifier::external_body]
fn scalar_add(a: &[u8; 32], b: &[u8; 32]) -> (r: [u8; 32])
    ensures
        wire::le_nat(r@) == (wire::le_nat(a@) + wire::le_nat(b@)) as int % group_order(),
{
    let a = curve25519_dalek::scalar::Scalar::from_bytes_mod_order(*a);
    let b = curve25519_dalek::scalar::Scalar::from_bytes_mod_order(*b);
    (a + b).to_bytes()
}

/// Multiplies two `Scalar`s of curve25519-dalek: the product modulo the group order.
#[verifier::external_body]
fn scalar_mul(a: &[u8; 32], b: &[u8; 32]) -> (r: [u8; 32])
    ensures
        wire::le_nat(r@) == (wire::le_nat(a@) * wire::le_nat(b@)) as int % group_order(),
{
    let a = curve25519_dalek::scalar::Scalar::from_bytes_mod_order(*a);
    let b = curve25519_dalek::scalar::Scalar::from_bytes_mod_order(*b);
    (a * b).to_bytes()
}

/// Calls `CompressedRistretto::decompress` of curve25519-dalek, which accepts
/// exactly the canonical encodings of group elements. As the order is prime,
/// each of these is the identity or has full order.
#[verifier::external_body]
fn is_canonical_point(bytes: &[u8; 32]) -> (r: bool)
    ensures
        r == is_point(bytes@),
{
    CompressedRistretto(*bytes).decompress().is_some()
}

/// Multiplies the table `RISTRETTO_BASEPOINT_TABLE` of curve25519-dalek by a
/// scalar: the encoding of that multiple of the base point, and of no other
/// multiple below the group order. As the order is prime, the point is the
/// identity or has full order.
#[verifier::external_body]
fn point_mul_base(scalar: &[u8; 32]) -> (r: [u8; 32])
    ensures
        r@ == ristretto_encoding(wire::le_nat(scalar@) as int % group_order()),
        is_log(r@, wire::le_nat(scalar@) as int % group_order()),
{
    let s = curve25519_dalek::scalar::Scalar::from_bytes_mod_order(*scalar);
    (&s * curve25519_dalek::constants::RISTRETTO_BASEPOINT_TABLE).compress().to_bytes()
}

/// Multiplies a `RistrettoPoint` of curve25519-dalek by a scalar, which
/// multiplies its logarithm. As the order is prime, the point is the identity
/// or has full order.
#[verifier::external_body]
fn point_mul(scalar: &[u8; 32], point: &[u8; 32]) -> (r: [u8; 32])
    requires
        is_point(point@),
    ensures
        is_log(r@, (wire::le_nat(scalar@) * log(point@)) % group_order()),
{
    let s = curve25519_dalek::scalar::Scalar::from_bytes_mod_order(*scalar);
    let p = CompressedRistretto(*point).decompress().expect("canonical encoding");
    (s * p).compress().to_bytes()
}

/// Adds two `RistrettoPoint`s of curve25519-dalek, which adds their logarithms.
/// As the order is prime, the point is the identity or has full order.
#[verifier::external_body]
fn point_add(a: &[u8; 32], b: &[u8; 32]) -> (r: [u8; 32])
    requires
        is_point(a@),
        is_point(b@),
    ensures
        is_log(r@, (log(a@) + log(b@)) % group_order()),
{
    let a = CompressedRistretto(*a).decompress().expect("canonical encoding");
    let b = CompressedRistretto(*b).decompress().expect("canonical encoding");
    (a + b).compress().to_bytes()
}

/// Calls `RistrettoPoint::vartime_multiscalar_mul` of curve25519-dalek, the sum
/// of the points each times its scalar. It takes as many scalars as points. As
/// the order is prime, the point is the identity or has full order.
#[verifier::external_body]
fn point_multiscalar_mul(scalars: &[Scalar], points: &[RistrettoPoint]) -> (r: [u8; 32])
    requires
        scalars@.len() == points@.len(),
    ensures
        is_log(r@, weighted_sum(scalars@, points@) % group_order()),
{
    let sum = curve25519_dalek::RistrettoPoint::vartime_multiscalar_mul(
        scalars.iter().map(|s| curve25519_dalek::scalar::Scalar::from_bytes_mod_order(s.bytes)),
        points.iter().map(|p| CompressedRistretto(p.compressed).decompress().expect("canonical")),
    );
    sum.compress().to_bytes()
}

} // verus!

//! Vectors of 16-bit lanes in Q0.15 fixed point, on the vector types of `magetypes`.
//!
//! The interpolators are written once against [`I16Lanes`]. Each instruction tier
//! implements it: the AVX2 tier behind archmage's `X64V3Token`, and the scalar tier, which
//! asks for no processor feature. The library is for x86_64: the AVX2 tier does not build on
//! another architecture.

use archmage::{ScalarToken, SimdToken, X64V3Token};
use magetypes::simd::generic::{i16x16, i16x8};
use vstd::prelude::*;

verus! {

/// archmage's proof that the running processor has AVX2 and FMA. It carries no data.
#[verifier::external_type_specification]
#[verifier::external_body]
pub struct ExX64V3Token(X64V3Token);

/// archmage's token of the scalar tier. It carries no data.
#[verifier::external_type_specification]
#[verifier::external_body]
pub struct ExScalarToken(ScalarToken);

/// The value of `i` reduced into the range of `i16`, as two's complement arithmetic does.
pub open spec fn wrap16(i: int) -> i16 {
    ((i + 0x8000) % 0x1_0000 - 0x8000) as i16
}

/// Lane-wise sum, each lane wrapping around.
pub open spec fn lanes_add(a: Seq<i16>, b: Seq<i16>) -> Seq<i16> {
    Seq::new(a.len(), |i: int| wrap16(a[i] + b[i]))
}

/// Lane-wise difference, each lane wrapping around.
pub open spec fn lanes_sub(a: Seq<i16>, b: Seq<i16>) -> Seq<i16> {
    Seq::new(a.len(), |i: int| wrap16(a[i] - b[i]))
}

/// `n` lanes that all hold `v`.
pub open spec fn lanes_splat(n: nat, v: i16) -> Seq<i16> {
    Seq::new(n, |i: int| v)
}

/// The Q0.15 product of `a` and `b`, rounded to the nearest step with halves going up.
/// Only the product of -1 with itself leaves the range, and wraps around to -1.
pub open spec fn mulhrs(a: i16, b: i16) -> i16 {
    wrap16((a * b + 0x4000) / 0x8000)
}

/// Lane-wise [`mulhrs`].
pub open spec fn lanes_mulhrs(a: Seq<i16>, b: Seq<i16>) -> Seq<i16> {
    Seq::new(a.len(), |i: int| mulhrs(a[i], b[i]))
}

/// `X64V3Token::summon` of archmage: a token where the running processor has AVX2 and FMA,
/// and nothing where it has not. The processor decides, so nothing is claimed of the result.
#[verifier::external_body]
pub(crate) fn summon_v3() -> (token: Option<X64V3Token>) {
    X64V3Token::summon()
}

/// `ScalarToken::from_context` of archmage: the token of the scalar tier, which every
/// processor is given.
#[verifier::external_body]
pub(crate) fn scalar_token() -> (token: ScalarToken) {
    ScalarToken::from_context()
}

/// `i16x8::add` of magetypes on its AVX2 backend (`_mm_add_epi16`), between
/// `from_array_t` and `to_array`, which keep the lanes in order: the lane-wise wrapping sum.
#[verifier::external_body]
fn v3_add8(token: X64V3Token, a: [i16; 8], b: [i16; 8]) -> (r: [i16; 8])
    ensures
        r@ == lanes_add(a@, b@),
{
    (i16x8::from_array_t(token, a) + i16x8::from_array_t(token, b)).to_array()
}

/// `i16x8::sub` of magetypes on its AVX2 backend (`_mm_sub_epi16`): the lane-wise wrapping
/// difference.
#[verifier::external_body]
fn v3_sub8(token: X64V3Token, a: [i16; 8], b: [i16; 8]) -> (r: [i16; 8])
    ensures
        r@ == lanes_sub(a@, b@),
{
    (i16x8::from_array_t(token, a) - i16x8::from_array_t(token, b)).to_array()
}

/// `i16x8::splat_t` of magetypes on its AVX2 backend (`_mm_set1_epi16`): the value in every
/// lane.
#[verifier::external_body]
fn v3_splat8(token: X64V3Token, v: i16) -> (r: [i16; 8])
    ensures
        r@ == lanes_splat(8, v),
{
    i16x8::splat_t(token, v).to_array()
}

/// `i16x16::add` of magetypes on its AVX2 backend (`_mm256_add_epi16`): the lane-wise
/// wrapping sum.
#[verifier::external_body]
fn v3_add16(token: X64V3Token, a: [i16; 16], b: [i16; 16]) -> (r: [i16; 16])
    ensures
        r@ == lanes_add(a@, b@),
{
    (i16x16::from_array_t(token, a) + i16x16::from_array_t(token, b)).to_array()
}

/// `i16x16::sub` of magetypes on its AVX2 backend (`_mm256_sub_epi16`): the lane-wise
/// wrapping difference.
#[verifier::external_body]
fn v3_sub16(token: X64V3Token, a: [i16; 16], b: [i16; 16]) -> (r: [i16; 16])
    ensures
        r@ == lanes_sub(a@, b@),
{
    (i16x16::from_array_t(token, a) - i16x16::from_array_t(token, b)).to_array()
}

/// `i16x16::splat_t` of magetypes on its AVX2 backend (`_mm256_set1_epi16`): the value in
/// every lane.
#[verifier::external_body]
fn v3_splat16(token: X64V3Token, v: i16) -> (r: [i16; 16])
    ensures
        r@ == lanes_splat(16, v),
{
    i16x16::splat_t(token, v).to_array()
}

/// `i16x8::add` of magetypes on its scalar backend (`wrapping_add` in each lane): the
/// lane-wise wrapping sum.
#[verifier::external_body]
fn scalar_add8(token: ScalarToken, a: [i16; 8], b: [i16; 8]) -> (r: [i16; 8])
    ensures
        r@ == lanes_add(a@, b@),
{
    (i16x8::from_array_t(token, a) + i16x8::from_array_t(token, b)).to_array()
}

/// `i16x8::sub` of magetypes on its scalar backend (`wrapping_sub` in each lane): the
/// lane-wise wrapping difference.
#[verifier::external_body]
fn scalar_sub8(token: ScalarToken, a: [i16; 8], b: [i16; 8]) -> (r: [i16; 8])
    ensures
        r@ == lanes_sub(a@, b@),
{
    (i16x8::from_array_t(token, a) - i16x8::from_array_t(token, b)).to_array()
}

/// `i16x8::splat_t` of magetypes on its scalar backend: the value in every lane.
#[verifier::external_body]
fn scalar_splat8(token: ScalarToken, v: i16) -> (r: [i16; 8])
    ensures
        r@ == lanes_splat(8, v),
{
    i16x8::splat_t(token, v).to_array()
}

/// `i16x16::add` of magetypes on its scalar backend (`wrapping_add` in each lane): the
/// lane-wise wrapping sum.
#[verifier::external_body]
fn scalar_add16(token: ScalarToken, a: [i16; 16], b: [i16; 16]) -> (r: [i16; 16])
    ensures
        r@ == lanes_add(a@, b@),
{
    (i16x16::from_array_t(token, a) + i16x16::from_array_t(token, b)).to_array()
}

/// `i16x16::sub` of magetypes on its scalar backend (`wrapping_sub` in each lane): the
/// lane-wise wrapping difference.
#[verifier::external_body]
fn scalar_sub16(token: ScalarToken, a: [i16; 16], b: [i16; 16]) -> (r: [i16; 16])
    ensures
        r@ == lanes_sub(a@, b@),
{
    (i16x16::from_array_t(token, a) - i16x16::from_array_t(token, b)).to_array()
}

/// `i16x16::splat_t` of magetypes on its scalar backend: the value in every lane.
#[verifier::external_body]
fn scalar_splat16(token: ScalarToken, v: i16) -> (r: [i16; 16])
    ensures
        r@ == lanes_splat(16, v),
{
    i16x16::splat_t(token, v).to_array()
}

/// A vector of `N` 16-bit lanes on one instruction tier.
pub trait I16Lanes<const N: usize>: Copy {
    /// What has to be shown before the tier may be used.
    type Token: Copy;

    /// The lanes, first to last.
    spec fn lanes(&self) -> Seq<i16>;

    /// The vector that holds the given lanes.
    fn from_array(token: Self::Token, lanes: [i16; N]) -> (r: Self)
        ensures
            r.lanes() == lanes@,
    ;

    /// The lanes as an array.
    fn to_array(&self) -> (r: [i16; N])
        ensures
            r@ == self.lanes(),
    ;

    /// The vector that holds `v` in every lane.
    fn splat(token: Self::Token, v: i16) -> (r: Self)
        ensures
            r.lanes() == lanes_splat(N as nat, v),
    ;

    /// Lane-wise wrapping sum.
    fn plus(&self, other: &Self) -> (r: Self)
        ensures
            r.lanes() == lanes_add(self.lanes(), other.lanes()),
    ;

    /// Lane-wise wrapping difference.
    fn minus(&self, other: &Self) -> (r: Self)
        ensures
            r.lanes() == lanes_sub(self.lanes(), other.lanes()),
    ;
}

/// Eight lanes on the AVX2 tier.
#[derive(Clone, Copy)]
pub struct V3I16x8 {
    token: X64V3Token,
    lanes: [i16; 8],
}

impl I16Lanes<8> for V3I16x8 {
    type Token = X64V3Token;

    closed spec fn lanes(&self) -> Seq<i16> {
        self.lanes@
    }

    fn from_array(token: X64V3Token, lanes: [i16; 8]) -> (r: Self) {
        V3I16x8 { token, lanes }
    }

    fn to_array(&self) -> (r: [i16; 8]) {
        self.lanes
    }

    fn splat(token: X64V3Token, v: i16) -> (r: Self) {
        V3I16x8 { token, lanes: v3_splat8(token, v) }
    }

    fn plus(&self, other: &Self) -> (r: Self) {
        V3I16x8 { token: self.token, lanes: v3_add8(self.token, self.lanes, other.lanes) }
    }

    fn minus(&self, other: &Self) -> (r: Self) {
        V3I16x8 { token: self.token, lanes: v3_sub8(self.token, self.lanes, other.lanes) }
    }
}

/// Sixteen lanes on the AVX2 tier.
#[derive(Clone, Copy)]
pub struct V3I16x16 {
    token: X64V3Token,
    lanes: [i16; 16],
}

impl I16Lanes<16> for V3I16x16 {
    type Token = X64V3Token;

    closed spec fn lanes(&self) -> Seq<i16> {
        self.lanes@
    }

    fn from_array(token: X64V3Token, lanes: [i16; 16]) -> (r: Self) {
        V3I16x16 { token, lanes }
    }

    fn to_array(&self) -> (r: [i16; 16]) {
        self.lanes
    }

    fn splat(token: X64V3Token, v: i16) -> (r: Self) {
        V3I16x16 { token, lanes: v3_splat16(token, v) }
    }

    fn plus(&self, other: &Self) -> (r: Self) {
        V3I16x16 { token: self.token, lanes: v3_add16(self.token, self.lanes, other.lanes) }
    }

    fn minus(&self, other: &Self) -> (r: Self) {
        V3I16x16 { token: self.token, lanes: v3_sub16(self.token, self.lanes, other.lanes) }
    }
}

/// Eight lanes on the scalar tier.
#[derive(Clone, Copy)]
pub struct ScalarI16x8 {
    token: ScalarToken,
    lanes: [i16; 8],
}

impl I16Lanes<8> for ScalarI16x8 {
    type Token = ScalarToken;

    closed spec fn lanes(&self) -> Seq<i16> {
        self.lanes@
    }

    fn from_array(token: ScalarToken, lanes: [i16; 8]) -> (r: Self) {
        ScalarI16x8 { token, lanes }
    }

    fn to_array(&self) -> (r: [i16; 8]) {
        self.lanes
    }

    fn splat(token: ScalarToken, v: i16) -> (r: Self) {
        ScalarI16x8 { token, lanes: scalar_splat8(token, v) }
    }

    fn plus(&self, other: &Self) -> (r: Self) {
        ScalarI16x8 { token: self.token, lanes: scalar_add8(self.token, self.lanes, other.lanes) }
    }

    fn minus(&self, other: &Self) -> (r: Self) {
        ScalarI16x8 { token: self.token, lanes: scalar_sub8(self.token, self.lanes, other.lanes) }
    }
}

/// Sixteen lanes on the scalar tier.
#[derive(Clone, Copy)]
pub struct ScalarI16x16 {
    token: ScalarToken,
    lanes: [i16; 16],
}

impl I16Lanes<16> for ScalarI16x16 {
    type Token = ScalarToken;

    closed spec fn lanes(&self) -> Seq<i16> {
        self.lanes@
    }

    fn from_array(token: ScalarToken, lanes: [i16; 16]) -> (r: Self) {
        ScalarI16x16 { token, lanes }
    }

    fn to_array(&self) -> (r: [i16; 16]) {
        self.lanes
    }

    fn splat(token: ScalarToken, v: i16) -> (r: Self) {
        ScalarI16x16 { token, lanes: scalar_splat16(token, v) }
    }

    fn plus(&self, other: &Self) -> (r: Self) {
        ScalarI16x16 { token: self.token, lanes: scalar_add16(self.token, self.lanes, other.lanes) }
    }

    fn minus(&self, other: &Self) -> (r: Self) {
        ScalarI16x16 { token: self.token, lanes: scalar_sub16(self.token, self.lanes, other.lanes) }
    }
}

/// The Q0.15 product of two lanes.
fn mulhrs_lane(a: i16, b: i16) -> (r: i16)
    ensures
        r == mulhrs(a, b),
{
    assert(-0x4000_0000 <= a * b <= 0x4000_0000) by (nonlinear_arith)
        requires
            -0x8000 <= a <= 0x7fff,
            -0x8000 <= b <= 0x7fff,
    ;
    let sum: i32 = (a as i32) * (b as i32) + 0x4000;
    let high: i32 = sum >> 15;
    assert(high == sum as int / 0x8000) by (bit_vector)
        requires
            high == sum >> 15u32,
    ;
    let r: i16 = #[verifier::truncate]
    (high as i16);
    assert(r == (high + 0x8000) % 0x1_0000 - 0x8000) by (bit_vector)
        requires
            r == high as i16,
            -0x8000 <= high <= 0x8000,
    ;
    r
}

/// Fixed-point Q0.15 product in each lane: `((a * b + 0x4000) >> 15)`, kept to 16 bits.
pub fn q15_mulhrs<const N: usize, V: I16Lanes<N>>(token: V::Token, a: V, b: V) -> (r: V)
    ensures
        r.lanes() == lanes_mulhrs(a.lanes(), b.lanes()),
{
    let ar: [i16; N] = a.to_array();
    let br: [i16; N] = b.to_array();
    let mut out: [i16; N] = ar;
    for i in 0..N
        invariant
            forall|j: int| 0 <= j < i ==> out@[j] == mulhrs(ar@[j], br@[j]),
    {
        out[i] = mulhrs_lane(ar[i], br[i]);
    }
    let r = V::from_array(token, out);
    assert(r.lanes() =~= lanes_mulhrs(a.lanes(), b.lanes()));
    r
}

} // verus!

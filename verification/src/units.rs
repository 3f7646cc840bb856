use vstd::prelude::*;

verus! {

/// Number of yocto in one NEAR, the indivisible base of a stake unit.
pub const YOCTO_PER_NEAR: u128 = 1_000_000_000_000_000_000_000_000;

/// Largest count of whole NEARs whose yocto value still fits in `u128`.
pub const MAX_WHOLE_NEAR: u128 = 340_282_366_920_938;

/// The yocto value of `num` whole NEARs.
pub open spec fn yocto(num: int) -> int {
    num * (YOCTO_PER_NEAR as int)
}

/// converts the given number to yocto
pub fn to_yocto(num: u128) -> (r: u128)
    requires
        num <= MAX_WHOLE_NEAR,
    ensures
        r == yocto(num as int),
{
    proof {
        assert(num * YOCTO_PER_NEAR <= MAX_WHOLE_NEAR * YOCTO_PER_NEAR) by (nonlinear_arith)
            requires num <= MAX_WHOLE_NEAR;
    }
    num * YOCTO_PER_NEAR
}

/// Scaling to yocto is monotone in the number of whole NEARs.
pub proof fn lemma_yocto_monotone(a: int, b: int)
    requires
        a <= b,
    ensures
        yocto(a) <= yocto(b),
{
    assert(a * (YOCTO_PER_NEAR as int) <= b * (YOCTO_PER_NEAR as int)) by (nonlinear_arith)
        requires
            a <= b,
    ;
}

/// A count of whole NEARs scales to its yocto value one stake unit at a time.
pub proof fn lemma_yocto_linear(a: int)
    ensures
        yocto(a) == a * yocto(1),
{
    assert(a * (1 * (YOCTO_PER_NEAR as int)) == a * (YOCTO_PER_NEAR as int)) by (nonlinear_arith);
}

/// The byte of `num` at position `i`, counting from the least significant.
pub open spec fn byte_of(num: u128, i: u128) -> u8 {
    ((num >> (8 * i)) & 0xff) as u8
}

/// converts u128 to byte array, most significant byte first
pub fn to_bytearray(num: u128) -> (arr: [u8; 16])
    ensures
        forall|i: int| 0 <= i < 16 ==> arr[i] == byte_of(num, (15 - i) as u128),
{
    let arr: [u8; 16] = [
        ((num >> 120) & 0xff) as u8,
        ((num >> 112) & 0xff) as u8,
        ((num >> 104) & 0xff) as u8,
        ((num >> 96) & 0xff) as u8,
        ((num >> 88) & 0xff) as u8,
        ((num >> 80) & 0xff) as u8,
        ((num >> 72) & 0xff) as u8,
        ((num >> 64) & 0xff) as u8,
        ((num >> 56) & 0xff) as u8,
        ((num >> 48) & 0xff) as u8,
        ((num >> 40) & 0xff) as u8,
        ((num >> 32) & 0xff) as u8,
        ((num >> 24) & 0xff) as u8,
        ((num >> 16) & 0xff) as u8,
        ((num >> 8) & 0xff) as u8,
        ((num >> 0) & 0xff) as u8,
    ];
    proof {
        assert forall|i: int| 0 <= i < 16 implies arr[i] == byte_of(num, (15 - i) as u128) by {
            let k = (15 - i) as u128;
            assert(byte_of(num, k) == ((num >> (8 * k)) & 0xff) as u8);
        }
    }
    arr
}

} // verus!

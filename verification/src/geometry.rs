//! Integer geometry in the compositor's logical coordinate space.

use vstd::prelude::*;

verus! {

/// A position.
#[derive(Debug, Clone, Copy, PartialEq, Eq, Structural)]
pub struct Point {
    pub x: i32,
    pub y: i32,
}

/// An extent.
#[derive(Debug, Clone, Copy, PartialEq, Eq, Structural)]
pub struct Size {
    pub w: i32,
    pub h: i32,
}

/// An axis-aligned rectangle.
#[derive(Debug, Clone, Copy, PartialEq, Eq, Structural)]
pub struct Rectangle {
    pub loc: Point,
    pub size: Size,
}

/// Whether `v` can be held in an `i32`.
pub open spec fn fits_i32(v: int) -> bool {
    i32::MIN <= v <= i32::MAX
}

/// The origin.
pub open spec fn origin() -> Point {
    Point { x: 0, y: 0 }
}

/// The empty rectangle at the origin.
pub open spec fn empty_rectangle() -> Rectangle {
    Rectangle { loc: Point { x: 0, y: 0 }, size: Size { w: 0, h: 0 } }
}

/// The greater of two integers.
pub open spec fn greater(a: int, b: int) -> int {
    if a >= b {
        a
    } else {
        b
    }
}

/// The unsigned reading of a signed 32-bit value: negative values wrap round.
pub open spec fn wrapped_u32(v: i32) -> int {
    if v >= 0 {
        v as int
    } else {
        v + 0x1_0000_0000
    }
}

/// The signed reading of an unsigned 32-bit value: values past `i32::MAX` wrap
/// round.
pub open spec fn wrapped_i32(v: u32) -> int {
    if v <= 0x7fff_ffff {
        v as int
    } else {
        v - 0x1_0000_0000
    }
}

/// Half of `v`, rounded toward zero.
pub open spec fn half(v: int) -> int {
    if v >= 0 {
        v / 2
    } else {
        -((-v) / 2)
    }
}

impl Default for Point {
    fn default() -> (p: Self)
        ensures
            p == origin(),
    {
        Point { x: 0, y: 0 }
    }
}

impl Default for Rectangle {
    fn default() -> (r: Self)
        ensures
            r == empty_rectangle(),
    {
        Rectangle { loc: Point { x: 0, y: 0 }, size: Size { w: 0, h: 0 } }
    }
}

/// Reads a signed value as unsigned, keeping its bits.
pub fn to_u32(v: i32) -> (u: u32)
    ensures
        u == wrapped_u32(v),
{
    let u: u32 = #[verifier::truncate]
    (v as u32);
    assert(v >= 0 ==> v as u32 == v) by (bit_vector);
    assert(v < 0 ==> v as u32 == v + 0x1_0000_0000) by (bit_vector);
    u
}

/// Reads an unsigned value as signed, keeping its bits.
pub fn to_i32(v: u32) -> (i: i32)
    ensures
        i == wrapped_i32(v),
{
    let i: i32 = #[verifier::truncate]
    (v as i32);
    assert(v <= 0x7fff_ffff ==> v as i32 == v) by (bit_vector);
    assert(v > 0x7fff_ffff ==> v as i32 == v - 0x1_0000_0000) by (bit_vector);
    i
}

/// Halves `v`, rounding toward zero.
pub fn halve(v: i32) -> (h: i32)
    ensures
        h == half(v as int),
{
    v / 2
}

/// The signed and the unsigned reading of 32 bits undo each other.
pub proof fn readings_of_32_bits_agree(v: i32, u: u32)
    requires
        u == wrapped_u32(v),
    ensures
        wrapped_i32(u) == v,
{
}

/// The signed reading of 32 bits is undone by the unsigned one as well.
pub proof fn unsigned_readings_agree(v: i32, u: u32)
    requires
        v == wrapped_i32(u),
    ensures
        wrapped_u32(v) == u,
{
}

/// A value that both readings can hold reads the same in both.
pub proof fn small_values_read_the_same(v: int)
    requires
        0 <= v <= i32::MAX,
    ensures
        wrapped_u32(v as i32) == v,
        wrapped_i32(v as u32) == v,
{
}

/// Two halves make up the whole, up to one unit that has the sign of the whole.
pub proof fn halves_make_up_the_whole(v: int)
    ensures
        v >= 0 ==> 0 <= v - 2 * half(v) <= 1,
        v <= 0 ==> -1 <= v - 2 * half(v) <= 0,
{
}

/// The greater of two integers is one of them and below neither.
pub proof fn the_greater_is_above_both(a: int, b: int)
    ensures
        greater(a, b) >= a,
        greater(a, b) >= b,
        greater(a, b) == a || greater(a, b) == b,
{
}

/// Exactly the values of an `i32` can be held in one.
pub proof fn exactly_the_i32_values_fit(v: int, x: i32)
    ensures
        fits_i32(x as int),
        fits_i32(v) <==> (v as i32) as int == v,
        fits_i32(v) <==> -0x8000_0000 <= v && v <= 0x7fff_ffff,
{
}

/// Adding the origin moves no point, and the empty rectangle begins there and covers nothing.
pub proof fn the_origin_is_neutral(p: Point)
    ensures
        p.x + origin().x == p.x,
        p.y + origin().y == p.y,
        empty_rectangle().loc == origin(),
        p.x + empty_rectangle().size.w == p.x,
        p.y + empty_rectangle().size.h == p.y,
{
}

} // verus!

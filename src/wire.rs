//! Per-pixel wire messages of the pixelflut protocol, in ASCII (`PX`) and
//! binary (`PB`) form.

use vstd::prelude::*;

verus! {

/// One RGB pixel of a captured frame.
#[derive(Clone, Copy, Debug, PartialEq, Eq, Structural)]
pub struct Pixel {
    pub r: u8,
    pub g: u8,
    pub b: u8,
}

/// The ASCII digit for a decimal digit value.
pub open spec fn decimal_digit(d: nat) -> u8
    recommends
        d < 10,
{
    (48 + d) as u8
}

/// The shortest decimal text of `n`, most significant digit first.
pub open spec fn decimal(n: nat) -> Seq<u8>
    decreases n,
{
    if n < 10 {
        seq![decimal_digit(n)]
    } else {
        decimal(n / 10).push(decimal_digit(n % 10))
    }
}

/// Whether every byte of `s` is an ASCII decimal digit.
pub open spec fn all_decimal_digits(s: Seq<u8>) -> bool {
    forall|i: int| 0 <= i < s.len() ==> 48 <= #[trigger] s[i] <= 57
}

/// The value of a text of decimal digits.
pub open spec fn decimal_value(s: Seq<u8>) -> nat
    decreases s.len(),
{
    if s.len() == 0 {
        0
    } else {
        decimal_value(s.drop_last()) * 10 + (s.last() - 48) as nat
    }
}

/// The uppercase hexadecimal digit for a value below 16.
pub open spec fn hex_digit(d: nat) -> u8
    recommends
        d < 16,
{
    if d < 10 {
        (48 + d) as u8
    } else {
        (55 + d) as u8
    }
}

/// The value of an uppercase hexadecimal digit.
pub open spec fn hex_digit_value(c: u8) -> nat {
    if c <= 57 {
        (c - 48) as nat
    } else {
        (c - 55) as nat
    }
}

/// A byte as two uppercase hexadecimal digits, zero-padded.
pub open spec fn hex_pair(v: u8) -> Seq<u8> {
    seq![hex_digit(v as nat / 16), hex_digit(v as nat % 16)]
}

/// The value of two hexadecimal digits.
pub open spec fn hex_pair_value(s: Seq<u8>) -> nat {
    hex_digit_value(s[0]) * 16 + hex_digit_value(s[1])
}

/// The alpha suffix of an ASCII message: nothing at full opacity, one hex
/// pair otherwise.
pub open spec fn alpha_suffix(alpha: u8) -> Seq<u8> {
    if alpha == 255 {
        Seq::empty()
    } else {
        hex_pair(alpha)
    }
}

/// `PX {x} {y} {RRGGBB}[AA]\n`.
pub open spec fn ascii_message(x: u16, y: u16, p: Pixel, alpha: u8) -> Seq<u8> {
    seq![80u8, 88u8, 32u8] + decimal(x as nat) + seq![32u8] + decimal(y as nat) + seq![32u8]
        + hex_pair(p.r) + hex_pair(p.g) + hex_pair(p.b) + alpha_suffix(alpha) + seq![10u8]
}

/// `['P', 'B', x_lo, x_hi, y_lo, y_hi, r, g, b, a]`.
pub open spec fn binary_message(x: u16, y: u16, p: Pixel, alpha: u8) -> Seq<u8> {
    seq![
        80u8,
        66u8,
        (x % 256) as u8,
        (x / 256) as u8,
        (y % 256) as u8,
        (y / 256) as u8,
        p.r,
        p.g,
        p.b,
        alpha,
    ]
}

/// The message for one pixel in the chosen mode.
pub open spec fn pixel_message(binary: bool, x: u16, y: u16, p: Pixel, alpha: u8) -> Seq<u8> {
    if binary {
        binary_message(x, y, p, alpha)
    } else {
        ascii_message(x, y, p, alpha)
    }
}

proof fn lemma_decimal(n: nat)
    ensures
        decimal(n).len() > 0,
        all_decimal_digits(decimal(n)),
        decimal_value(decimal(n)) == n,
    decreases n,
{
    if n >= 10 {
        lemma_decimal(n / 10);
        let d = decimal(n);
        assert(d.drop_last() == decimal(n / 10));
        assert(d.last() == decimal_digit(n % 10));
        assert((n / 10) * 10 + n % 10 == n);
        assert(decimal_value(d) == decimal_value(d.drop_last()) * 10 + (d.last() - 48) as nat);
    } else {
        let d = decimal(n);
        assert(d.drop_last() =~= Seq::<u8>::empty());
        assert(decimal_value(d) == decimal_value(d.drop_last()) * 10 + (d.last() - 48) as nat);
    }
}

proof fn lemma_hex_pair(v: u8)
    ensures
        hex_pair(v).len() == 2,
        hex_pair_value(hex_pair(v)) == v,
{
}

/// Where the colour hex pairs of an ASCII message start.
pub open spec fn colour_start(x: u16, y: u16) -> int {
    3 + decimal(x as nat).len() as int + 1 + decimal(y as nat).len() as int + 1
}

/// An ASCII message reads back to the integers it was made from: after
/// `PX ` stand the decimal digits of `x` and of `y`, each run closed by a
/// space and reading back to its value, then one hex pair per colour byte,
/// each reading back to that byte.
pub proof fn lemma_ascii_round_trip(x: u16, y: u16, p: Pixel, alpha: u8)
    ensures
        ({
            let m = ascii_message(x, y, p, alpha);
            let dx = decimal(x as nat);
            let dy = decimal(y as nat);
            let ys: int = 3 + dx.len() as int + 1;
            let c: int = colour_start(x, y);
            &&& m.subrange(0, 3) == seq![80u8, 88u8, 32u8]
            &&& dx.len() > 0 && all_decimal_digits(dx)
            &&& m.subrange(3, 3 + dx.len() as int) == dx
            &&& decimal_value(m.subrange(3, 3 + dx.len() as int)) == x
            &&& m[3 + dx.len() as int] == 32u8
            &&& dy.len() > 0 && all_decimal_digits(dy)
            &&& m.subrange(ys, ys + dy.len() as int) == dy
            &&& decimal_value(m.subrange(ys, ys + dy.len() as int)) == y
            &&& m[ys + dy.len() as int] == 32u8
            &&& hex_pair_value(m.subrange(c, c + 2)) == p.r
            &&& hex_pair_value(m.subrange(c + 2, c + 4)) == p.g
            &&& hex_pair_value(m.subrange(c + 4, c + 6)) == p.b
        }),
{
    let m = ascii_message(x, y, p, alpha);
    let dx = decimal(x as nat);
    let dy = decimal(y as nat);
    let ys: int = 3 + dx.len() as int + 1;
    let c: int = colour_start(x, y);
    lemma_decimal(x as nat);
    lemma_decimal(y as nat);
    lemma_hex_pair(p.r);
    lemma_hex_pair(p.g);
    lemma_hex_pair(p.b);
    assert(m.subrange(0, 3) =~= seq![80u8, 88u8, 32u8]);
    assert(m.subrange(3, 3 + dx.len() as int) =~= dx);
    assert(m.subrange(ys, ys + dy.len() as int) =~= dy);
    assert(m.subrange(c, c + 2) =~= hex_pair(p.r));
    assert(m.subrange(c + 2, c + 4) =~= hex_pair(p.g));
    assert(m.subrange(c + 4, c + 6) =~= hex_pair(p.b));
}

/// At full opacity an ASCII message ends right after the three colour pairs;
/// below it exactly one more hex pair, two digits that read back to the
/// alpha, stands before the newline.
pub proof fn lemma_alpha_omission(x: u16, y: u16, p: Pixel, alpha: u8)
    ensures
        ({
            let m = ascii_message(x, y, p, alpha);
            let c: int = colour_start(x, y);
            &&& alpha == 255 ==> m.len() == c + 7 && m[c + 6] == 10u8
            &&& alpha < 255 ==> {
                &&& m.len() == c + 9
                &&& m.subrange(c + 6, c + 8) == hex_pair(alpha)
                &&& hex_pair_value(m.subrange(c + 6, c + 8)) == alpha
                &&& m[c + 8] == 10u8
            }
        }),
{
    let m = ascii_message(x, y, p, alpha);
    let c: int = colour_start(x, y);
    lemma_hex_pair(alpha);
    if alpha < 255 {
        assert(m.subrange(c + 6, c + 8) =~= hex_pair(alpha));
    }
}

/// A binary message is ten bytes, `P` and `B` first, and both coordinates
/// come back as `lo | (hi << 8)` from their two bytes.
pub proof fn lemma_binary_layout(x: u16, y: u16, p: Pixel, alpha: u8)
    ensures
        ({
            let m = binary_message(x, y, p, alpha);
            &&& m.len() == 10
            &&& m[0] == 80u8 && m[1] == 66u8
            &&& (m[2] as u16 | ((m[3] as u16) << 8u16)) == x
            &&& (m[4] as u16 | ((m[5] as u16) << 8u16)) == y
            &&& m[6] == p.r && m[7] == p.g && m[8] == p.b && m[9] == alpha
        }),
{
    lemma_lo_hi(x);
    lemma_lo_hi(y);
}

proof fn lemma_lo_hi(v: u16)
    ensures
        ((v % 256) as u8 as u16 | (((v / 256) as u8 as u16) << 8u16)) == v,
{
    assert(((v % 256) as u8 as u16 | (((v / 256) as u8 as u16) << 8u16)) == v) by (bit_vector);
}

/// Appends the decimal text of `n`.
fn push_decimal(out: &mut Vec<u8>, n: u16)
    ensures
        final(out)@ == old(out)@ + decimal(n as nat),
    decreases n,
{
    if n >= 10 {
        push_decimal(out, n / 10);
    }
    out.push(48u8 + (n % 10) as u8);
    proof {
        if n >= 10 {
            assert(decimal(n as nat) == decimal((n / 10) as nat).push(decimal_digit((n % 10) as nat)));
        } else {
            assert(decimal(n as nat) == seq![decimal_digit(n as nat)]);
        }
    }
}

/// The uppercase hexadecimal digit for a value below 16.
fn hex_digit_byte(d: u8) -> (r: u8)
    requires
        d < 16,
    ensures
        r == hex_digit(d as nat),
{
    if d < 10 {
        48 + d
    } else {
        55 + d
    }
}

/// Appends a byte as two uppercase hexadecimal digits.
fn push_hex_pair(out: &mut Vec<u8>, v: u8)
    ensures
        final(out)@ == old(out)@ + hex_pair(v),
{
    out.push(hex_digit_byte(v / 16));
    out.push(hex_digit_byte(v % 16));
}

/// Encodes one pixel as `PX {x} {y} {RRGGBB}\n`, with a fourth hex pair for
/// the alpha when it is below full opacity.
pub fn encode_ascii(x: u16, y: u16, p: Pixel, alpha: u8) -> (r: Vec<u8>)
    ensures
        r@ == ascii_message(x, y, p, alpha),
{
    let mut out: Vec<u8> = Vec::new();
    out.push(80u8);
    out.push(88u8);
    out.push(32u8);
    push_decimal(&mut out, x);
    out.push(32u8);
    push_decimal(&mut out, y);
    out.push(32u8);
    push_hex_pair(&mut out, p.r);
    push_hex_pair(&mut out, p.g);
    push_hex_pair(&mut out, p.b);
    if alpha != 255 {
        push_hex_pair(&mut out, alpha);
    }
    out.push(10u8);
    assert(out@ =~= ascii_message(x, y, p, alpha));
    out
}

/// Encodes one pixel as the ten-byte binary record.
pub fn encode_binary(x: u16, y: u16, p: Pixel, alpha: u8) -> (r: Vec<u8>)
    ensures
        r@ == binary_message(x, y, p, alpha),
{
    let mut out: Vec<u8> = Vec::new();
    out.push(80u8);
    out.push(66u8);
    out.push((x % 256) as u8);
    out.push((x / 256) as u8);
    out.push((y % 256) as u8);
    out.push((y / 256) as u8);
    out.push(p.r);
    out.push(p.g);
    out.push(p.b);
    out.push(alpha);
    assert(out@ =~= binary_message(x, y, p, alpha));
    out
}

/// Encodes one pixel in binary or ASCII mode.
pub fn encode_pixel(binary: bool, x: u16, y: u16, p: Pixel, alpha: u8) -> (r: Vec<u8>)
    ensures
        r@ == pixel_message(binary, x, y, p, alpha),
{
    if binary {
        encode_binary(x, y, p, alpha)
    } else {
        encode_ascii(x, y, p, alpha)
    }
}

} // verus!

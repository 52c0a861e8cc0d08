use vstd::prelude::*;

use crate::pixels::PixelBuffer;

verus! {

/// A pixel counts as "on" when any ink at all reached it: binarization has
/// no configurable threshold.
pub open spec fn px_on(p: u8) -> bool {
    p != 0
}

/// Whether column x of row y holds an "on" pixel.  Columns at or beyond the
/// canvas width count as "off", which is what the packer's zero-initialised
/// accumulator produces for a row whose width is not a multiple of eight.
pub open spec fn col_on(pixels: Seq<u8>, w: nat, y: nat, x: nat) -> bool {
    x < w && px_on(pixels[y * w + x as int])
}

pub open spec fn b2u(b: bool) -> u8 {
    if b {
        1u8
    } else {
        0u8
    }
}

/// The byte whose bit i (counting from the least significant bit) is bi.
pub open spec fn byte_from_bits(
    b0: bool,
    b1: bool,
    b2: bool,
    b3: bool,
    b4: bool,
    b5: bool,
    b6: bool,
    b7: bool,
) -> u8 {
    (b2u(b0) + 2 * b2u(b1) + 4 * b2u(b2) + 8 * b2u(b3) + 16 * b2u(b4) + 32 * b2u(b5) + 64 * b2u(b6)
        + 128 * b2u(b7)) as u8
}

/// Bit i of b, counting from the least significant bit.
pub open spec fn bit_of(b: u8, i: u8) -> bool {
    (b >> i) & 1 == 1
}

/// b with its bit order reversed: bit 0 and bit 7 swap, bit 1 and bit 6
/// swap, and so on.
pub open spec fn rev8(b: u8) -> u8 {
    ((b & 0x01) << 7) | ((b & 0x02) << 5) | ((b & 0x04) << 3) | ((b & 0x08) << 1) | ((b & 0x10)
        >> 1) | ((b & 0x20) >> 3) | ((b & 0x40) >> 5) | ((b & 0x80) >> 7)
}

/// The packer's accumulator after the first m pixels of group k of row y
/// have been folded in most-significant-bit first: the pixel at column
/// 8k + i lands in bit 7 - i.
pub open spec fn pre_byte_upto(pixels: Seq<u8>, w: nat, y: nat, k: nat, m: nat) -> u8 {
    byte_from_bits(
        m > 7 && col_on(pixels, w, y, 8 * k + 7),
        m > 6 && col_on(pixels, w, y, 8 * k + 6),
        m > 5 && col_on(pixels, w, y, 8 * k + 5),
        m > 4 && col_on(pixels, w, y, 8 * k + 4),
        m > 3 && col_on(pixels, w, y, 8 * k + 3),
        m > 2 && col_on(pixels, w, y, 8 * k + 2),
        m > 1 && col_on(pixels, w, y, 8 * k + 1),
        m > 0 && col_on(pixels, w, y, 8 * k + 0),
    )
}

/// The fully accumulated byte for group k of row y, before the bit
/// reversal that precedes every append to the output.
pub open spec fn pre_reversal_byte(pixels: Seq<u8>, w: nat, y: nat, k: nat) -> u8 {
    pre_byte_upto(pixels, w, y, k, 8)
}

/// The output byte for group k of row y.  Net effect of accumulating
/// most-significant-bit first and reversing the byte on flush: bit i holds
/// the binarized pixel of column 8k + i.
pub open spec fn packed_byte(pixels: Seq<u8>, w: nat, y: nat, k: nat) -> u8 {
    byte_from_bits(
        col_on(pixels, w, y, 8 * k + 0),
        col_on(pixels, w, y, 8 * k + 1),
        col_on(pixels, w, y, 8 * k + 2),
        col_on(pixels, w, y, 8 * k + 3),
        col_on(pixels, w, y, 8 * k + 4),
        col_on(pixels, w, y, 8 * k + 5),
        col_on(pixels, w, y, 8 * k + 6),
        col_on(pixels, w, y, 8 * k + 7),
    )
}

/// Each row flushes at its last column, so a row contributes one byte per
/// started group of eight pixels.
pub open spec fn bytes_per_row(w: nat) -> nat {
    (w + 7) / 8
}

/// The whole packed bit-stream for a w-by-h pixel grid.
pub open spec fn packed(pixels: Seq<u8>, w: nat, h: nat) -> Seq<u8> {
    Seq::new(
        h * bytes_per_row(w),
        |j: int|
            packed_byte(
                pixels,
                w,
                (j / (bytes_per_row(w) as int)) as nat,
                (j % (bytes_per_row(w) as int)) as nat,
            ),
    )
}

proof fn lemma_bytes_equal_by_bits(a: u8, b: u8)
    by (bit_vector)
    requires
        bit_of(a, 0) == bit_of(b, 0),
        bit_of(a, 1) == bit_of(b, 1),
        bit_of(a, 2) == bit_of(b, 2),
        bit_of(a, 3) == bit_of(b, 3),
        bit_of(a, 4) == bit_of(b, 4),
        bit_of(a, 5) == bit_of(b, 5),
        bit_of(a, 6) == bit_of(b, 6),
        bit_of(a, 7) == bit_of(b, 7),
    ensures
        a == b,
{
}

proof fn lemma_bits_of_byte_from_bits(
    b0: bool,
    b1: bool,
    b2: bool,
    b3: bool,
    b4: bool,
    b5: bool,
    b6: bool,
    b7: bool,
)
    by (bit_vector)
    ensures
        bit_of(byte_from_bits(b0, b1, b2, b3, b4, b5, b6, b7), 0) == b0,
        bit_of(byte_from_bits(b0, b1, b2, b3, b4, b5, b6, b7), 1) == b1,
        bit_of(byte_from_bits(b0, b1, b2, b3, b4, b5, b6, b7), 2) == b2,
        bit_of(byte_from_bits(b0, b1, b2, b3, b4, b5, b6, b7), 3) == b3,
        bit_of(byte_from_bits(b0, b1, b2, b3, b4, b5, b6, b7), 4) == b4,
        bit_of(byte_from_bits(b0, b1, b2, b3, b4, b5, b6, b7), 5) == b5,
        bit_of(byte_from_bits(b0, b1, b2, b3, b4, b5, b6, b7), 6) == b6,
        bit_of(byte_from_bits(b0, b1, b2, b3, b4, b5, b6, b7), 7) == b7,
{
}

proof fn lemma_rev8_bits(b: u8)
    by (bit_vector)
    ensures
        bit_of(rev8(b), 0) == bit_of(b, 7),
        bit_of(rev8(b), 1) == bit_of(b, 6),
        bit_of(rev8(b), 2) == bit_of(b, 5),
        bit_of(rev8(b), 3) == bit_of(b, 4),
        bit_of(rev8(b), 4) == bit_of(b, 3),
        bit_of(rev8(b), 5) == bit_of(b, 2),
        bit_of(rev8(b), 6) == bit_of(b, 1),
        bit_of(rev8(b), 7) == bit_of(b, 0),
{
}

proof fn lemma_zero_bits()
    by (bit_vector)
    ensures
        forall|i: u8| i < 8 ==> !bit_of(0u8, i),
{
}

proof fn lemma_or_bit(b: u8, p: u8)
    by (bit_vector)
    requires
        p < 8,
    ensures
        forall|i: u8| i < 8 && i != p ==> bit_of(b | (1u8 << p), i) == bit_of(b, i),
        bit_of(b | (1u8 << p), p),
{
}

/// The double-inversion contract of the packer: every output byte is the
/// bit-reversal of the byte the packer accumulated for that group.
pub proof fn lemma_packed_byte_is_reversal(pixels: Seq<u8>, w: nat, y: nat, k: nat)
    ensures
        packed_byte(pixels, w, y, k) == rev8(pre_reversal_byte(pixels, w, y, k)),
{
    let c0 = col_on(pixels, w, y, 8 * k + 0);
    let c1 = col_on(pixels, w, y, 8 * k + 1);
    let c2 = col_on(pixels, w, y, 8 * k + 2);
    let c3 = col_on(pixels, w, y, 8 * k + 3);
    let c4 = col_on(pixels, w, y, 8 * k + 4);
    let c5 = col_on(pixels, w, y, 8 * k + 5);
    let c6 = col_on(pixels, w, y, 8 * k + 6);
    let c7 = col_on(pixels, w, y, 8 * k + 7);
    let pre = pre_reversal_byte(pixels, w, y, k);
    let out = packed_byte(pixels, w, y, k);
    assert(pre == byte_from_bits(c7, c6, c5, c4, c3, c2, c1, c0));
    lemma_bits_of_byte_from_bits(c7, c6, c5, c4, c3, c2, c1, c0);
    lemma_bits_of_byte_from_bits(c0, c1, c2, c3, c4, c5, c6, c7);
    lemma_rev8_bits(pre);
    lemma_bytes_equal_by_bits(out, rev8(pre));
}

/// b with its bit order reversed.
pub fn reverse_bits_u8(b: u8) -> (r: u8)
    ensures
        r == rev8(b),
{
    ((b & 0x01) << 7) | ((b & 0x02) << 5) | ((b & 0x04) << 3) | ((b & 0x08) << 1) | ((b & 0x10)
        >> 1) | ((b & 0x20) >> 3) | ((b & 0x40) >> 5) | ((b & 0x80) >> 7)
}

/// Pack a pixel grid into the panel's bit-stream.
///
/// Pixels are visited in row-major order and accumulated into a working
/// byte most-significant-bit first.  The byte is flushed (bit-reversed,
/// then appended) after every eighth pixel of a row and at the last column
/// of a row, so every row starts a fresh byte.
pub fn pack(image: &PixelBuffer) -> (data: Vec<u8>)
    requires
        image.wf(),
    ensures
        data@ == packed(image@, image.spec_width() as nat, image.spec_height() as nat),
{
    let w = image.width();
    let h = image.height();
    let ghost pix = image@;
    let ghost wn = w as nat;
    let ghost hn = h as nat;
    let ghost bpr = bytes_per_row(wn);
    let mut data: Vec<u8> = Vec::new();
    let mut byte: u8 = 0;
    let mut y: u32 = 0;
    proof {
        lemma_zero_bits();
    }
    while y < h
        invariant
            image.wf(),
            w == image.spec_width(),
            h == image.spec_height(),
            pix == image@,
            wn == w as nat,
            hn == h as nat,
            bpr == bytes_per_row(wn),
            y <= h,
            byte == 0u8,
            data@.len() == y * bpr,
            forall|j: int|
                0 <= j < data@.len() ==> data@[j] == packed_byte(
                    pix,
                    wn,
                    (j / (bpr as int)) as nat,
                    (j % (bpr as int)) as nat,
                ),
        decreases h - y,
    {
        proof {
            lemma_zero_bits();
        }
        let mut x: u32 = 0;
        while x < w
            invariant
                image.wf(),
                w == image.spec_width(),
                h == image.spec_height(),
                pix == image@,
                wn == w as nat,
                hn == h as nat,
                bpr == bytes_per_row(wn),
                y < h,
                x <= w,
                data@.len() == y * bpr + x as int / 8 + (if x == w && w % 8 != 0 {
                    1int
                } else {
                    0int
                }),
                forall|j: int|
                    0 <= j < data@.len() ==> data@[j] == packed_byte(
                        pix,
                        wn,
                        (j / (bpr as int)) as nat,
                        (j % (bpr as int)) as nat,
                    ),
                x < w ==> forall|i: u8|
                    i < 8 ==> bit_of(byte, i) == ((7 - i) < x as int % 8 && col_on(
                        pix,
                        wn,
                        y as nat,
                        (8 * (x as int / 8) + (7 - i)) as nat,
                    )),
                x == w ==> byte == 0u8,
            decreases w - x,
        {
            let ghost k = x as int / 8;
            let ghost m = x as int % 8;
            proof {
                assert(8 * k + m == x as int);
                assert(y * wn + x < wn * hn) by (nonlinear_arith)
                    requires
                        x < wn,
                        y < hn,
                ;
            }
            let ghost b_old = byte;
            let p = image.get_pixel(x, y);
            if 0 < p {
                let bit_offset = x % 8;
                let shift: u8 = (7 - bit_offset) as u8;
                proof {
                    lemma_or_bit(byte, shift);
                }
                byte = byte | (1u8 << shift);
            }
            proof {
                // after the update, byte holds the first m + 1 pixels of group k
                assert forall|i: u8| i < 8 implies bit_of(byte, i) == ((7 - i) < m + 1 && col_on(
                    pix,
                    wn,
                    y as nat,
                    (8 * k + (7 - i)) as nat,
                )) by {
                    let pos = 7 - i as int;
                    assert(bit_of(b_old, i) == (pos < m && col_on(
                        pix,
                        wn,
                        y as nat,
                        (8 * k + pos) as nat,
                    )));
                    assert(col_on(pix, wn, y as nat, x as nat) == px_on(pix[y * wn + x as int]));
                    if pos == m {
                        assert(col_on(pix, wn, y as nat, (8 * k + pos) as nat) == (0 < p));
                    }
                }
            }
            if (x + 1) % 8 == 0 || x + 1 == w {
                proof {
                    // the flushed byte is exactly the packed byte of group k
                    let cb = |i: int| col_on(pix, wn, y as nat, (8 * k + i) as nat);
                    assert(forall|i: u8|
                        i < 8 ==> bit_of(byte, i) == col_on(
                            pix,
                            wn,
                            y as nat,
                            (8 * k + (7 - i)) as nat,
                        ));
                    lemma_bits_of_byte_from_bits(
                        cb(0),
                        cb(1),
                        cb(2),
                        cb(3),
                        cb(4),
                        cb(5),
                        cb(6),
                        cb(7),
                    );
                    lemma_rev8_bits(byte);
                    lemma_bytes_equal_by_bits(rev8(byte), packed_byte(pix, wn, y as nat, k as nat));
                    assert(rev8(byte) == packed_byte(pix, wn, y as nat, k as nat));
                    // the new byte lands at row y, group k
                    assert(k < bpr);
                    vstd::arithmetic::div_mod::lemma_fundamental_div_mod_converse(
                        y * bpr + k,
                        bpr as int,
                        y as int,
                        k,
                    );
                }
                data.push(reverse_bits_u8(byte));
                byte = 0;
                proof {
                    lemma_zero_bits();
                }
            } else {
                proof {
                    assert((x as int + 1) / 8 == k);
                    assert((x as int + 1) % 8 == m + 1);
                }
            }
            x = x + 1;
        }
        proof {
            assert(y * bpr + bpr == (y + 1) * bpr) by (nonlinear_arith);
        }
        y = y + 1;
    }
    proof {
        assert(data@ =~= packed(pix, wn, hn));
    }
    data
}

proof fn lemma_pixel_index_in_range(w: nat, h: nat, y: nat, x: nat)
    requires
        x < w,
        y < h,
    ensures
        y * w + x < w * h,
{
    assert(y * w + x < w * h) by (nonlinear_arith)
        requires
            x < w,
            y < h,
    ;
}

/// Packing yields one byte for each started group of eight pixels in each
/// row, so a row-aligned canvas packs to exactly one bit per pixel:
/// width * height / 8 bytes.
pub proof fn lemma_packed_len_row_aligned(pixels: Seq<u8>, w: nat, h: nat)
    requires
        w % 8 == 0,
    ensures
        packed(pixels, w, h).len() == (w * h) / 8,
{
    let q = w / 8;
    assert(w == 8 * q);
    assert(bytes_per_row(w) == q);
    assert(w * h == 8 * (q * h)) by (nonlinear_arith)
        requires
            w == 8 * q,
    ;
    assert((8 * (q * h)) / 8 == q * h);
    assert(h * q == q * h) by (nonlinear_arith);
}

/// A grid with no ink anywhere packs to a bit-stream of zero bytes.
pub proof fn lemma_pack_all_zero(pixels: Seq<u8>, w: nat, h: nat)
    requires
        pixels.len() == w * h,
        forall|i: int| 0 <= i < pixels.len() ==> pixels[i] == 0u8,
    ensures
        forall|j: int|
            0 <= j < packed(pixels, w, h).len() ==> packed(pixels, w, h)[j] == 0u8,
{
    let s = packed(pixels, w, h);
    let bpr = bytes_per_row(w) as int;
    assert forall|j: int| 0 <= j < s.len() implies s[j] == 0u8 by {
        assert(bpr > 0);
        let y = j / bpr;
        assert(j < bpr * (h as int)) by (nonlinear_arith)
            requires
                j < h * bpr,
        ;
        vstd::arithmetic::div_mod::lemma_multiply_divide_lt(j, bpr, h as int);
        assert(0 <= y < h);
        assert forall|x: nat| x < w implies !#[trigger] col_on(pixels, w, y as nat, x) by {
            lemma_pixel_index_in_range(w, h, y as nat, x);
        }
        assert(s[j] == byte_from_bits(false, false, false, false, false, false, false, false));
    }
}

/// A grid with ink on every pixel packs, on a row-aligned canvas, to a
/// bit-stream of 0xFF bytes (the bit-reversal of 0xFF is itself).
pub proof fn lemma_pack_all_set(pixels: Seq<u8>, w: nat, h: nat)
    requires
        w % 8 == 0,
        pixels.len() == w * h,
        forall|i: int| 0 <= i < pixels.len() ==> pixels[i] != 0u8,
    ensures
        packed(pixels, w, h).len() == (w * h) / 8,
        forall|j: int|
            0 <= j < packed(pixels, w, h).len() ==> packed(pixels, w, h)[j] == 255u8,
{
    lemma_packed_len_row_aligned(pixels, w, h);
    let s = packed(pixels, w, h);
    let bpr = bytes_per_row(w) as int;
    assert forall|j: int| 0 <= j < s.len() implies s[j] == 255u8 by {
        assert(bpr > 0);
        let y = j / bpr;
        let k = j % bpr;
        assert(j < bpr * (h as int)) by (nonlinear_arith)
            requires
                j < h * bpr,
        ;
        vstd::arithmetic::div_mod::lemma_multiply_divide_lt(j, bpr, h as int);
        assert(0 <= y < h);
        assert(0 <= k < bpr);
        assert(w == 8 * bpr);
        assert forall|x: nat| x < w implies #[trigger] col_on(pixels, w, y as nat, x) by {
            lemma_pixel_index_in_range(w, h, y as nat, x);
        }
        assert(8 * k + 7 < w);
        assert(s[j] == byte_from_bits(true, true, true, true, true, true, true, true));
    }
}

} // verus!

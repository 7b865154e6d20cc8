//! Internet checksum (RFC 1071): the 16-bit one's-complement sum of the
//! 16-bit big-endian words of a buffer, complemented.  A buffer whose
//! checksum field is set correctly sums to zero.

use vstd::prelude::*;
use vstd::arithmetic::div_mod::{
    lemma_fundamental_div_mod, lemma_mod_multiples_vanish, lemma_small_mod,
};

verus! {

/// Sum of the 16-bit big-endian words of `data`, a trailing odd byte padded
/// with a zero on the right, as an unbounded natural number (carries not yet
/// folded).
pub open spec fn sum16(data: Seq<u8>) -> nat
    decreases data.len(),
{
    if data.len() >= 2 {
        (data[0] as nat) * 256 + (data[1] as nat) + sum16(data.skip(2))
    } else if data.len() == 1 {
        (data[0] as nat) * 256
    } else {
        0
    }
}

/// One's-complement folding of an accumulator: the unique value in
/// `0 ..= 0xffff` congruent to `x` modulo `0xffff`, where `0` stands only
/// for a sum that is exactly zero.
pub open spec fn oc_fold(x: nat) -> nat {
    if x == 0 {
        0
    } else if x % 0xffff == 0 {
        0xffff
    } else {
        x % 0xffff
    }
}

/// The Internet checksum of `data`, starting from the initial accumulator
/// `init` (nonzero only for pseudo-header sums).
pub open spec fn checksum(data: Seq<u8>, init: nat) -> u16 {
    (0xffff - oc_fold(init + sum16(data))) as u16
}

/// Splitting a buffer after an even number of bytes splits its word sum.
pub proof fn lemma_sum16_concat(s: Seq<u8>, t: Seq<u8>)
    requires
        s.len() % 2 == 0,
    ensures
        sum16(s + t) == sum16(s) + sum16(t),
    decreases s.len(),
{
    if s.len() == 0 {
        assert(s + t =~= t);
    } else {
        assert((s + t).skip(2) =~= s.skip(2) + t);
        lemma_sum16_concat(s.skip(2), t);
    }
}

/// One folding step keeps the accumulator's congruence class modulo 0xffff,
/// keeps "is exactly zero", never exceeds 0xffff + the folded carry, and
/// strictly shrinks an accumulator that does not yet fit in 16 bits.
proof fn lemma_fold_step(x: nat)
    ensures
        (x % 0x10000 + x / 0x10000) % 0xffff == x % 0xffff,
        (x % 0x10000 + x / 0x10000 == 0) <==> (x == 0),
        x > 0xffff ==> x % 0x10000 + x / 0x10000 < x,
        x <= 0x1fffe ==> x % 0x10000 + x / 0x10000 <= 0xffff,
{
    let q = x / 0x10000;
    let a = x % 0x10000;
    lemma_fundamental_div_mod(x as int, 0x10000);
    assert(x == 0x10000 * q + a);
    assert(x as int == 0xffff * (q as int) + ((q + a) as int));
    lemma_mod_multiples_vanish(q as int, (q + a) as int, 0xffff);
}

/// The folded accumulator is exactly `oc_fold` of the running total.
proof fn lemma_folded_is_oc_fold(sum: nat, total: nat)
    requires
        sum <= 0xffff,
        sum % 0xffff == total % 0xffff,
        (sum == 0) <==> (total == 0),
    ensures
        sum == oc_fold(total),
{
    if total == 0 {
    } else if total % 0xffff == 0 {
        assert(sum % 0xffff == 0);
        assert(sum == 0xffff);
    } else {
        assert(sum != 0xffff);
        assert(sum == sum % 0xffff);
    }
}

/// Word sum of one more 16-bit word taken from the front of `s`.
proof fn lemma_sum16_take_word(s: Seq<u8>, i: int)
    requires
        0 <= i,
        i % 2 == 0,
        i + 2 <= s.len(),
    ensures
        sum16(s.take(i + 2)) == sum16(s.take(i)) + (s[i] as nat) * 256 + (s[i + 1] as nat),
{
    let w = seq![s[i], s[i + 1]];
    assert(s.take(i + 2) =~= s.take(i) + w);
    lemma_sum16_concat(s.take(i), w);
    assert(w.skip(2) =~= Seq::<u8>::empty());
    assert(sum16(w.skip(2)) == 0);
    assert(sum16(w) == (s[i] as nat) * 256 + (s[i + 1] as nat));
}

/// Word sum of a buffer with a trailing odd byte.
proof fn lemma_sum16_take_last(s: Seq<u8>)
    requires
        s.len() % 2 == 1,
    ensures
        sum16(s) == sum16(s.take(s.len() - 1)) + (s[s.len() - 1] as nat) * 256,
{
    let last = seq![s[s.len() - 1]];
    assert(s =~= s.take(s.len() - 1) + last);
    lemma_sum16_concat(s.take(s.len() - 1), last);
}

/// The weight a byte at index `j` carries in the word sum: the high byte of
/// a word counts 256 times, the low byte once.
spec fn byte_weight(j: int) -> nat {
    if j % 2 == 0 {
        256
    } else {
        1
    }
}

/// Replacing the byte at index `j` shifts the word sum by the weighted
/// difference of the old and new byte.
proof fn lemma_sum16_update(s: Seq<u8>, j: int, v: u8)
    requires
        0 <= j < s.len(),
    ensures
        sum16(s.update(j, v)) + byte_weight(j) * (s[j] as nat) == sum16(s) + byte_weight(j) * (
        v as nat),
    decreases j,
{
    if j >= 2 {
        assert(s.update(j, v).skip(2) =~= s.skip(2).update(j - 2, v));
        lemma_sum16_update(s.skip(2), j - 2, v);
        assert((j - 2) % 2 == j % 2) by {
            lemma_mod_multiples_vanish(-1, j, 2);
            assert(2 * (-1) + j == j - 2);
        }
        if j % 2 == 0 {
            assert(byte_weight(j) == 256 && byte_weight(j - 2) == 256);
        } else {
            assert(byte_weight(j) == 1 && byte_weight(j - 2) == 1);
        }
        assert(s.skip(2)[j - 2] == s[j]);
        assert(s.update(j, v)[0] == s[0] && s.update(j, v)[1] == s[1]);
        assert(sum16(s.update(j, v)) == (s[0] as nat) * 256 + (s[1] as nat) + sum16(
            s.update(j, v).skip(2),
        ));
        assert(sum16(s) == (s[0] as nat) * 256 + (s[1] as nat) + sum16(s.skip(2)));
        assert(sum16(s.update(j, v)) + byte_weight(j) * (s[j] as nat) == sum16(s) + byte_weight(j)
            * (v as nat));
    } else if j == 0 {
        if s.len() == 1 {
            assert(sum16(s.update(0, v)) == (v as nat) * 256);
            assert(sum16(s) == (s[0] as nat) * 256);
        } else {
            assert(s.update(0, v).skip(2) =~= s.skip(2));
            assert(sum16(s.update(0, v)) == (v as nat) * 256 + (s[1] as nat) + sum16(s.skip(2)));
            assert(sum16(s) == (s[0] as nat) * 256 + (s[1] as nat) + sum16(s.skip(2)));
        }
        assert(byte_weight(0) == 256);
    } else {
        assert(s.update(1, v).skip(2) =~= s.skip(2));
        assert(sum16(s.update(1, v)) == (s[0] as nat) * 256 + (v as nat) + sum16(s.skip(2)));
        assert(sum16(s) == (s[0] as nat) * 256 + (s[1] as nat) + sum16(s.skip(2)));
        assert(byte_weight(1) == 1);
    }
}

/// `oc_fold` keeps the congruence class modulo 0xffff, stays within 16 bits,
/// and is zero exactly for a zero total.
proof fn lemma_oc_fold(x: nat)
    ensures
        oc_fold(x) % 0xffff == x % 0xffff,
        oc_fold(x) <= 0xffff,
        (oc_fold(x) == 0) <==> (x == 0),
        oc_fold(x) <= x || x == 0,
{
    if x == 0 {
    } else if x % 0xffff == 0 {
        lemma_small_mod(0, 0xffff);
        lemma_mod_multiples_vanish(1, 0, 0xffff);
        lemma_fundamental_div_mod(x as int, 0xffff);
        assert(x >= 0xffff);
    } else {
        lemma_small_mod(x % 0xffff, 0xffff);
        lemma_fundamental_div_mod(x as int, 0xffff);
    }
}

/// A buffer that carries its own checksum verifies: if the 16-bit field at
/// even byte offset `i` holds, big-endian, the checksum computed over the
/// buffer with that field zeroed, then the checksum of the whole buffer
/// folds to zero.
pub proof fn lemma_stamped_checksum_is_zero(data: Seq<u8>, i: int)
    requires
        0 <= i,
        i % 2 == 0,
        i + 2 <= data.len(),
        (data[i] as nat) * 256 + (data[i + 1] as nat) == checksum(
            data.update(i, 0).update(i + 1, 0),
            0,
        ) as nat,
    ensures
        checksum(data, 0) == 0,
{
    let z = data.update(i, 0).update(i + 1, 0);
    let s0 = sum16(z);
    let f = oc_fold(s0);
    let c = checksum(z, 0) as nat;
    lemma_oc_fold(s0);
    assert(c == 0xffff - f);

    // Putting the two field bytes back adds exactly `c` to the word sum.
    let z1 = z.update(i, data[i]);
    assert(z1.update(i + 1, data[i + 1]) =~= data);
    lemma_sum16_update(z, i, data[i]);
    assert(z[i] == 0 && z[i + 1] == 0 && z1[i + 1] == 0);
    lemma_sum16_update(z1, i + 1, data[i + 1]);
    assert(byte_weight(i) == 256);
    assert((i + 1) % 2 == 1) by {
        lemma_fundamental_div_mod(i, 2);
        lemma_mod_multiples_vanish(i / 2, 1, 2);
        lemma_small_mod(1, 2);
        assert(i + 1 == 2 * (i / 2) + 1);
    }
    assert(byte_weight(i + 1) == 1);
    let s = sum16(data);
    assert(s == s0 + c);

    // The new total is congruent to 0xffff, hence folds to 0xffff exactly.
    let m = 0xffff as int;
    assert(s as int == m + (s0 - f));
    assert((s0 - f) % m == 0) by {
        lemma_fundamental_div_mod(s0 as int, m);
        lemma_fundamental_div_mod(f as int, m);
        lemma_mod_multiples_vanish(s0 as int / m - f as int / m, 0, m);
        assert(s0 as int - f as int == m * (s0 as int / m - f as int / m) + 0);
    }
    assert(s as int % m == 0) by {
        lemma_fundamental_div_mod(s0 as int - f as int, m);
        lemma_mod_multiples_vanish(1 + (s0 as int - f as int) / m, 0, m);
        assert(s as int == m * (1 + (s0 as int - f as int) / m) + 0);
    }
    assert(s > 0);
    assert(oc_fold(s) == 0xffff);
}

/// Corrupting any single byte of a buffer whose checksum folds to zero
/// makes the checksum nonzero: the checksum detects every one-byte error.
pub proof fn lemma_checksum_detects_corruption(data: Seq<u8>, j: int, v: u8)
    requires
        checksum(data, 0) == 0,
        0 <= j < data.len(),
        v != data[j],
    ensures
        checksum(data.update(j, v), 0) != 0,
{
    let m = 0xffff as int;
    let s = sum16(data);
    let s2 = sum16(data.update(j, v));
    assert(oc_fold(s) == 0xffff);
    assert(s % 0xffff == 0 && s > 0);

    lemma_sum16_update(data, j, v);
    let w = byte_weight(j) as int;
    let d = w * (v as int) - w * (data[j] as int);
    assert(s2 as int == s as int + d);
    assert(d != 0 && -m < d < m) by {
        assert(w == 256 || w == 1);
        assert(0 <= v as int <= 255 && 0 <= data[j] as int <= 255);
    }

    assert(s2 as int % m == d % m) by {
        lemma_fundamental_div_mod(s as int, m);
        lemma_mod_multiples_vanish(s as int / m, d, m);
        assert(s2 as int == m * (s as int / m) + d);
    }
    assert(d % m != 0) by {
        if d > 0 {
            lemma_small_mod(d as nat, m as nat);
        } else {
            lemma_mod_multiples_vanish(1, d, m);
            lemma_small_mod((m + d) as nat, m as nat);
        }
    }
    assert(s2 % 0xffff != 0);
    assert(oc_fold(s2) < 0xffff) by {
        lemma_oc_fold(s2);
    }
}

/// Internet checksum of `data` starting from the accumulator `init`:
/// sums the 16-bit big-endian words (a trailing odd byte padded with zero),
/// folds carries until the accumulator fits in 16 bits, and complements.
#[verifier::rlimit(60)]
pub fn cksum16(data: &[u8], init: u32) -> (r: u16)
    ensures
        r == checksum(data@, init as nat),
{
    let ghost mut total: nat = init as nat;
    let mut sum: u32 = init;

    while sum > 0xffff
        invariant
            total == init as nat,
            (sum as nat) % 0xffff == total % 0xffff,
            (sum == 0) <==> (total == 0),
        decreases sum,
    {
        proof {
            lemma_fold_step(sum as nat);
        }
        sum = sum % 0x10000 + sum / 0x10000;
    }

    let n = data.len();
    let words = n / 2;
    let mut w: usize = 0;
    while w < words
        invariant
            w <= words,
            words == n / 2,
            n == data@.len(),
            sum <= 0xffff,
            total == init as nat + sum16(data@.take(2 * w as int)),
            (sum as nat) % 0xffff == total % 0xffff,
            (sum == 0) <==> (total == 0),
        decreases words - w,
    {
        let i = 2 * w;
        let word: u32 = (data[i] as u32) * 256 + (data[i + 1] as u32);
        let raw: u32 = sum + word;
        proof {
            lemma_sum16_take_word(data@, i as int);
            lemma_fold_step(raw as nat);
            total = total + word as nat;
        }
        sum = raw % 0x10000 + raw / 0x10000;
        w = w + 1;
    }

    if n % 2 == 1 {
        let word: u32 = (data[n - 1] as u32) * 256;
        let raw: u32 = sum + word;
        proof {
            assert(2 * words as int == n as int - 1);
            lemma_sum16_take_last(data@);
            lemma_fold_step(raw as nat);
            total = total + word as nat;
        }
        sum = raw % 0x10000 + raw / 0x10000;
        proof {
            assert(total == init as nat + sum16(data@));
        }
    } else {
        proof {
            assert(data@.take(2 * words as int) =~= data@);
        }
    }

    proof {
        lemma_folded_is_oc_fold(sum as nat, total);
    }
    (0xffff - sum) as u16
}

/// The ASCII code of a hexadecimal digit, lower case.
pub open spec fn hex_digit(n: nat) -> u8
    recommends
        n < 16,
{
    if n < 10 {
        (48 + n) as u8
    } else {
        (87 + n) as u8
    }
}

/// The hexadecimal representation of `n`, without leading zeros.
pub open spec fn hex_digits(n: nat) -> Seq<u8>
    decreases n,
{
    if n < 16 {
        seq![hex_digit(n)]
    } else {
        hex_digits(n / 16).push(hex_digit(n % 16))
    }
}

/// The hexadecimal representation of an offset, zero-padded to at least
/// four digits.
pub open spec fn spec_hex_offset(n: nat) -> Seq<u8> {
    if n < 0x10 {
        seq![hex_digit(0), hex_digit(0), hex_digit(0)] + hex_digits(n)
    } else if n < 0x100 {
        seq![hex_digit(0), hex_digit(0)] + hex_digits(n)
    } else if n < 0x1000 {
        seq![hex_digit(0)] + hex_digits(n)
    } else {
        hex_digits(n)
    }
}

/// The first `k` three-byte hex cells of a dump row starting at `off`: two
/// hex digits and a space for a present byte, three spaces past the end.
pub open spec fn spec_hex_cells(data: Seq<u8>, off: int, k: int) -> Seq<u8>
    decreases k,
{
    if k <= 0 {
        Seq::<u8>::empty()
    } else {
        spec_hex_cells(data, off, k - 1) + (if off + k - 1 < data.len() {
            let b = data[off + k - 1];
            seq![hex_digit(b as nat / 16), hex_digit(b as nat % 16), (' ' as u8)]
        } else {
            seq![(' ' as u8), (' ' as u8), (' ' as u8)]
        })
    }
}

/// The first `k` ASCII cells of a dump row starting at `off`: the byte
/// itself when printable, a dot otherwise, a space past the end.
pub open spec fn spec_ascii_cells(data: Seq<u8>, off: int, k: int) -> Seq<u8>
    decreases k,
{
    if k <= 0 {
        Seq::<u8>::empty()
    } else {
        spec_ascii_cells(data, off, k - 1) + seq![
            if off + k - 1 < data.len() {
                let b = data[off + k - 1];
                if 32 <= b && b < 127 {
                    b
                } else {
                    ('.' as u8)
                }
            } else {
                (' ' as u8)
            },
        ]
    }
}

/// One dump row: the offset, sixteen hex cells, sixteen ASCII cells.
pub open spec fn spec_dump_row(data: Seq<u8>, off: int) -> Seq<u8> {
    seq![('|' as u8), (' ' as u8)] + spec_hex_offset(off as nat) + seq![
        (' ' as u8),
        ('|' as u8),
        (' ' as u8),
    ] + spec_hex_cells(data, off, 16) + seq![('|' as u8), (' ' as u8)] + spec_ascii_cells(
        data,
        off,
        16,
    ) + seq![(' ' as u8), ('|' as u8), ('\n' as u8)]
}

/// The first `k` dump rows.
pub open spec fn spec_dump_rows(data: Seq<u8>, k: int) -> Seq<u8>
    decreases k,
{
    if k <= 0 {
        Seq::<u8>::empty()
    } else {
        spec_dump_rows(data, k - 1) + spec_dump_row(data, 16 * (k - 1))
    }
}

/// The border line above and below a dump.
pub open spec fn spec_dump_border() -> Seq<u8> {
    seq![('+' as u8)] + Seq::new(6, |i: int| ('-' as u8)) + seq![('+' as u8)] + Seq::new(
        49,
        |i: int| ('-' as u8),
    ) + seq![('+' as u8)] + Seq::new(18, |i: int| ('-' as u8)) + seq![('+' as u8), ('\n' as u8)]
}

/// The whole dump: border, one row per sixteen bytes, border.
pub open spec fn spec_hexdump(data: Seq<u8>) -> Seq<u8> {
    let rows = data.len() as int / 16 + if data.len() as int % 16 != 0 {
        1int
    } else {
        0int
    };
    spec_dump_border() + spec_dump_rows(data, rows) + spec_dump_border()
}

/// The hex digits of `digs`, least significant first, read back in
/// most-significant-first order.
spec fn rev_hex_digits(digs: Seq<u8>) -> Seq<u8> {
    Seq::new(digs.len(), |i: int| hex_digit(digs[digs.len() - 1 - i] as nat))
}

/// Append the hexadecimal form of `v`, without leading zeros.
fn push_hex(out: &mut Vec<u8>, v: usize)
    ensures
        final(out)@ == old(out)@ + hex_digits(v as nat),
{
    if v < 16 {
        out.push(if v < 10 {
            48 + v as u8
        } else {
            87 + v as u8
        });
        proof {
            assert(final(out)@ =~= old(out)@ + hex_digits(v as nat));
        }
        return ;
    }
    let mut digs: Vec<u8> = Vec::new();
    let mut x: usize = v;
    while x > 0
        invariant
            digs@.len() == 0 ==> x == v,
            x > 0 && digs@.len() > 0 ==> hex_digits(v as nat) == hex_digits(x as nat)
                + rev_hex_digits(digs@),
            x == 0 ==> digs@.len() > 0 && hex_digits(v as nat) == rev_hex_digits(digs@),
            forall|i: int| 0 <= i < digs@.len() ==> digs@[i] < 16,
        decreases x,
    {
        let ghost prev = digs@;
        let d: u8 = (x % 16) as u8;
        digs.push(d);
        proof {
            if prev.len() == 0 {
                if x >= 16 {
                    assert(rev_hex_digits(digs@) =~= seq![hex_digit((x % 16) as nat)]);
                    assert(hex_digits(v as nat) == hex_digits((x / 16) as nat) + rev_hex_digits(
                        digs@,
                    ));
                } else {
                    assert(rev_hex_digits(digs@) =~= seq![hex_digit(x as nat)]);
                    assert(hex_digits(v as nat) == rev_hex_digits(digs@));
                }
            } else {
                if x >= 16 {
                    assert(rev_hex_digits(digs@) =~= seq![hex_digit((x % 16) as nat)]
                        + rev_hex_digits(prev));
                    assert(hex_digits(x as nat) == hex_digits((x / 16) as nat).push(
                        hex_digit((x % 16) as nat),
                    ));
                    assert(hex_digits((x / 16) as nat).push(hex_digit((x % 16) as nat))
                        + rev_hex_digits(prev) =~= hex_digits((x / 16) as nat) + (seq![
                        hex_digit((x % 16) as nat),
                    ] + rev_hex_digits(prev)));
                    assert(hex_digits(v as nat) == hex_digits((x / 16) as nat) + rev_hex_digits(
                        digs@,
                    ));
                } else {
                    assert(rev_hex_digits(digs@) =~= seq![hex_digit(x as nat)] + rev_hex_digits(
                        prev,
                    ));
                    assert(hex_digits(x as nat) == seq![hex_digit(x as nat)]);
                    assert(seq![hex_digit(x as nat)] + rev_hex_digits(prev) =~= rev_hex_digits(
                        digs@,
                    ));
                    assert(hex_digits(v as nat) == rev_hex_digits(digs@));
                }
            }
        }
        x = x / 16;
    }
    let ghost target = rev_hex_digits(digs@);
    let mut k: usize = digs.len();
    while k > 0
        invariant
            k <= digs@.len(),
            target == rev_hex_digits(digs@),
            hex_digits(v as nat) == target,
            forall|i: int| 0 <= i < digs@.len() ==> digs@[i] < 16,
            out@ == old(out)@ + target.take(digs@.len() - k),
        decreases k,
    {
        k = k - 1;
        let d = digs[k];
        out.push(if d < 10 {
            48 + d
        } else {
            87 + d
        });
        proof {
            assert(target[digs@.len() - 1 - k] == hex_digit(digs@[k as int] as nat));
            assert(target.take(digs@.len() - k) =~= target.take(digs@.len() - (k + 1)).push(
                hex_digit(digs@[k as int] as nat),
            ));
        }
    }
    proof {
        assert(target.take(digs@.len() - 0) =~= target);
    }
}

/// Append an offset as hex, zero-padded to at least four digits.
fn push_hex_offset(out: &mut Vec<u8>, v: usize)
    ensures
        final(out)@ == old(out)@ + spec_hex_offset(v as nat),
{
    if v < 0x10 {
        out.push(48);
        out.push(48);
        out.push(48);
    } else if v < 0x100 {
        out.push(48);
        out.push(48);
    } else if v < 0x1000 {
        out.push(48);
    }
    push_hex(out, v);
    proof {
        assert(final(out)@ =~= old(out)@ + spec_hex_offset(v as nat));
    }
}

/// Append the border line of a dump.
fn push_border(out: &mut Vec<u8>)
    ensures
        final(out)@ == old(out)@ + spec_dump_border(),
{
    out.push('+' as u8);
    let mut j: usize = 0;
    while j < 6
        invariant
            j <= 6,
            out@ == old(out)@ + seq![('+' as u8)] + Seq::new(j as nat, |i: int| ('-' as u8)),
        decreases 6 - j,
    {
        let ghost before = out@;
        out.push('-' as u8);
        j = j + 1;
        proof {
            assert(out@ =~= old(out)@ + seq![('+' as u8)] + Seq::new(
                j as nat,
                |i: int| ('-' as u8),
            ));
        }
    }
    out.push('+' as u8);
    let ghost mid = out@;
    let mut j: usize = 0;
    while j < 49
        invariant
            j <= 49,
            out@ == mid + Seq::new(j as nat, |i: int| ('-' as u8)),
        decreases 49 - j,
    {
        out.push('-' as u8);
        j = j + 1;
        proof {
            assert(out@ =~= mid + Seq::new(j as nat, |i: int| ('-' as u8)));
        }
    }
    out.push('+' as u8);
    let ghost mid2 = out@;
    let mut j: usize = 0;
    while j < 18
        invariant
            j <= 18,
            out@ == mid2 + Seq::new(j as nat, |i: int| ('-' as u8)),
        decreases 18 - j,
    {
        out.push('-' as u8);
        j = j + 1;
        proof {
            assert(out@ =~= mid2 + Seq::new(j as nat, |i: int| ('-' as u8)));
        }
    }
    out.push('+' as u8);
    out.push('\n' as u8);
    proof {
        assert(final(out)@ =~= old(out)@ + spec_dump_border());
    }
}

/// Render `data` as a classic hex dump, sixteen bytes per row with an
/// offset column and an ASCII column, as bytes of ASCII text.
#[verifier::rlimit(60)]
fn hexdump(data: &[u8]) -> (r: Vec<u8>)
    ensures
        r@ == spec_hexdump(data@),
{
    let n = data.len();
    let rows = n / 16 + if n % 16 != 0 {
        1
    } else {
        0
    };
    let mut out: Vec<u8> = Vec::new();
    push_border(&mut out);
    let ghost header = out@;
    let mut row: usize = 0;
    while row < rows
        invariant
            row <= rows,
            rows == n as int / 16 + if n as int % 16 != 0 {
                1int
            } else {
                0int
            },
            n == data@.len(),
            header == spec_dump_border(),
            out@ == header + spec_dump_rows(data@, row as int),
        decreases rows - row,
    {
        let off = 16 * row;
        let ghost row_start = out@;
        out.push('|' as u8);
        out.push(' ' as u8);
        push_hex_offset(&mut out, off);
        out.push(' ' as u8);
        out.push('|' as u8);
        out.push(' ' as u8);
        let ghost cells_start = out@;
        let mut j: usize = 0;
        while j < 16
            invariant
                j <= 16,
                n == data@.len(),
                off == 16 * row,
                off < n,
                out@ == cells_start + spec_hex_cells(data@, off as int, j as int),
            decreases 16 - j,
        {
            if off + j < n {
                let b = data[off + j];
                out.push(if b / 16 < 10 {
                    48 + b / 16
                } else {
                    87 + b / 16
                });
                out.push(if b % 16 < 10 {
                    48 + b % 16
                } else {
                    87 + b % 16
                });
                out.push(' ' as u8);
            } else {
                out.push(' ' as u8);
                out.push(' ' as u8);
                out.push(' ' as u8);
            }
            j = j + 1;
            proof {
                assert(out@ =~= cells_start + spec_hex_cells(data@, off as int, j as int));
            }
        }
        out.push('|' as u8);
        out.push(' ' as u8);
        let ghost ascii_start = out@;
        let mut j: usize = 0;
        while j < 16
            invariant
                j <= 16,
                n == data@.len(),
                off == 16 * row,
                off < n,
                out@ == ascii_start + spec_ascii_cells(data@, off as int, j as int),
            decreases 16 - j,
        {
            if off + j < n {
                let b = data[off + j];
                out.push(
                    if 32 <= b && b < 127 {
                        b
                    } else {
                        '.' as u8
                    },
                );
            } else {
                out.push(' ' as u8);
            }
            j = j + 1;
            proof {
                assert(out@ =~= ascii_start + spec_ascii_cells(data@, off as int, j as int));
            }
        }
        out.push(' ' as u8);
        out.push('|' as u8);
        out.push('\n' as u8);
        row = row + 1;
        proof {
            assert(out@ =~= row_start + spec_dump_row(data@, off as int));
            assert(out@ =~= header + spec_dump_rows(data@, row as int));
        }
    }
    push_border(&mut out);
    proof {
        assert(out@ =~= spec_hexdump(data@));
    }
    out
}

/// The hex dump of a buffer, as ASCII text for the caller's debug log.
pub fn debugdump(data: &[u8]) -> (r: Vec<u8>)
    ensures
        r@ == spec_hexdump(data@),
{
    hexdump(data)
}

} // verus!

//! Decimal and dotted-quad text: formatting octets as decimal strings,
//! parsing `a.b.c.d` address strings, and the proof that the two are exact
//! inverses on every address value.

use vstd::prelude::*;
use vstd::string::*;
use vstd::arithmetic::div_mod::{lemma_div_denominator, lemma_fundamental_div_mod};

verus! {

/// The ten decimal digit characters.
pub open spec fn is_digit(c: char) -> bool {
    c == '0' || c == '1' || c == '2' || c == '3' || c == '4' || c == '5' || c == '6' || c == '7'
        || c == '8' || c == '9'
}

/// Numeric value of a decimal digit character.
pub open spec fn digit_val(c: char) -> nat
    recommends
        is_digit(c),
{
    if c == '0' {
        0
    } else if c == '1' {
        1
    } else if c == '2' {
        2
    } else if c == '3' {
        3
    } else if c == '4' {
        4
    } else if c == '5' {
        5
    } else if c == '6' {
        6
    } else if c == '7' {
        7
    } else if c == '8' {
        8
    } else {
        9
    }
}

/// The decimal digit character for a value below ten.
pub open spec fn digit_char(n: nat) -> char
    recommends
        n < 10,
{
    if n == 0 {
        '0'
    } else if n == 1 {
        '1'
    } else if n == 2 {
        '2'
    } else if n == 3 {
        '3'
    } else if n == 4 {
        '4'
    } else if n == 5 {
        '5'
    } else if n == 6 {
        '6'
    } else if n == 7 {
        '7'
    } else if n == 8 {
        '8'
    } else {
        '9'
    }
}

/// Canonical decimal representation of `n`: no sign, no leading zeros.
pub open spec fn dec_digits(n: nat) -> Seq<char>
    decreases n,
{
    if n < 10 {
        seq![digit_char(n)]
    } else {
        dec_digits(n / 10).push(digit_char(n % 10))
    }
}

/// The numeric value of a digit string, most significant digit first.
pub open spec fn digits_val(s: Seq<char>) -> nat
    decreases s.len(),
{
    if s.len() == 0 {
        0
    } else {
        digits_val(s.drop_last()) * 10 + digit_val(s.last())
    }
}

/// Classify one digit, as its value.
pub fn char_digit(c: char) -> (r: Option<u8>)
    ensures
        (r is Some) <==> is_digit(c),
        r is Some ==> r->0 as nat == digit_val(c),
{
    match c {
        '0' => Some(0),
        '1' => Some(1),
        '2' => Some(2),
        '3' => Some(3),
        '4' => Some(4),
        '5' => Some(5),
        '6' => Some(6),
        '7' => Some(7),
        '8' => Some(8),
        '9' => Some(9),
        _ => None,
    }
}

/// One decimal digit as a string slice.
pub fn digit_str(d: u8) -> (r: &'static str)
    requires
        d < 10,
    ensures
        r@ == seq![digit_char(d as nat)],
{
    proof {
        reveal_strlit("0");
        reveal_strlit("1");
        reveal_strlit("2");
        reveal_strlit("3");
        reveal_strlit("4");
        reveal_strlit("5");
        reveal_strlit("6");
        reveal_strlit("7");
        reveal_strlit("8");
        reveal_strlit("9");
    }
    match d {
        0 => "0",
        1 => "1",
        2 => "2",
        3 => "3",
        4 => "4",
        5 => "5",
        6 => "6",
        7 => "7",
        8 => "8",
        _ => "9",
    }
}

/// Append the canonical decimal form of an octet (at most three digits).
pub fn append_octet(out: &mut String, v: u8)
    ensures
        final(out)@ == old(out)@ + dec_digits(v as nat),
{
    if v >= 100 {
        out.append(digit_str(v / 100));
        out.append(digit_str((v / 10) % 10));
        out.append(digit_str(v % 10));
        proof {
            lemma_div_denominator(v as int, 10, 10);
            assert(dec_digits(v as nat) == dec_digits((v / 10) as nat).push(
                digit_char((v % 10) as nat),
            ));
            assert(dec_digits((v / 10) as nat) == dec_digits((v / 100) as nat).push(
                digit_char(((v / 10) % 10) as nat),
            ));
            assert(final(out)@ =~= old(out)@ + dec_digits(v as nat));
        }
    } else if v >= 10 {
        out.append(digit_str(v / 10));
        out.append(digit_str(v % 10));
        proof {
            assert(dec_digits(v as nat) == dec_digits((v / 10) as nat).push(
                digit_char((v % 10) as nat),
            ));
            assert(final(out)@ =~= old(out)@ + dec_digits(v as nat));
        }
    } else {
        out.append(digit_str(v));
        proof {
            assert(final(out)@ =~= old(out)@ + dec_digits(v as nat));
        }
    }
}

/// The digit characters of `digs`, least significant first, read back in
/// most-significant-first order.
spec fn rev_digit_chars(digs: Seq<u8>) -> Seq<char> {
    Seq::new(digs.len(), |i: int| digit_char(digs[digs.len() - 1 - i] as nat))
}

/// Append the canonical decimal form of an arbitrary index.
pub fn append_decimal(out: &mut String, v: usize)
    ensures
        final(out)@ == old(out)@ + dec_digits(v as nat),
{
    if v == 0 {
        out.append(digit_str(0));
        return ;
    }
    let mut digs: Vec<u8> = Vec::new();
    let mut x: usize = v;
    while x > 0
        invariant
            digs@.len() == 0 ==> x == v,
            x > 0 && digs@.len() > 0 ==> dec_digits(v as nat) == dec_digits(x as nat)
                + rev_digit_chars(digs@),
            x == 0 ==> digs@.len() > 0 && dec_digits(v as nat) == rev_digit_chars(digs@),
            forall|i: int| 0 <= i < digs@.len() ==> digs@[i] < 10,
        decreases x,
    {
        let ghost prev = digs@;
        let d: u8 = (x % 10) as u8;
        digs.push(d);
        proof {
            if prev.len() == 0 {
                if x >= 10 {
                    assert(rev_digit_chars(digs@) =~= seq![digit_char((x % 10) as nat)]);
                    assert(dec_digits(v as nat) == dec_digits((x / 10) as nat) + rev_digit_chars(
                        digs@,
                    ));
                } else {
                    assert(rev_digit_chars(digs@) =~= seq![digit_char(x as nat)]);
                    assert(dec_digits(v as nat) == rev_digit_chars(digs@));
                }
            } else {
                if x >= 10 {
                    assert(rev_digit_chars(digs@) =~= seq![digit_char((x % 10) as nat)]
                        + rev_digit_chars(prev));
                    assert(dec_digits(x as nat) == dec_digits((x / 10) as nat).push(
                        digit_char((x % 10) as nat),
                    ));
                    assert(dec_digits((x / 10) as nat).push(digit_char((x % 10) as nat))
                        + rev_digit_chars(prev) =~= dec_digits((x / 10) as nat) + (seq![
                        digit_char((x % 10) as nat),
                    ] + rev_digit_chars(prev)));
                    assert(dec_digits(v as nat) == dec_digits((x / 10) as nat) + rev_digit_chars(
                        digs@,
                    ));
                } else {
                    assert(rev_digit_chars(digs@) =~= seq![digit_char(x as nat)] + rev_digit_chars(
                        prev,
                    ));
                    assert(dec_digits(x as nat) == seq![digit_char(x as nat)]);
                    assert(seq![digit_char(x as nat)] + rev_digit_chars(prev) =~= rev_digit_chars(
                        digs@,
                    ));
                    assert(dec_digits(v as nat) == rev_digit_chars(digs@));
                }
            }
        }
        x = x / 10;
    }
    let ghost target = rev_digit_chars(digs@);
    let mut k: usize = digs.len();
    while k > 0
        invariant
            k <= digs@.len(),
            target == rev_digit_chars(digs@),
            dec_digits(v as nat) == target,
            forall|i: int| 0 <= i < digs@.len() ==> digs@[i] < 10,
            out@ == old(out)@ + target.take(digs@.len() - k),
        decreases k,
    {
        k = k - 1;
        out.append(digit_str(digs[k]));
        proof {
            assert(target[digs@.len() - 1 - k] == digit_char(digs@[k as int] as nat));
            assert(target.take(digs@.len() - k) =~= target.take(digs@.len() - (k + 1)).push(
                digit_char(digs@[k as int] as nat),
            ));
        }
    }
    proof {
        assert(target.take(digs@.len() - 0) =~= target);
    }
}

/// The pieces of `s` between the occurrences of `'.'`: one more piece than
/// there are dots, each possibly empty.
pub open spec fn split_dots(s: Seq<char>) -> Seq<Seq<char>>
    decreases s.len(),
{
    if s.len() == 0 {
        seq![Seq::<char>::empty()]
    } else if s.last() == '.' {
        split_dots(s.drop_last()).push(Seq::<char>::empty())
    } else {
        let init = split_dots(s.drop_last());
        init.update(init.len() - 1, init.last().push(s.last()))
    }
}

pub proof fn lemma_split_dots_len(s: Seq<char>)
    ensures
        split_dots(s).len() >= 1,
    decreases s.len(),
{
    if s.len() > 0 {
        lemma_split_dots_len(s.drop_last());
    }
}

/// How one more character extends the split.
pub proof fn lemma_split_dots_push(s: Seq<char>, c: char)
    ensures
        c == '.' ==> split_dots(s.push(c)) == split_dots(s).push(Seq::<char>::empty()),
        c != '.' ==> split_dots(s.push(c)) == split_dots(s).update(
            split_dots(s).len() - 1,
            split_dots(s).last().push(c),
        ),
{
    assert(s.push(c).drop_last() =~= s);
    assert(s.push(c).last() == c);
    assert(s.push(c).len() == s.len() + 1);
}

/// Splitting around an explicit dot splits each side separately.
pub proof fn lemma_split_dots_concat(x: Seq<char>, y: Seq<char>)
    ensures
        split_dots(x + seq!['.'] + y) == split_dots(x) + split_dots(y),
    decreases y.len(),
{
    lemma_split_dots_len(x);
    if y.len() == 0 {
        assert(x + seq!['.'] + y =~= x.push('.'));
        lemma_split_dots_push(x, '.');
        assert(split_dots(x).push(Seq::<char>::empty()) =~= split_dots(x) + seq![
            Seq::<char>::empty(),
        ]);
        assert(split_dots(y) =~= seq![Seq::<char>::empty()]);
    } else {
        let y0 = y.drop_last();
        let c = y.last();
        lemma_split_dots_concat(x, y0);
        lemma_split_dots_len(y0);
        assert(x + seq!['.'] + y =~= (x + seq!['.'] + y0).push(c));
        lemma_split_dots_push(x + seq!['.'] + y0, c);
        assert(y =~= y0.push(c));
        lemma_split_dots_push(y0, c);
        let a = split_dots(x);
        let b = split_dots(y0);
        if c == '.' {
            assert((a + b).push(Seq::<char>::empty()) =~= a + b.push(Seq::<char>::empty()));
        } else {
            assert((a + b).last() == b.last());
            assert((a + b).update((a + b).len() - 1, b.last().push(c)) =~= a + b.update(
                b.len() - 1,
                b.last().push(c),
            ));
        }
    }
}

/// A piece without any dot splits into itself alone.
pub proof fn lemma_split_dots_plain(p: Seq<char>)
    requires
        forall|i: int| 0 <= i < p.len() ==> p[i] != '.',
    ensures
        split_dots(p) == seq![p],
    decreases p.len(),
{
    if p.len() == 0 {
        assert(split_dots(p) =~~= seq![p]);
    } else {
        lemma_split_dots_plain(p.drop_last());
        assert(p.drop_last().push(p.last()) =~= p);
        assert(split_dots(p) =~~= seq![p]);
    }
}

/// The digit characters of one dotted-quad piece: a single leading `'+'`
/// sign is not part of them.
pub open spec fn octet_digits(p: Seq<char>) -> Seq<char> {
    if p.len() > 0 && p[0] == '+' {
        p.skip(1)
    } else {
        p
    }
}

pub open spec fn all_digits(s: Seq<char>) -> bool {
    forall|i: int| 0 <= i < s.len() ==> is_digit(s[i])
}

/// A piece is a well-formed octet: after an optional `'+'`, one or more
/// decimal digits whose value fits in eight bits.
pub open spec fn octet_ok(p: Seq<char>) -> bool {
    octet_digits(p).len() > 0 && all_digits(octet_digits(p)) && digits_val(octet_digits(p)) <= 255
}

pub open spec fn octet_val(p: Seq<char>) -> u8
    recommends
        octet_ok(p),
{
    digits_val(octet_digits(p)) as u8
}

/// What parsing a dotted-quad address string yields: the four octet values,
/// or nothing unless the string has exactly four well-formed pieces.
pub open spec fn quad_parse(s: Seq<char>) -> Option<(u8, u8, u8, u8)> {
    let parts = split_dots(s);
    if parts.len() == 4 && octet_ok(parts[0]) && octet_ok(parts[1]) && octet_ok(parts[2])
        && octet_ok(parts[3]) {
        Some(
            (octet_val(parts[0]), octet_val(parts[1]), octet_val(parts[2]), octet_val(parts[3])),
        )
    } else {
        None
    }
}

/// The canonical dotted-quad form of four octets.
pub open spec fn quad_str(a: u8, b: u8, c: u8, d: u8) -> Seq<char> {
    dec_digits(a as nat) + seq!['.'] + dec_digits(b as nat) + seq!['.'] + dec_digits(c as nat)
        + seq!['.'] + dec_digits(d as nat)
}

/// A canonical decimal numeral is one or more digit characters; in
/// particular it holds no dot and no sign.
pub proof fn lemma_dec_digits_wf(n: nat)
    ensures
        dec_digits(n).len() >= 1,
        all_digits(dec_digits(n)),
        forall|i: int| 0 <= i < dec_digits(n).len() ==> dec_digits(n)[i] != '.',
        dec_digits(n)[0] != '+',
    decreases n,
{
    if n < 10 {
        assert(is_digit(digit_char(n)));
    } else {
        lemma_dec_digits_wf(n / 10);
        let p = dec_digits(n / 10);
        let w = dec_digits(n);
        assert(is_digit(digit_char(n % 10)));
        assert(forall|i: int| 0 <= i < w.len() ==> is_digit(#[trigger] w[i]) && w[i] != '.') by {
            assert(forall|i: int| 0 <= i < p.len() ==> w[i] == p[i]);
            assert(w[w.len() - 1] == digit_char(n % 10));
        }
    }
}

/// Reading a canonical decimal numeral back gives the value it was
/// formatted from.
pub proof fn lemma_dec_digits_val(n: nat)
    ensures
        digits_val(dec_digits(n)) == n,
    decreases n,
{
    if n < 10 {
        assert(seq![digit_char(n)].drop_last() =~= Seq::<char>::empty());
        assert(digits_val(Seq::<char>::empty()) == 0);
        assert(seq![digit_char(n)].last() == digit_char(n));
        assert(digit_val(digit_char(n)) == n);
        assert(digits_val(seq![digit_char(n)]) == 0 * 10 + digit_val(digit_char(n)));
    } else {
        lemma_dec_digits_val(n / 10);
        assert(dec_digits(n).drop_last() =~= dec_digits(n / 10));
        assert(dec_digits(n).last() == digit_char(n % 10));
        assert(digit_val(digit_char(n % 10)) == n % 10);
        lemma_fundamental_div_mod(n as int, 10);
    }
}

/// Formatting and parsing dotted-quad strings are exact inverses: the
/// canonical string of any four octets parses back to exactly those octets,
/// so `format(parse(s)) == s` for every canonical dotted-quad string `s`.
pub proof fn lemma_quad_roundtrip(a: u8, b: u8, c: u8, d: u8)
    ensures
        quad_parse(quad_str(a, b, c, d)) == Some((a, b, c, d)),
{
    let pa = dec_digits(a as nat);
    let pb = dec_digits(b as nat);
    let pc = dec_digits(c as nat);
    let pd = dec_digits(d as nat);
    lemma_dec_digits_wf(a as nat);
    lemma_dec_digits_wf(b as nat);
    lemma_dec_digits_wf(c as nat);
    lemma_dec_digits_wf(d as nat);
    lemma_dec_digits_val(a as nat);
    lemma_dec_digits_val(b as nat);
    lemma_dec_digits_val(c as nat);
    lemma_dec_digits_val(d as nat);
    let s = quad_str(a, b, c, d);
    let x1 = pa + seq!['.'] + pb;
    let x2 = x1 + seq!['.'] + pc;
    assert(s =~= x2 + seq!['.'] + pd);
    lemma_split_dots_concat(x2, pd);
    lemma_split_dots_concat(x1, pc);
    lemma_split_dots_concat(pa, pb);
    lemma_split_dots_plain(pa);
    lemma_split_dots_plain(pb);
    lemma_split_dots_plain(pc);
    lemma_split_dots_plain(pd);
    assert(split_dots(s) =~= seq![pa, pb, pc, pd]);
    assert(octet_digits(pa) == pa && octet_digits(pb) == pb && octet_digits(pc) == pc
        && octet_digits(pd) == pd);
    assert(octet_ok(pa) && octet_val(pa) == a);
    assert(octet_ok(pb) && octet_val(pb) == b);
    assert(octet_ok(pc) && octet_val(pc) == c);
    assert(octet_ok(pd) && octet_val(pd) == d);
}

/// Parse a dotted-quad address string: exactly four pieces separated by
/// `'.'`, each an optionally `'+'`-signed decimal numeral no larger than 255.
pub fn parse_quad(s: &str) -> (r: Option<(u8, u8, u8, u8)>)
    ensures
        r == quad_parse(s@),
{
    let n = s.unicode_len();
    let mut vals: Vec<u8> = Vec::new();
    let mut part_idx: usize = 0;
    let mut parts_ok: bool = true;
    let mut cur_len: usize = 0;
    let mut cur_plus: bool = false;
    let mut cur_digits_ok: bool = true;
    let mut cur_val: u16 = 0;
    let mut i: usize = 0;
    while i < n
        invariant
            i <= n,
            n == s@.len(),
            part_idx <= i,
            cur_len <= i,
            cur_val <= 256,
            ({
                let parts = split_dots(s@.take(i as int));
                let cur = parts.last();
                let curd = octet_digits(cur);
                &&& parts.len() == part_idx + 1
                &&& (parts_ok <==> (forall|j: int| 0 <= j < part_idx ==> octet_ok(parts[j])))
                &&& (parts_ok ==> vals@.len() == part_idx)
                &&& (parts_ok ==> (forall|j: int|
                    0 <= j < part_idx ==> vals@[j] == octet_val(parts[j])))
                &&& cur_len == cur.len()
                &&& cur_plus == (cur.len() > 0 && cur[0] == '+')
                &&& (cur_digits_ok <==> all_digits(curd))
                &&& (cur_digits_ok ==> ((digits_val(curd) <= 255 ==> cur_val == digits_val(curd))
                    && ((digits_val(curd) > 255) <==> cur_val == 256)))
            }),
        decreases n - i,
    {
        let ghost pre = s@.take(i as int);
        let ghost parts0 = split_dots(pre);
        let ghost cur0 = parts0.last();
        let c = s.get_char(i);
        proof {
            assert(s@.take(i as int + 1) =~= pre.push(s@[i as int]));
            lemma_split_dots_push(pre, c);
            lemma_split_dots_len(pre);
        }
        if c == '.' {
            let digits_len = if cur_plus {
                cur_len - 1
            } else {
                cur_len
            };
            let ok = cur_digits_ok && digits_len > 0 && cur_val <= 255;
            proof {
                assert(octet_digits(cur0).len() == digits_len);
                assert(ok == octet_ok(cur0));
            }
            if parts_ok && ok {
                vals.push(cur_val as u8);
            }
            parts_ok = parts_ok && ok;
            part_idx = part_idx + 1;
            cur_len = 0;
            cur_plus = false;
            cur_digits_ok = true;
            cur_val = 0;
            proof {
                let parts1 = split_dots(s@.take(i as int + 1));
                assert(parts1 == parts0.push(Seq::<char>::empty()));
                assert(parts1.last() =~= Seq::<char>::empty());
                assert(forall|j: int| 0 <= j < part_idx - 1 ==> parts1[j] == parts0[j]);
                assert(parts1[part_idx - 1] == cur0);
            }
        } else {
            let ghost cur1 = cur0.push(c);
            proof {
                let parts1 = split_dots(s@.take(i as int + 1));
                assert(parts1 == parts0.update(parts0.len() - 1, cur1));
                assert(parts1.last() == cur1);
                assert(forall|j: int| 0 <= j < part_idx ==> parts1[j] == parts0[j]);
                if !(cur0.len() == 0 && c == '+') {
                    if cur0.len() > 0 && cur0[0] == '+' {
                        assert(octet_digits(cur1) =~= octet_digits(cur0).push(c));
                    } else {
                        assert(octet_digits(cur1) =~= octet_digits(cur0).push(c));
                    }
                    assert(octet_digits(cur1).drop_last() =~= octet_digits(cur0));
                    assert(octet_digits(cur1).last() == c);
                }
            }
            if cur_len == 0 && c == '+' {
                cur_plus = true;
                proof {
                    assert(cur1 =~= seq!['+']);
                    assert(octet_digits(cur1) =~= Seq::<char>::empty());
                }
            } else {
                match char_digit(c) {
                    Some(dv) => {
                        proof {
                            let d0 = octet_digits(cur0);
                            let d1 = octet_digits(cur1);
                            assert(all_digits(d1) <==> (all_digits(d0) && is_digit(c))) by {
                                if all_digits(d0) && is_digit(c) {
                                    assert(forall|k: int|
                                        0 <= k < d1.len() ==> is_digit(#[trigger] d1[k]));
                                }
                            }
                            assert(digits_val(d1) == digits_val(d0) * 10 + digit_val(c));
                        }
                        let t: u16 = cur_val * 10 + dv as u16;
                        cur_val = if t > 255 {
                            256
                        } else {
                            t
                        };
                    },
                    None => {
                        cur_digits_ok = false;
                        proof {
                            assert(!all_digits(octet_digits(cur1)));
                            if all_digits(octet_digits(cur0)) {
                            } else {
                                assert(!all_digits(octet_digits(cur1)));
                            }
                        }
                    },
                }
            }
            cur_len = cur_len + 1;
        }
        i = i + 1;
    }
    proof {
        assert(s@.take(n as int) =~= s@);
    }
    let digits_len = if cur_plus {
        cur_len - 1
    } else {
        cur_len
    };
    let ok = cur_digits_ok && digits_len > 0 && cur_val <= 255;
    proof {
        let parts = split_dots(s@);
        assert(octet_digits(parts.last()).len() == digits_len);
        assert(ok == octet_ok(parts.last()));
    }
    if parts_ok && ok && part_idx == 3 {
        let a = vals[0];
        let b = vals[1];
        let c = vals[2];
        let d = cur_val as u8;
        proof {
            let parts = split_dots(s@);
            assert(parts.last() == parts[3]);
        }
        Some((a, b, c, d))
    } else {
        proof {
            let parts = split_dots(s@);
            if part_idx == 3 && parts_ok {
                assert(parts.last() == parts[3]);
                assert(!octet_ok(parts[3]));
            }
        }
        None
    }
}

/// Write four octets as a canonical dotted-quad string.
pub fn format_quad(a: u8, b: u8, c: u8, d: u8) -> (r: String)
    ensures
        r@ == quad_str(a, b, c, d),
{
    proof {
        reveal_strlit(".");
    }
    let mut out = String::new();
    append_octet(&mut out, a);
    out.append(".");
    append_octet(&mut out, b);
    out.append(".");
    append_octet(&mut out, c);
    out.append(".");
    append_octet(&mut out, d);
    proof {
        assert("."@ =~= seq!['.']);
        assert(out@ =~= quad_str(a, b, c, d));
    }
    out
}

} // verus!

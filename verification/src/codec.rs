//! The byte-level building blocks of the catalog file format: fixed-width
//! lowercase hexadecimal fields, most significant digit first.

use vstd::prelude::*;

verus! {

/// 16 to the power `n`.
pub open spec fn npow16(n: nat) -> nat
    decreases n,
{
    if n == 0 {
        1
    } else {
        16 * npow16((n - 1) as nat)
    }
}

/// The ASCII code of the lowercase hexadecimal digit for a value in `0..16`.
pub open spec fn hex_digit_byte(d: int) -> u8 {
    if d < 10 {
        (48 + d) as u8
    } else {
        (87 + d) as u8
    }
}

/// The `n` lowercase hexadecimal digits of `v`, most significant first, as
/// ASCII bytes.
pub open spec fn hex_bytes(v: nat, n: nat) -> Seq<u8>
    decreases n,
{
    if n == 0 {
        Seq::empty()
    } else {
        hex_bytes(v / 16, (n - 1) as nat).push(hex_digit_byte((v % 16) as int))
    }
}

/// Whether `b` is the ASCII code of a lowercase hexadecimal digit.
pub open spec fn is_hex_byte(b: u8) -> bool {
    (48 <= b < 58) || (97 <= b < 103)
}

/// The value of the hexadecimal digit with ASCII code `b`.
pub open spec fn hex_byte_val(b: u8) -> nat {
    if 48 <= b < 58 {
        (b - 48) as nat
    } else {
        (b - 87) as nat
    }
}

/// The value of a sequence of hexadecimal digit bytes, most significant
/// first; `None` if any byte is not a lowercase hexadecimal digit.
pub open spec fn parse_hex(s: Seq<u8>) -> Option<nat>
    decreases s.len(),
{
    if s.len() == 0 {
        Some(0)
    } else {
        match parse_hex(s.drop_last()) {
            Option::None => Option::None,
            Option::Some(v) => if is_hex_byte(s.last()) {
                Option::Some(v * 16 + hex_byte_val(s.last()))
            } else {
                Option::None
            },
        }
    }
}

pub proof fn lemma_npow16_pos(n: nat)
    ensures
        npow16(n) >= 1,
    decreases n,
{
    if n > 0 {
        lemma_npow16_pos((n - 1) as nat);
    }
}

pub proof fn lemma_npow16_mono(a: nat, b: nat)
    requires
        a <= b,
    ensures
        npow16(a) <= npow16(b),
    decreases b,
{
    if a < b {
        lemma_npow16_mono(a, (b - 1) as nat);
        lemma_npow16_pos((b - 1) as nat);
    }
}

pub proof fn lemma_npow16_16()
    ensures
        npow16(16) == 0x10000000000000000,
{
    reveal_with_fuel(npow16, 17);
    assert(npow16(16) == 0x10000000000000000);
}

pub proof fn lemma_npow16_32()
    ensures
        npow16(32) == 0x100000000000000000000000000000000,
{
    reveal_with_fuel(npow16, 33);
    assert(npow16(32) == 0x100000000000000000000000000000000);
}

pub proof fn lemma_hex_bytes_len(v: nat, n: nat)
    ensures
        hex_bytes(v, n).len() == n,
    decreases n,
{
    if n > 0 {
        lemma_hex_bytes_len(v / 16, (n - 1) as nat);
    }
}

/// A fixed-width hexadecimal field reads back as the value it was written
/// from: parsing inverts printing.
pub proof fn lemma_hex_round_trip(v: nat, n: nat)
    requires
        v < npow16(n),
    ensures
        parse_hex(hex_bytes(v, n)) == Some(v),
    decreases n,
{
    if n == 0 {
        assert(hex_bytes(v, 0) =~= Seq::<u8>::empty());
    } else {
        let prev = hex_bytes(v / 16, (n - 1) as nat);
        let d = (v % 16) as int;
        lemma_hex_bytes_len(v / 16, (n - 1) as nat);
        assert(hex_bytes(v, n).drop_last() =~= prev);
        assert(hex_bytes(v, n).last() == hex_digit_byte(d));
        assert(v == 16 * (v / 16) + (v % 16)) by {
            vstd::arithmetic::div_mod::lemma_fundamental_div_mod(v as int, 16);
        };
        assert(v / 16 < npow16((n - 1) as nat));
        lemma_hex_round_trip(v / 16, (n - 1) as nat);
        assert(is_hex_byte(hex_digit_byte(d)));
        assert(hex_byte_val(hex_digit_byte(d)) == d as nat);
    }
}

/// A field with a byte that is not a hexadecimal digit does not parse.
pub proof fn lemma_parse_hex_invalid(s: Seq<u8>, j: int)
    requires
        0 <= j < s.len(),
        !is_hex_byte(s[j]),
    ensures
        parse_hex(s) is None,
    decreases s.len(),
{
    if j < s.len() - 1 {
        lemma_parse_hex_invalid(s.drop_last(), j);
    }
}

/// The ASCII decimal or lowercase-letter value of `b`, when `b` is a
/// lowercase hexadecimal digit.
pub(crate) fn hex_val_of(b: u8) -> (r: Option<u8>)
    ensures
        r is Some ==> is_hex_byte(b) && (r->0 as nat) == hex_byte_val(b) && r->0 < 16,
        r is None ==> !is_hex_byte(b),
{
    if 48 <= b && b < 58 {
        Some(b - 48)
    } else if 97 <= b && b < 103 {
        Some(b - 87)
    } else {
        None
    }
}

/// Appends the `n` lowercase hexadecimal digit bytes of `v`, most significant
/// first, to `out`.
pub(crate) fn hex_bytes_append(out: &mut Vec<u8>, v: u128, n: u8)
    ensures
        final(out)@ == old(out)@ + hex_bytes(v as nat, n as nat),
    decreases n,
{
    if n == 0 {
        proof {
            assert(old(out)@ + hex_bytes(v as nat, 0) =~= old(out)@);
        }
    } else {
        hex_bytes_append(out, v / 16, n - 1);
        let d = (v % 16) as u8;
        let digit: u8 = if d < 10 {
            48 + d
        } else {
            87 + d
        };
        out.push(digit);
        proof {
            assert((v as nat) / 16 == (v / 16) as nat);
            assert((v as nat) % 16 == (v % 16) as nat);
            assert(digit == hex_digit_byte(((v as nat) % 16) as int));
            assert(out@ =~= old(out)@ + hex_bytes(v as nat, n as nat));
        }
    }
}

/// Reads the fixed-width hexadecimal field of `n` digits at offset `off`.
pub(crate) fn parse_hex_field(bytes: &Vec<u8>, off: usize, n: usize) -> (r: Option<u128>)
    requires
        off + n <= bytes@.len(),
        n <= 32,
    ensures
        r is Some ==> parse_hex(bytes@.subrange(off as int, off as int + n as int)) == Some(
            r->0 as nat,
        ) && (r->0 as nat) < npow16(n as nat),
        r is None ==> parse_hex(bytes@.subrange(off as int, off as int + n as int)) is None,
{
    let total: usize = bytes.len();
    let mut acc: u128 = 0;
    let mut i: usize = 0;
    while i < n
        invariant
            i <= n,
            n <= 32,
            total == bytes@.len(),
            off + n <= total,
            parse_hex(bytes@.subrange(off as int, off as int + i as int)) == Some(acc as nat),
            (acc as nat) < npow16(i as nat),
        decreases n - i,
    {
        let b = bytes[off + i];
        match hex_val_of(b) {
            Option::None => {
                proof {
                    lemma_parse_hex_invalid(
                        bytes@.subrange(off as int, off as int + n as int),
                        i as int,
                    );
                }
                return None;
            },
            Option::Some(d) => {
                proof {
                    lemma_npow16_mono((i + 1) as nat, 32);
                    lemma_npow16_32();
                    assert((acc as nat) * 16 + 15 < npow16((i + 1) as nat)) by (nonlinear_arith)
                        requires
                            (acc as nat) < npow16(i as nat),
                            npow16((i + 1) as nat) == 16 * npow16(i as nat),
                    ;
                    let sub1 = bytes@.subrange(off as int, off as int + i as int + 1);
                    assert(sub1.drop_last() =~= bytes@.subrange(off as int, off as int + i as int));
                    assert(sub1.last() == bytes@[off as int + i as int]);
                }
                acc = acc * 16 + (d as u128);
                i = i + 1;
            },
        }
    }
    proof {
        assert(bytes@.subrange(off as int, off as int + i as int) =~= bytes@.subrange(
            off as int,
            off as int + n as int,
        ));
    }
    Some(acc)
}

/// Appends a copy of `data` to `out`.
pub(crate) fn append_bytes(out: &mut Vec<u8>, data: &Vec<u8>)
    ensures
        final(out)@ == old(out)@ + data@,
{
    let mut i: usize = 0;
    while i < data.len()
        invariant
            i <= data@.len(),
            out@ == old(out)@ + data@.subrange(0, i as int),
        decreases data@.len() - i,
    {
        out.push(data[i]);
        i = i + 1;
        proof {
            assert(old(out)@ + data@.subrange(0, (i - 1) as int) + seq![data@[i - 1]] =~= old(out)@
                + data@.subrange(0, i as int));
        }
    }
    proof {
        assert(old(out)@ + data@.subrange(0, i as int) =~= old(out)@ + data@);
    }
}

} // verus!

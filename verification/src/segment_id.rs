//! Segment identities: 128-bit random values serialized as fixed-width
//! lowercase hexadecimal, usable directly as a filename stem.

use vstd::prelude::*;

verus! {

/// The lowercase hexadecimal digit, as a character, for a value in `0..16`.
pub open spec fn hex_digit_char(d: int) -> char {
    if d == 0 {
        '0'
    } else if d == 1 {
        '1'
    } else if d == 2 {
        '2'
    } else if d == 3 {
        '3'
    } else if d == 4 {
        '4'
    } else if d == 5 {
        '5'
    } else if d == 6 {
        '6'
    } else if d == 7 {
        '7'
    } else if d == 8 {
        '8'
    } else if d == 9 {
        '9'
    } else if d == 10 {
        'a'
    } else if d == 11 {
        'b'
    } else if d == 12 {
        'c'
    } else if d == 13 {
        'd'
    } else if d == 14 {
        'e'
    } else {
        'f'
    }
}

/// The `n` lowercase hexadecimal digits of `v`, most significant first.
pub open spec fn hex_chars(v: nat, n: nat) -> Seq<char>
    decreases n,
{
    if n == 0 {
        Seq::empty()
    } else {
        hex_chars(v / 16, (n - 1) as nat).push(hex_digit_char((v % 16) as int))
    }
}

/// An immutable 128-bit segment identity. Equality and hashing are by value.
#[derive(Clone, Copy, Debug, Hash, PartialEq, Eq, Structural)]
pub struct SegmentId {
    val: u128,
}

/// Relies on `uuid::Uuid::new_v4`: a freshly drawn 128-bit identifier (122
/// bits of randomness; six bits hold the format's version and variant), read
/// back as an integer. Nothing is promised of the value: it is random.
#[verifier::external_body]
fn random_u128() -> u128 {
    uuid::Uuid::new_v4().as_u128()
}

impl View for SegmentId {
    type V = u128;

    closed spec fn view(&self) -> u128 {
        self.val
    }
}

impl SegmentId {
    /// Generates a fresh identity from 128 bits of randomness. Distinctness of
    /// two generated identities is probabilistic (from entropy), not proved.
    pub fn new() -> SegmentId {
        SegmentId { val: random_u128() }
    }

    /// Builds the identity with the given 128-bit value.
    pub fn from_u128(v: u128) -> (r: SegmentId)
        ensures
            r@ == v,
    {
        SegmentId { val: v }
    }

    /// The 128-bit value of this identity.
    pub fn to_u128(&self) -> (r: u128)
        ensures
            r == self@,
    {
        self.val
    }

    /// The fixed-width (32 digit) lowercase hexadecimal rendering of this
    /// identity, used as a filename stem.
    pub fn uuid_string(&self) -> (r: String)
        ensures
            r@ == hex_chars(self@ as nat, 32),
    {
        let mut s = String::new();
        hex_append(&mut s, self.val, 32);
        proof {
            assert(Seq::<char>::empty() + hex_chars(self@ as nat, 32) =~= hex_chars(
                self@ as nat,
                32,
            ));
        }
        s
    }
}

/// A one-character string holding the lowercase hexadecimal digit of `d`.
fn hex_digit_str(d: u8) -> (r: &'static str)
    requires
        d < 16,
    ensures
        r@.len() == 1,
        r@[0] == hex_digit_char(d as int),
{
    if d == 0 {
        proof {
            reveal_strlit("0");
        }
        "0"
    } else if d == 1 {
        proof {
            reveal_strlit("1");
        }
        "1"
    } else if d == 2 {
        proof {
            reveal_strlit("2");
        }
        "2"
    } else if d == 3 {
        proof {
            reveal_strlit("3");
        }
        "3"
    } else if d == 4 {
        proof {
            reveal_strlit("4");
        }
        "4"
    } else if d == 5 {
        proof {
            reveal_strlit("5");
        }
        "5"
    } else if d == 6 {
        proof {
            reveal_strlit("6");
        }
        "6"
    } else if d == 7 {
        proof {
            reveal_strlit("7");
        }
        "7"
    } else if d == 8 {
        proof {
            reveal_strlit("8");
        }
        "8"
    } else if d == 9 {
        proof {
            reveal_strlit("9");
        }
        "9"
    } else if d == 10 {
        proof {
            reveal_strlit("a");
        }
        "a"
    } else if d == 11 {
        proof {
            reveal_strlit("b");
        }
        "b"
    } else if d == 12 {
        proof {
            reveal_strlit("c");
        }
        "c"
    } else if d == 13 {
        proof {
            reveal_strlit("d");
        }
        "d"
    } else if d == 14 {
        proof {
            reveal_strlit("e");
        }
        "e"
    } else {
        proof {
            reveal_strlit("f");
        }
        "f"
    }
}

/// Appends the `n` lowercase hexadecimal digits of `v`, most significant
/// first, to `out`.
fn hex_append(out: &mut String, v: u128, n: u8)
    ensures
        final(out)@ == old(out)@ + hex_chars(v as nat, n as nat),
    decreases n,
{
    if n == 0 {
        proof {
            assert(old(out)@ + hex_chars(v as nat, 0) =~= old(out)@);
        }
    } else {
        hex_append(out, v / 16, n - 1);
        let d = (v % 16) as u8;
        let ghost mid = out@;
        out.append(hex_digit_str(d));
        proof {
            assert((v as nat) / 16 == (v / 16) as nat);
            assert((v as nat) % 16 == (v % 16) as nat);
            assert(out@ =~= old(out)@ + hex_chars(v as nat, n as nat));
        }
    }
}

} // verus!

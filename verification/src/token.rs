//! Token identifiers and raw withdrawal amounts, and their textual encoding.

use vstd::prelude::*;

verus! {

broadcast use vstd::array::group_array_axioms;

/// A token contract identifier: twenty bytes, as on the underlying chain.
/// A reserved value stands for the chain's native asset (see [`native_token`]).
#[derive(Clone, Copy, Debug)]
pub struct TokenId {
    pub bytes: [u8; 20],
}

impl View for TokenId {
    type V = Seq<u8>;

    open spec fn view(&self) -> Seq<u8> {
        self.bytes@
    }
}

/// A raw withdrawal amount: a 256-bit unsigned integer held as four
/// little-endian 64-bit limbs (least significant limb first).
#[derive(Clone, Copy, Debug)]
pub struct Amount {
    pub limbs: [u64; 4],
}

impl View for Amount {
    type V = nat;

    open spec fn view(&self) -> nat {
        (self.limbs@[0] as nat) + (self.limbs@[1] as nat) * 0x1_0000_0000_0000_0000
            + (self.limbs@[2] as nat) * 0x1_0000_0000_0000_0000_0000_0000_0000_0000
            + (self.limbs@[3] as nat)
                * 0x1_0000_0000_0000_0000_0000_0000_0000_0000_0000_0000_0000_0000
    }
}

impl Amount {
    /// A small amount, for callers whose values fit one limb.
    pub fn from_u64(x: u64) -> (a: Amount)
        ensures
            a@ == x as nat,
    {
        let a = Amount { limbs: [x, 0, 0, 0] };
        a
    }
}

/// One withdrawal, as loaded from the store: its storage id, the token it
/// moves, and the raw integer amount.
#[derive(Clone, Copy, Debug)]
pub struct WithdrawalRecord {
    pub storage_id: i64,
    pub token: TokenId,
    pub amount: Amount,
}

/// The mathematical content of a withdrawal record.
pub struct RecordModel {
    pub storage_id: i64,
    pub token: Seq<u8>,
    pub amount: nat,
}

impl View for WithdrawalRecord {
    type V = RecordModel;

    open spec fn view(&self) -> RecordModel {
        RecordModel { storage_id: self.storage_id, token: self.token@, amount: self.amount@ }
    }
}

/// The bytes of the pseudo-identifier under which the chain accounts its
/// native asset: not a real contract, so its decimals cannot be looked up.
pub open spec fn native_token_bytes() -> Seq<u8> {
    seq![
        0u8, 0u8, 0u8, 0u8, 0u8, 0u8, 0u8, 0u8, 0u8, 0u8, 0u8, 0u8, 0u8, 0u8, 0u8, 0u8, 0u8, 0u8,
        0x80u8, 0x0au8,
    ]
}

/// The native-asset pseudo-token.
pub fn native_token() -> (t: TokenId)
    ensures
        t@ == native_token_bytes(),
{
    let mut bytes: [u8; 20] = [0u8; 20];
    bytes[18] = 0x80;
    bytes[19] = 0x0a;
    let t = TokenId { bytes };
    proof {
        assert(t@ =~= native_token_bytes());
    }
    t
}

/// Byte-for-byte equality of token identifiers.
pub fn token_eq(a: &TokenId, b: &TokenId) -> (r: bool)
    ensures
        r == (a@ == b@),
{
    let mut i: usize = 0;
    while i < 20
        invariant
            i <= 20,
            forall|j: int| 0 <= j < i ==> a@[j] == b@[j],
        decreases 20 - i,
    {
        if a.bytes[i] != b.bytes[i] {
            return false;
        }
        i += 1;
    }
    proof {
        assert(a@ =~= b@);
    }
    true
}

/// The character for one hexadecimal digit, lower case.
pub open spec fn hex_digit_char(n: nat) -> char {
    if n == 0 {
        '0'
    } else if n == 1 {
        '1'
    } else if n == 2 {
        '2'
    } else if n == 3 {
        '3'
    } else if n == 4 {
        '4'
    } else if n == 5 {
        '5'
    } else if n == 6 {
        '6'
    } else if n == 7 {
        '7'
    } else if n == 8 {
        '8'
    } else if n == 9 {
        '9'
    } else if n == 10 {
        'a'
    } else if n == 11 {
        'b'
    } else if n == 12 {
        'c'
    } else if n == 13 {
        'd'
    } else if n == 14 {
        'e'
    } else {
        'f'
    }
}

/// Two hexadecimal characters for each byte, in order.
pub open spec fn hex_chars(bs: Seq<u8>) -> Seq<char>
    decreases bs.len(),
{
    if bs.len() == 0 {
        Seq::empty()
    } else {
        hex_chars(bs.drop_last()) + seq![
            hex_digit_char((bs.last() / 16) as nat),
            hex_digit_char((bs.last() % 16) as nat),
        ]
    }
}

/// The canonical textual encoding of a token identifier: `0x` and then two
/// lower-case hexadecimal digits for each of its twenty bytes.
pub open spec fn hex_label(t: Seq<u8>) -> Seq<char> {
    seq!['0', 'x'] + hex_chars(t)
}

/// One hexadecimal digit as a string slice.
fn hex_digit_str(n: u8) -> (r: &'static str)
    requires
        n < 16,
    ensures
        r@ == seq![hex_digit_char(n as nat)],
{
    if n == 0 {
        proof {
            reveal_strlit("0");
            assert("0"@ =~= seq![hex_digit_char(0)]);
        }
        "0"
    } else if n == 1 {
        proof {
            reveal_strlit("1");
            assert("1"@ =~= seq![hex_digit_char(1)]);
        }
        "1"
    } else if n == 2 {
        proof {
            reveal_strlit("2");
            assert("2"@ =~= seq![hex_digit_char(2)]);
        }
        "2"
    } else if n == 3 {
        proof {
            reveal_strlit("3");
            assert("3"@ =~= seq![hex_digit_char(3)]);
        }
        "3"
    } else if n == 4 {
        proof {
            reveal_strlit("4");
            assert("4"@ =~= seq![hex_digit_char(4)]);
        }
        "4"
    } else if n == 5 {
        proof {
            reveal_strlit("5");
            assert("5"@ =~= seq![hex_digit_char(5)]);
        }
        "5"
    } else if n == 6 {
        proof {
            reveal_strlit("6");
            assert("6"@ =~= seq![hex_digit_char(6)]);
        }
        "6"
    } else if n == 7 {
        proof {
            reveal_strlit("7");
            assert("7"@ =~= seq![hex_digit_char(7)]);
        }
        "7"
    } else if n == 8 {
        proof {
            reveal_strlit("8");
            assert("8"@ =~= seq![hex_digit_char(8)]);
        }
        "8"
    } else if n == 9 {
        proof {
            reveal_strlit("9");
            assert("9"@ =~= seq![hex_digit_char(9)]);
        }
        "9"
    } else if n == 10 {
        proof {
            reveal_strlit("a");
            assert("a"@ =~= seq![hex_digit_char(10)]);
        }
        "a"
    } else if n == 11 {
        proof {
            reveal_strlit("b");
            assert("b"@ =~= seq![hex_digit_char(11)]);
        }
        "b"
    } else if n == 12 {
        proof {
            reveal_strlit("c");
            assert("c"@ =~= seq![hex_digit_char(12)]);
        }
        "c"
    } else if n == 13 {
        proof {
            reveal_strlit("d");
            assert("d"@ =~= seq![hex_digit_char(13)]);
        }
        "d"
    } else if n == 14 {
        proof {
            reveal_strlit("e");
            assert("e"@ =~= seq![hex_digit_char(14)]);
        }
        "e"
    } else {
        proof {
            reveal_strlit("f");
            assert("f"@ =~= seq![hex_digit_char(15)]);
        }
        "f"
    }
}

/// Encode a token identifier as its canonical `0x`-prefixed hexadecimal label.
pub fn token_label(t: &TokenId) -> (r: String)
    ensures
        r@ == hex_label(t@),
{
    let mut s = String::from_str("0x");
    proof {
        reveal_strlit("0x");
        assert(s@ =~= seq!['0', 'x']);
        assert(t@.take(0) =~= Seq::<u8>::empty());
    }
    let mut i: usize = 0;
    while i < 20
        invariant
            i <= 20,
            t@.len() == 20,
            s@ == seq!['0', 'x'] + hex_chars(t@.take(i as int)),
        decreases 20 - i,
    {
        let b = t.bytes[i];
        s.append(hex_digit_str(b / 16));
        s.append(hex_digit_str(b % 16));
        proof {
            assert(t@.take(i + 1).drop_last() =~= t@.take(i as int));
            assert(t@.take(i + 1).last() == t@[i as int]);
        }
        i += 1;
    }
    proof {
        assert(t@.take(20) =~= t@);
    }
    s
}

} // verus!

//! Public keys as they appear in a script.

use vstd::prelude::*;
use vstd::string::*;

verus! {

/// What the decoder and the context rules need to know of a key.
pub trait MiniscriptKey: Sized {
    /// Whether the key is serialized in the 65-byte uncompressed form.
    spec fn uncompressed(&self) -> bool;

    /// Whether the key is a 32-byte x-only key.
    spec fn x_only(&self) -> bool;

    /// The key as it is shown in messages.
    spec fn text(&self) -> Seq<char>;

    /// Whether the key is serialized in the 65-byte uncompressed form.
    fn is_uncompressed(&self) -> (r: bool)
        ensures
            r == self.uncompressed(),
    ;

    /// Whether the key is a 32-byte x-only key.
    fn is_x_only_key(&self) -> (r: bool)
        ensures
            r == self.x_only(),
    ;

    /// The key as it is shown in messages.
    fn to_string(&self) -> (r: String)
        ensures
            r@ == self.text(),
    ;
}

/// The sixteen hexadecimal digits, in order.
pub const HEX_DIGITS: &'static str = "0123456789abcdef";

/// Lower-case hexadecimal rendering of a byte string, two digits per byte.
pub open spec fn hex_text(bytes: Seq<u8>) -> Seq<char>
    decreases bytes.len(),
{
    if bytes.len() == 0 {
        Seq::empty()
    } else {
        hex_text(bytes.drop_last()) + hex_byte(bytes.last())
    }
}

/// The two hexadecimal digits of one byte, high nibble first.
pub open spec fn hex_byte(b: u8) -> Seq<char> {
    HEX_DIGITS@.subrange(b as int / 16, b as int / 16 + 1) + HEX_DIGITS@.subrange(
        b as int % 16,
        b as int % 16 + 1,
    )
}

/// Renders `bytes` in lower-case hexadecimal.
pub fn to_hex(bytes: &[u8]) -> (r: String)
    ensures
        r@ == hex_text(bytes@),
{
    let digits: &str = HEX_DIGITS;
    proof {
        reveal_strlit("0123456789abcdef");
    }
    let mut out = String::new();
    let mut i: usize = 0;
    while i < bytes.len()
        invariant
            i <= bytes.len(),
            digits@ == HEX_DIGITS@,
            digits@.len() == 16,
            digits.is_ascii(),
            out@ == hex_text(bytes@.subrange(0, i as int)),
        decreases bytes.len() - i,
    {
        let b: u8 = bytes[i];
        let hi: usize = (b / 16) as usize;
        let lo: usize = (b % 16) as usize;
        out.append(digits.substring_ascii(hi, hi + 1));
        out.append(digits.substring_ascii(lo, lo + 1));
        proof {
            let next = bytes@.subrange(0, i as int + 1);
            assert(next.drop_last() == bytes@.subrange(0, i as int));
            assert(next.last() == b);
        }
        i += 1;
    }
    proof {
        assert(bytes@.subrange(0, bytes.len() as int) == bytes@);
    }
    out
}

/// An ECDSA public key in its serialized form, compressed or not.
#[derive(Clone, Copy, Debug, PartialEq, Eq, PartialOrd, Ord, Hash)]
pub enum PublicKey {
    /// 33 bytes: a parity prefix and the x coordinate.
    Compressed([u8; 33]),
    /// 65 bytes: the prefix `0x04` and both coordinates.
    Uncompressed([u8; 65]),
}

impl PublicKey {
    /// The serialized bytes of the key.
    pub open spec fn bytes(&self) -> Seq<u8> {
        match self {
            PublicKey::Compressed(b) => b@,
            PublicKey::Uncompressed(b) => b@,
        }
    }

    /// Whether `data` has the shape of a serialized key: 33 bytes starting
    /// with `0x02` or `0x03`, or 65 bytes starting with `0x04`.
    pub open spec fn well_shaped(data: Seq<u8>) -> bool {
        ||| data.len() == 33 && (data[0] == 2 || data[0] == 3)
        ||| data.len() == 65 && data[0] == 4
    }

    /// Reads a key from its serialized form. The curve equation is not checked.
    pub fn from_slice(data: &[u8]) -> (r: Option<PublicKey>)
        ensures
            r is Some <==> Self::well_shaped(data@),
            r matches Some(pk) ==> pk.bytes() == data@ && pk.uncompressed() == (data@.len() == 65),
    {
        if data.len() == 33 && (data[0] == 2 || data[0] == 3) {
            let mut buf = [0u8;33];
            let mut i: usize = 0;
            while i < 33
                invariant
                    i <= 33,
                    data@.len() == 33,
                    forall|j: int| 0 <= j < i ==> buf@[j] == data@[j],
                decreases 33 - i,
            {
                buf[i] = data[i];
                i += 1;
            }
            assert(buf@ =~= data@);
            Some(PublicKey::Compressed(buf))
        } else if data.len() == 65 && data[0] == 4 {
            let mut buf = [0u8;65];
            let mut i: usize = 0;
            while i < 65
                invariant
                    i <= 65,
                    data@.len() == 65,
                    forall|j: int| 0 <= j < i ==> buf@[j] == data@[j],
                decreases 65 - i,
            {
                buf[i] = data[i];
                i += 1;
            }
            assert(buf@ =~= data@);
            Some(PublicKey::Uncompressed(buf))
        } else {
            None
        }
    }
}

impl MiniscriptKey for PublicKey {
    open spec fn uncompressed(&self) -> bool {
        self is Uncompressed
    }

    open spec fn x_only(&self) -> bool {
        false
    }

    open spec fn text(&self) -> Seq<char> {
        hex_text(self.bytes())
    }

    fn is_uncompressed(&self) -> (r: bool) {
        match self {
            PublicKey::Compressed(_) => false,
            PublicKey::Uncompressed(_) => true,
        }
    }

    fn is_x_only_key(&self) -> (r: bool) {
        false
    }

    fn to_string(&self) -> (r: String) {
        match self {
            PublicKey::Compressed(b) => to_hex(b.as_slice()),
            PublicKey::Uncompressed(b) => to_hex(b.as_slice()),
        }
    }
}

/// A 32-byte x-only public key, as tapscript uses them.
#[derive(Clone, Copy, Debug, PartialEq, Eq, PartialOrd, Ord, Hash)]
pub struct XOnlyPublicKey {
    /// The x coordinate.
    pub bytes: [u8; 32],
}

impl MiniscriptKey for XOnlyPublicKey {
    open spec fn uncompressed(&self) -> bool {
        false
    }

    open spec fn x_only(&self) -> bool {
        true
    }

    open spec fn text(&self) -> Seq<char> {
        hex_text(self.bytes@)
    }

    fn is_uncompressed(&self) -> (r: bool) {
        false
    }

    fn is_x_only_key(&self) -> (r: bool) {
        true
    }

    fn to_string(&self) -> (r: String) {
        to_hex(self.bytes.as_slice())
    }
}

} // verus!

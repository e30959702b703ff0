//! Endian-aware conversion between fixed-width integers and byte sequences,
//! together with resumable state machines that drive partial reads and writes
//! of those encodings to completion.
//!
//! The model is little-endian first: every value has a canonical little-endian
//! byte sequence, and the big-endian encoding is its reversal. The byte order
//! of the running processor is abstracted by [`vstd::endian::endianness`].

pub mod codec;
pub mod machine;

use vstd::prelude::*;

verus! {

/// A byte-order mode for encoding and decoding multi-byte values.
#[derive(Debug, Clone, Copy, Hash, PartialEq, Eq, PartialOrd, Ord, Structural)]
pub enum Endian {
    /// Least significant byte first.
    Little,
    /// Most significant byte first.
    Big,
    /// Conventionally used for exchange over a network; a synonym for [`Endian::Big`].
    Network,
    /// The byte order of the current processor.
    Native,
}

impl Endian {
    /// The [`Endian::Little`] or [`Endian::Big`] mode that this mode resolves to:
    /// `Network` is a synonym for `Big`, and `Native` follows the byte order of
    /// the running processor, which [`vstd::endian::endianness`] abstracts.
    pub open spec fn canon(self) -> Endian {
        match self {
            Endian::Little => Endian::Little,
            Endian::Big | Endian::Network => Endian::Big,
            Endian::Native => match vstd::endian::endianness() {
                vstd::endian::Endian::Little => Endian::Little,
                vstd::endian::Endian::Big => Endian::Big,
            },
        }
    }

    /// Return an [`Endian::Big`] or [`Endian::Little`] accordingly.
    pub fn canonical(self) -> (r: Self)
        ensures
            r == self.canon(),
    {
        match self {
            Endian::Little => Endian::Little,
            Endian::Big | Endian::Network => Endian::Big,
            Endian::Native => {
                if native_probe() == 1 {
                    Endian::Little
                } else {
                    Endian::Big
                }
            },
        }
    }

    /// Returns true if [`Endian::Big`], [`Endian::Network`], or if [`Endian::Native`]
    /// and on a big-endian processor.
    pub fn is_big(&self) -> (r: bool)
        ensures
            r == (self.canon() == Endian::Big),
    {
        matches!(self.canonical(), Endian::Big)
    }

    /// Returns true if [`Endian::Little`], or if [`Endian::Native`]
    /// and on a little-endian processor.
    pub fn is_little(&self) -> (r: bool)
        ensures
            r == (self.canon() == Endian::Little),
    {
        matches!(self.canonical(), Endian::Little)
    }
}

impl Default for Endian {
    /// The default mode is [`Endian::Native`].
    fn default() -> (r: Self)
        ensures
            r == Endian::Native,
    {
        Endian::Native
    }
}

/// The byte sequence actually laid down when a value whose little-endian
/// encoding is `le` is written with mode `endian`: the little-endian bytes
/// themselves, or their reversal for a big-endian mode.
pub open spec fn order_bytes(le: Seq<u8>, endian: Endian) -> Seq<u8> {
    if endian.canon() == Endian::Little {
        le
    } else {
        le.reverse()
    }
}

/// A type that can be infallibly written to or read from a byte sequence in an
/// [endian](Endian)-dependent manner.
///
/// Every implementation fixes a width `N` and a bijection between values and
/// `N`-byte little-endian sequences; the big-endian encoding is its reversal,
/// and the native encoding follows the byte order of the running processor.
pub trait BitEndian<const N: usize>: Sized {
    /// The little-endian byte sequence of this value.
    spec fn le_spec(self) -> Seq<u8>;

    /// The value whose little-endian byte sequence is `s`.
    spec fn of_le_spec(s: Seq<u8>) -> Self;

    /// The little-endian byte sequence holds exactly `N` bytes.
    proof fn le_spec_len(self)
        ensures
            self.le_spec().len() == N as nat,
    ;

    /// Decoding the encoding of a value yields the value back.
    proof fn le_spec_round_trip(self)
        ensures
            Self::of_le_spec(self.le_spec()) == self,
    ;

    /// Encoding the decoding of an `N`-byte sequence yields the sequence back.
    proof fn of_le_spec_round_trip(s: Seq<u8>)
        requires
            s.len() == N as nat,
        ensures
            Self::of_le_spec(s).le_spec() == s,
    ;

    /// Return the memory representation of this value as bytes in
    /// little-endian byte order.
    fn to_le_bytes(self) -> (r: Vec<u8>)
        ensures
            r@ == self.le_spec(),
            r@.len() == N as nat,
    ;

    /// Return the memory representation of this value as bytes in
    /// big-endian (network) byte order.
    fn to_be_bytes(self) -> (r: Vec<u8>)
        ensures
            r@ == self.le_spec().reverse(),
            r@.len() == N as nat,
    {
        let le = self.to_le_bytes();
        crate::codec::rev_vec(le.as_slice())
    }

    /// Return the memory representation of this value as bytes in
    /// native byte order.
    ///
    /// As the target platform's native endianness is used, portable code
    /// should use [`Self::to_be_bytes`] or [`Self::to_le_bytes`], as
    /// appropriate, instead.
    fn to_ne_bytes(self) -> (r: Vec<u8>)
        ensures
            r@ == order_bytes(self.le_spec(), Endian::Native),
            r@.len() == N as nat,
    {
        match Endian::Native.canonical() {
            Endian::Little => self.to_le_bytes(),
            _ => self.to_be_bytes(),
        }
    }

    /// Delegates to the appropriate method according to a run-time endianness.
    fn to_bytes_endian(self, endian: Endian) -> (r: Vec<u8>)
        ensures
            r@ == order_bytes(self.le_spec(), endian),
            r@.len() == N as nat,
    {
        match endian {
            Endian::Little => self.to_le_bytes(),
            Endian::Big | Endian::Network => self.to_be_bytes(),
            Endian::Native => self.to_ne_bytes(),
        }
    }

    /// Create a native endian value from its representation as bytes in
    /// little endian.
    fn from_le_bytes(bytes: &[u8]) -> (r: Self)
        requires
            bytes@.len() == N as nat,
        ensures
            r == Self::of_le_spec(bytes@),
    ;

    /// Create a native endian value from its representation as bytes in
    /// big (network) endian.
    fn from_be_bytes(bytes: &[u8]) -> (r: Self)
        requires
            bytes@.len() == N as nat,
        ensures
            r == Self::of_le_spec(bytes@.reverse()),
    {
        let le = crate::codec::rev_vec(bytes);
        Self::from_le_bytes(le.as_slice())
    }

    /// Create a native endian value from its memory representation as bytes
    /// in native endianness.
    ///
    /// As the target platform's native endianness is used, portable code
    /// likely wants to use [`Self::from_be_bytes`] or [`Self::from_le_bytes`],
    /// as appropriate instead.
    fn from_ne_bytes(bytes: &[u8]) -> (r: Self)
        requires
            bytes@.len() == N as nat,
        ensures
            r == Self::of_le_spec(order_bytes(bytes@, Endian::Native)),
    {
        match Endian::Native.canonical() {
            Endian::Little => Self::from_le_bytes(bytes),
            _ => Self::from_be_bytes(bytes),
        }
    }

    /// Delegates to the appropriate method according to a run-time endianness.
    fn from_bytes_endian(bytes: &[u8], endian: Endian) -> (r: Self)
        requires
            bytes@.len() == N as nat,
        ensures
            r == Self::of_le_spec(order_bytes(bytes@, endian)),
    {
        match endian {
            Endian::Little => Self::from_le_bytes(bytes),
            Endian::Big | Endian::Network => Self::from_be_bytes(bytes),
            Endian::Native => Self::from_ne_bytes(bytes),
        }
    }
}

/// Round trip: decoding the encoding of a value with the mode it was encoded
/// with yields the value back, for every value and every mode. The nested
/// `order_bytes` terms are exactly what composing [`BitEndian::to_bytes_endian`]
/// with [`BitEndian::from_bytes_endian`] produces.
pub proof fn lemma_round_trip<const N: usize, T: BitEndian<N>>(v: T, endian: Endian)
    ensures
        T::of_le_spec(order_bytes(order_bytes(v.le_spec(), endian), endian)) == v,
{
    assert(v.le_spec().reverse().reverse() =~= v.le_spec());
    v.le_spec_round_trip();
}

/// Mode equivalence: `Network` always encodes like `Big`, and `Native` encodes
/// like `Little` on a little-endian processor and like `Big` on a big-endian
/// one.
pub proof fn lemma_mode_equivalence(le: Seq<u8>)
    ensures
        order_bytes(le, Endian::Network) == order_bytes(le, Endian::Big),
        vstd::endian::endianness() == vstd::endian::Endian::Little ==> order_bytes(
            le,
            Endian::Native,
        ) == order_bytes(le, Endian::Little),
        vstd::endian::endianness() == vstd::endian::Endian::Big ==> order_bytes(
            le,
            Endian::Native,
        ) == order_bytes(le, Endian::Big),
{
}

/// Relies on `u16::from_ne_bytes`: it reinterprets the two bytes in the byte
/// order of the running processor, which `vstd::endian::endianness()` denotes,
/// so `[1, 0]` reads as 1 on a little-endian processor and as 256 on a
/// big-endian one.
#[verifier::external_body]
fn native_probe() -> (r: u16)
    ensures
        r == (match vstd::endian::endianness() {
            vstd::endian::Endian::Little => 1u16,
            vstd::endian::Endian::Big => 256u16,
        }),
{
    u16::from_ne_bytes([1, 0])
}

} // verus!

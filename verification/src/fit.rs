//! The value-fit policy: writing a semantic value into a located
//! placeholder range.
//!
//! Every value kind has one exact byte width and encoding. Addresses,
//! token quantities, secret hashes and public-key hashes are copied raw;
//! timestamps are 4-byte integers, big-endian on the Ethereum chain family
//! and little-endian on the Bitcoin one. A destination of the wrong width
//! is refused, never truncated or padded.

use vstd::prelude::*;

use crate::codec::u32_be_bytes;
use crate::codec::u32_le_bytes;
use crate::error::Error;

verus! {

/// A value that can be written into a placeholder's byte range.
///
/// `width` is the value's natural byte width and `encoded` its exact byte
/// image; `fit_into_placeholder_slice` writes that image if and only if
/// the destination has exactly that width.
pub trait FitIntoPlaceholderSlice: Sized {
    /// The value's natural byte width.
    spec fn width(&self) -> nat;

    /// The bytes the value is written as.
    spec fn encoded(&self) -> Seq<u8>;

    /// Overwrite `buf` with the value's encoding.
    fn fit_into_placeholder_slice(self, buf: &mut Vec<u8>) -> (r: Result<(), Error>)
        ensures
            self.encoded().len() == self.width(),
            old(buf)@.len() == self.width() ==> r is Ok && final(buf)@ == self.encoded(),
            old(buf)@.len() != self.width() ==> {
                &&& final(buf)@ == old(buf)@
                &&& r matches Err(Error::ValueWidthMismatch { expected, actual }) && expected
                    == self.width() && actual == old(buf)@.len()
            },
    ;
}

/// A 20-byte account address, copied raw.
#[derive(Clone, Copy, Debug)]
pub struct Address(pub [u8; 20]);

/// A 32-byte token quantity, copied raw.
#[derive(Clone, Copy, Debug)]
pub struct TokenQuantity(pub [u8; 32]);

/// A 32-byte secret hash, copied raw.
#[derive(Clone, Copy, Debug)]
pub struct SecretHash(pub [u8; 32]);

/// A 20-byte hash of a public key, copied raw.
#[derive(Clone, Copy, Debug)]
pub struct PublicKeyHash(pub [u8; 20]);

/// A timestamp for the Ethereum chain family: 4 bytes, big-endian.
#[derive(Clone, Copy, Debug)]
pub struct EthereumTimestamp(pub u32);

/// A timestamp for the Bitcoin chain family: 4 bytes, little-endian.
#[derive(Debug)]
pub struct BitcoinTimestamp(pub u32);

/// Overwrite `buf` with the 20 bytes of `src`.
fn copy_20(src: &[u8; 20], buf: &mut Vec<u8>)
    requires
        old(buf)@.len() == 20,
    ensures
        final(buf)@ == src@,
{
    let mut k: usize = 0;
    while k < 20
        invariant
            buf@.len() == 20,
            k <= 20,
            forall|t: int| 0 <= t < k ==> buf@[t] == src@[t],
        decreases 20 - k,
    {
        buf.set(k, src[k]);
        k = k + 1;
    }
    proof {
        assert(buf@ =~= src@);
    }
}

/// Overwrite `buf` with the 32 bytes of `src`.
fn copy_32(src: &[u8; 32], buf: &mut Vec<u8>)
    requires
        old(buf)@.len() == 32,
    ensures
        final(buf)@ == src@,
{
    let mut k: usize = 0;
    while k < 32
        invariant
            buf@.len() == 32,
            k <= 32,
            forall|t: int| 0 <= t < k ==> buf@[t] == src@[t],
        decreases 32 - k,
    {
        buf.set(k, src[k]);
        k = k + 1;
    }
    proof {
        assert(buf@ =~= src@);
    }
}

impl FitIntoPlaceholderSlice for Address {
    open spec fn width(&self) -> nat {
        20
    }

    open spec fn encoded(&self) -> Seq<u8> {
        self.0@
    }

    fn fit_into_placeholder_slice(self, buf: &mut Vec<u8>) -> (r: Result<(), Error>) {
        if buf.len() != 20 {
            return Err(Error::ValueWidthMismatch { expected: 20, actual: buf.len() });
        }
        copy_20(&self.0, buf);
        Ok(())
    }
}

impl FitIntoPlaceholderSlice for TokenQuantity {
    open spec fn width(&self) -> nat {
        32
    }

    open spec fn encoded(&self) -> Seq<u8> {
        self.0@
    }

    fn fit_into_placeholder_slice(self, buf: &mut Vec<u8>) -> (r: Result<(), Error>) {
        if buf.len() != 32 {
            return Err(Error::ValueWidthMismatch { expected: 32, actual: buf.len() });
        }
        copy_32(&self.0, buf);
        Ok(())
    }
}

impl FitIntoPlaceholderSlice for SecretHash {
    open spec fn width(&self) -> nat {
        32
    }

    open spec fn encoded(&self) -> Seq<u8> {
        self.0@
    }

    fn fit_into_placeholder_slice(self, buf: &mut Vec<u8>) -> (r: Result<(), Error>) {
        if buf.len() != 32 {
            return Err(Error::ValueWidthMismatch { expected: 32, actual: buf.len() });
        }
        copy_32(&self.0, buf);
        Ok(())
    }
}

impl FitIntoPlaceholderSlice for PublicKeyHash {
    open spec fn width(&self) -> nat {
        20
    }

    open spec fn encoded(&self) -> Seq<u8> {
        self.0@
    }

    fn fit_into_placeholder_slice(self, buf: &mut Vec<u8>) -> (r: Result<(), Error>) {
        if buf.len() != 20 {
            return Err(Error::ValueWidthMismatch { expected: 20, actual: buf.len() });
        }
        copy_20(&self.0, buf);
        Ok(())
    }
}

impl FitIntoPlaceholderSlice for EthereumTimestamp {
    open spec fn width(&self) -> nat {
        4
    }

    open spec fn encoded(&self) -> Seq<u8> {
        u32_be_bytes(self.0)
    }

    fn fit_into_placeholder_slice(self, buf: &mut Vec<u8>) -> (r: Result<(), Error>) {
        if buf.len() != 4 {
            return Err(Error::ValueWidthMismatch { expected: 4, actual: buf.len() });
        }
        let v = self.0;
        buf.set(0, (v / 0x1000000) as u8);
        buf.set(1, ((v / 0x10000) % 256) as u8);
        buf.set(2, ((v / 256) % 256) as u8);
        buf.set(3, (v % 256) as u8);
        proof {
            assert(buf@ =~= u32_be_bytes(v));
        }
        Ok(())
    }
}

impl FitIntoPlaceholderSlice for BitcoinTimestamp {
    open spec fn width(&self) -> nat {
        4
    }

    open spec fn encoded(&self) -> Seq<u8> {
        u32_le_bytes(self.0)
    }

    fn fit_into_placeholder_slice(self, buf: &mut Vec<u8>) -> (r: Result<(), Error>) {
        if buf.len() != 4 {
            return Err(Error::ValueWidthMismatch { expected: 4, actual: buf.len() });
        }
        let v = self.0;
        buf.set(0, (v % 256) as u8);
        buf.set(1, ((v / 256) % 256) as u8);
        buf.set(2, ((v / 0x10000) % 256) as u8);
        buf.set(3, (v / 0x1000000) as u8);
        proof {
            assert(buf@ =~= u32_le_bytes(v));
        }
        Ok(())
    }
}

} // verus!

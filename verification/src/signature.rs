//! The magic number at the head of a file format.

use vstd::prelude::*;
use crate::bytes::bytes_equal;
use crate::bytes::ByteReader;
use crate::bytes::ConversionError;

verus! {

/// The fixed bytes by which a format is known. Reading one checks that the
/// bytes are there; writing one puts them there.
#[derive(Clone, Copy, Debug)]
pub struct Signature {
    pub magic: &'static [u8],
}

impl Signature {
    /// The signature made of the bytes `magic`.
    pub fn new(magic: &'static [u8]) -> (signature: Signature)
        ensures
            signature.magic@ == magic@,
    {
        Signature { magic }
    }

    /// Number of bytes that the signature takes in a file.
    pub fn size_in_bytes(&self) -> (size: usize)
        ensures
            size == self.magic@.len(),
    {
        self.magic.len()
    }

    /// Reads the signature `magic`: takes as many bytes as `magic` has and
    /// holds them against it. Where fewer bytes are left nothing is read;
    /// where the bytes differ they have been read all the same.
    pub fn from_bytes(magic: &'static [u8], byte_reader: &mut ByteReader) -> (read: Result<
        Signature,
        ConversionError,
    >)
        ensures
            match read {
                Ok(signature) => {
                    &&& signature.magic@ == magic@
                    &&& magic@.len() <= old(byte_reader).remaining().len()
                    &&& old(byte_reader).remaining().take(magic@.len() as int) == magic@
                    &&& final(byte_reader).remaining() == old(byte_reader).remaining().skip(magic@.len() as int)
                },
                Err(ConversionError::ByteReaderTooShort) => {
                    &&& magic@.len() > old(byte_reader).remaining().len()
                    &&& final(byte_reader).remaining() == old(byte_reader).remaining()
                },
                Err(error) => {
                    &&& error == ConversionError::InvalidMagicNumber
                    &&& magic@.len() <= old(byte_reader).remaining().len()
                    &&& old(byte_reader).remaining().take(magic@.len() as int) != magic@
                    &&& final(byte_reader).remaining() == old(byte_reader).remaining().skip(magic@.len() as int)
                },
            },
    {
        match byte_reader.slice(magic.len()) {
            Ok(bytes) => {
                if bytes_equal(bytes, magic) {
                    Ok(Signature { magic })
                } else {
                    Err(ConversionError::InvalidMagicNumber)
                }
            },
            Err(error) => Err(error),
        }
    }

    /// Writes the signature at the end of `byte_writer` and says how many
    /// bytes that were.
    pub fn to_bytes(&self, byte_writer: &mut Vec<u8>) -> (written: Result<usize, ConversionError>)
        ensures
            final(byte_writer)@ == old(byte_writer)@ + self.magic@,
            written == Ok::<usize, ConversionError>(self.magic@.len() as usize),
    {
        byte_writer.extend_from_slice(self.magic);
        assert(byte_writer@ =~= old(byte_writer)@ + self.magic@);
        Ok(self.magic.len())
    }
}

} // verus!

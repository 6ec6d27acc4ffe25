//! Reading values out of a run of bytes.

use vstd::prelude::*;
use vstd::slice::slice_subrange;

verus! {

/// Why a value could not be read from bytes.
#[derive(Clone, Copy, Debug, PartialEq, Eq)]
pub enum ConversionError {
    /// Fewer bytes were left than the value takes.
    ByteReaderTooShort,
    /// The bytes in the place of a signature are not the expected ones.
    InvalidMagicNumber,
    /// A run in a palette image reaches past the end of the image.
    TooMuchEncodedData,
    /// A palette image ends before its pixels are filled, or its pixels are
    /// filled before its data ends.
    BadlyEncodedImage,
}

impl ConversionError {
    /// The error in words.
    pub fn message(&self) -> (text: String)
        ensures
            text@ == match *self {
                ConversionError::ByteReaderTooShort => "byte reader too short"@,
                ConversionError::InvalidMagicNumber => "invalid magic number"@,
                ConversionError::TooMuchEncodedData => "too much data encoded in palette image"@,
                ConversionError::BadlyEncodedImage => "badly encoded palette image"@,
            },
    {
        match self {
            ConversionError::ByteReaderTooShort => "byte reader too short".to_string(),
            ConversionError::InvalidMagicNumber => "invalid magic number".to_string(),
            ConversionError::TooMuchEncodedData => "too much data encoded in palette image".to_string(),
            ConversionError::BadlyEncodedImage => "badly encoded palette image".to_string(),
        }
    }
}

/// A place in a run of bytes from which values are read one after another.
pub struct ByteReader<'a> {
    data: &'a [u8],
    offset: usize,
}

impl<'a> ByteReader<'a> {
    #[verifier::type_invariant]
    spec fn in_bounds(self) -> bool {
        self.offset <= self.data@.len()
    }

    /// The bytes that have not been read yet.
    pub closed spec fn remaining(self) -> Seq<u8> {
        self.data@.subrange(self.offset as int, self.data@.len() as int)
    }

    /// A reader at the start of `data`.
    pub fn new(data: &'a [u8]) -> (reader: Self)
        ensures
            reader.remaining() == data@,
    {
        let reader = ByteReader { data, offset: 0 };
        assert(reader.remaining() =~= data@);
        reader
    }

    /// Number of bytes that have not been read yet.
    pub fn remaining_len(&self) -> (count: usize)
        ensures
            count == self.remaining().len(),
    {
        proof {
            use_type_invariant(self);
        }
        self.data.len() - self.offset
    }

    /// Reads the next `count` bytes. Where fewer are left, nothing is read.
    pub fn slice(&mut self, count: usize) -> (taken: Result<&'a [u8], ConversionError>)
        ensures
            match taken {
                Ok(bytes) => {
                    &&& count <= old(self).remaining().len()
                    &&& bytes@ == old(self).remaining().take(count as int)
                    &&& final(self).remaining() == old(self).remaining().skip(count as int)
                },
                Err(error) => {
                    &&& count > old(self).remaining().len()
                    &&& error == ConversionError::ByteReaderTooShort
                    &&& final(self).remaining() == old(self).remaining()
                },
            },
    {
        proof {
            use_type_invariant(&*self);
        }
        if count > self.data.len() - self.offset {
            return Err(ConversionError::ByteReaderTooShort);
        }
        let start = self.offset;
        let bytes = slice_subrange(self.data, start, start + count);
        self.offset = start + count;
        assert(bytes@ =~= old(self).remaining().take(count as int));
        assert(self.remaining() =~= old(self).remaining().skip(count as int));
        Ok(bytes)
    }

    /// Reads the next byte. Where none is left, nothing is read.
    pub fn byte(&mut self) -> (taken: Result<u8, ConversionError>)
        ensures
            match taken {
                Ok(value) => {
                    &&& old(self).remaining().len() > 0
                    &&& value == old(self).remaining()[0]
                    &&& final(self).remaining() == old(self).remaining().skip(1)
                },
                Err(error) => {
                    &&& old(self).remaining().len() == 0
                    &&& error == ConversionError::ByteReaderTooShort
                    &&& final(self).remaining() == old(self).remaining()
                },
            },
    {
        proof {
            use_type_invariant(&*self);
        }
        if self.offset >= self.data.len() {
            return Err(ConversionError::ByteReaderTooShort);
        }
        let value = self.data[self.offset];
        self.offset = self.offset + 1;
        assert(self.remaining() =~= old(self).remaining().skip(1));
        Ok(value)
    }
}

/// Whether two runs of bytes are the same.
pub fn bytes_equal(left: &[u8], right: &[u8]) -> (same: bool)
    ensures
        same == (left@ == right@),
{
    if left.len() != right.len() {
        return false;
    }
    let mut index: usize = 0;
    while index < left.len()
        invariant
            left@.len() == right@.len(),
            index <= left@.len(),
            forall|i: int| 0 <= i < index ==> left@[i] == right@[i],
        decreases left@.len() - index,
    {
        if left[index] != right[index] {
            return false;
        }
        index = index + 1;
    }
    assert(left@ =~= right@);
    true
}

} // verus!

//! Sprite images: the run-length coding of palette images and the palette
//! that turns them into colours.

use vstd::prelude::*;
use crate::bytes::ByteReader;
use crate::bytes::ConversionError;

verus! {

/// The pixels of a palette image, one palette index each, after the runs of
/// its coding have been written out.
#[derive(Clone, Debug, PartialEq, Eq)]
pub struct EncodedData(pub Vec<u8>);

/// `count` pixels of index zero.
pub open spec fn blank_pixels(count: int) -> Seq<u8> {
    Seq::new(count as nat, |i: int| 0u8)
}

/// The number of blank pixels that a run with the count byte `count` stands
/// for: the count, and one where the count is zero.
pub open spec fn run_length(count: u8) -> int {
    if count == 0 {
        1
    } else {
        count as int
    }
}

/// What a coded image is when written out. A byte other than zero is one
/// pixel of that index; a zero byte and the byte after it are a run of blank
/// pixels. A zero byte at the very end, with no count after it, stands for
/// nothing.
pub open spec fn expanded(coded: Seq<u8>) -> Seq<u8>
    decreases coded.len(),
{
    if coded.len() == 0 {
        Seq::empty()
    } else if coded[0] != 0 {
        seq![coded[0]] + expanded(coded.skip(1))
    } else if coded.len() == 1 {
        Seq::empty()
    } else {
        blank_pixels(run_length(coded[1])) + expanded(coded.skip(2))
    }
}

/// How the decoding of an image of `size` pixels goes on from a point at
/// which `pixels` are written, `budget` coded bytes are still announced and
/// `stream` is what is left to read. Gives the image and what is left of the
/// stream after it, or the first fault met.
pub open spec fn decoded_from(stream: Seq<u8>, budget: int, pixels: Seq<u8>, size: int) -> Result<
    (Seq<u8>, Seq<u8>),
    ConversionError,
>
    decreases stream.len(),
{
    if pixels.len() >= size || budget <= 0 {
        if pixels.len() != size || budget > 0 {
            Err(ConversionError::BadlyEncodedImage)
        } else {
            Ok((pixels, stream))
        }
    } else if stream.len() == 0 {
        Err(ConversionError::ByteReaderTooShort)
    } else if stream[0] != 0 {
        decoded_from(stream.skip(1), budget - 1, pixels.push(stream[0]), size)
    } else if stream.len() == 1 {
        Err(ConversionError::ByteReaderTooShort)
    } else if budget == 1 {
        Err(ConversionError::BadlyEncodedImage)
    } else if pixels.len() + run_length(stream[1]) > size {
        Err(ConversionError::TooMuchEncodedData)
    } else {
        decoded_from(stream.skip(2), budget - 2, pixels + blank_pixels(run_length(stream[1])), size)
    }
}

/// The number that two bytes are, the low byte first.
pub open spec fn u16_le(low: u8, high: u8) -> int {
    low as int + 256 * (high as int)
}

/// What reading a coded image of `size` pixels from `stream` gives: the image
/// and what is left of the stream after it, or the first fault met. An image
/// without pixels takes no bytes; any other starts with the number of coded
/// bytes, in two bytes.
pub open spec fn decoded_image(stream: Seq<u8>, size: int) -> Result<(Seq<u8>, Seq<u8>), ConversionError> {
    if size == 0 {
        Ok((Seq::empty(), stream))
    } else if stream.len() < 2 {
        Err(ConversionError::ByteReaderTooShort)
    } else {
        decoded_from(stream.skip(2), u16_le(stream[0], stream[1]), Seq::empty(), size)
    }
}

/// Reads two bytes as a number, the low byte first.
pub fn read_u16(byte_reader: &mut ByteReader) -> (read: Result<u16, ConversionError>)
    ensures
        match read {
            Ok(value) => {
                &&& old(byte_reader).remaining().len() >= 2
                &&& value == u16_le(old(byte_reader).remaining()[0], old(byte_reader).remaining()[1])
                &&& final(byte_reader).remaining() == old(byte_reader).remaining().skip(2)
            },
            Err(error) => {
                &&& old(byte_reader).remaining().len() < 2
                &&& error == ConversionError::ByteReaderTooShort
                &&& final(byte_reader).remaining() == old(byte_reader).remaining()
            },
        },
{
    match byte_reader.slice(2) {
        Ok(bytes) => {
            let low = bytes[0];
            let high = bytes[1];
            Ok(low as u16 + 256 * (high as u16))
        },
        Err(error) => Err(error),
    }
}

impl EncodedData {
    /// Reads a coded palette image of `length_hint` pixels. On success the
    /// reader stands behind the image.
    pub fn from_bytes(byte_reader: &mut ByteReader, length_hint: Option<usize>) -> (read: Result<
        EncodedData,
        ConversionError,
    >)
        requires
            length_hint is Some,
        ensures
            match decoded_image(old(byte_reader).remaining(), length_hint->0 as int) {
                Ok((image, rest)) => {
                    &&& read matches Ok(data)
                    &&& data.0@ == image
                    &&& final(byte_reader).remaining() == rest
                },
                Err(error) => read == Err::<EncodedData, ConversionError>(error),
            },
    {
        let image_size = match length_hint {
            Some(size) => size,
            None => 0,
        };
        if image_size == 0 {
            return Ok(EncodedData(Vec::new()));
        }
        let mut encoded: u16 = match read_u16(byte_reader) {
            Ok(value) => value,
            Err(error) => {
                return Err(error);
            },
        };
        let mut data: Vec<u8> = Vec::new();
        let ghost whole = decoded_image(old(byte_reader).remaining(), image_size as int);
        while data.len() < image_size && encoded > 0
            invariant
                data@.len() <= image_size,
                length_hint == Some(image_size),
                whole == decoded_image(old(byte_reader).remaining(), image_size as int),
                whole == decoded_from(byte_reader.remaining(), encoded as int, data@, image_size as int),
            decreases byte_reader.remaining().len(),
        {
            let ghost stream = byte_reader.remaining();
            let ghost pixels = data@;
            let byte = match byte_reader.byte() {
                Ok(value) => value,
                Err(error) => {
                    return Err(error);
                },
            };
            encoded = encoded - 1;
            if byte == 0 {
                let count = match byte_reader.byte() {
                    Ok(value) => value,
                    Err(error) => {
                        return Err(error);
                    },
                };
                if encoded == 0 {
                    return Err(ConversionError::BadlyEncodedImage);
                }
                encoded = encoded - 1;
                let length: usize = if count == 0 {
                    1
                } else {
                    count as usize
                };
                if length > image_size - data.len() {
                    return Err(ConversionError::TooMuchEncodedData);
                }
                let ghost before = data@;
                let mut written: usize = 0;
                while written < length
                    invariant
                        written <= length,
                        before.len() + length <= image_size,
                        data@ == before + blank_pixels(written as int),
                    decreases length - written,
                {
                    data.push(0);
                    written = written + 1;
                    assert(data@ =~= before + blank_pixels(written as int));
                }
                assert(byte_reader.remaining() =~= stream.skip(2));
                assert(data@ == pixels + blank_pixels(run_length(stream[1])));
            } else {
                data.push(byte);
            }
        }
        if data.len() != image_size || encoded > 0 {
            return Err(ConversionError::BadlyEncodedImage);
        }
        Ok(EncodedData(data))
    }
}

/// Where decoding from a point succeeds, the announced bytes were all there,
/// the image is what was written before followed by those bytes written out,
/// it has the size asked for, and the stream goes on behind those bytes.
pub proof fn lemma_decoded_from_is_expansion(stream: Seq<u8>, budget: int, pixels: Seq<u8>, size: int)
    requires
        budget >= 0,
        decoded_from(stream, budget, pixels, size) is Ok,
    ensures
        budget <= stream.len(),
        decoded_from(stream, budget, pixels, size)->Ok_0.0 == pixels + expanded(stream.take(budget)),
        decoded_from(stream, budget, pixels, size)->Ok_0.0.len() == size,
        decoded_from(stream, budget, pixels, size)->Ok_0.1 == stream.skip(budget),
    decreases stream.len(),
{
    let coded = stream.take(budget);
    if pixels.len() >= size || budget <= 0 {
        assert(coded =~= Seq::<u8>::empty());
        assert(pixels + expanded(coded) =~= pixels);
        assert(stream.skip(0) =~= stream);
    } else if stream[0] != 0 {
        lemma_decoded_from_is_expansion(stream.skip(1), budget - 1, pixels.push(stream[0]), size);
        assert(coded.skip(1) =~= stream.skip(1).take(budget - 1));
        assert(pixels.push(stream[0]) + expanded(coded.skip(1)) =~= pixels + (seq![stream[0]] + expanded(
            coded.skip(1),
        )));
        assert(stream.skip(1).skip(budget - 1) =~= stream.skip(budget));
    } else {
        let run = blank_pixels(run_length(stream[1]));
        lemma_decoded_from_is_expansion(stream.skip(2), budget - 2, pixels + run, size);
        assert(coded.skip(2) =~= stream.skip(2).take(budget - 2));
        assert((pixels + run) + expanded(coded.skip(2)) =~= pixels + (run + expanded(coded.skip(2))));
        assert(stream.skip(2).skip(budget - 2) =~= stream.skip(budget));
    }
}

/// An image that was read is its coded bytes written out: behind the two
/// bytes of their number come that many coded bytes, the image is their
/// expansion and has the size asked for, and the stream goes on behind them.
pub proof fn law_decoded_image_is_expansion(stream: Seq<u8>, size: int)
    requires
        size > 0,
        decoded_image(stream, size) is Ok,
    ensures
        stream.len() >= 2 + u16_le(stream[0], stream[1]),
        decoded_image(stream, size)->Ok_0.0 == expanded(
            stream.subrange(2, 2 + u16_le(stream[0], stream[1])),
        ),
        decoded_image(stream, size)->Ok_0.0.len() == size,
        decoded_image(stream, size)->Ok_0.1 == stream.skip(2 + u16_le(stream[0], stream[1])),
{
    let announced = u16_le(stream[0], stream[1]);
    lemma_decoded_from_is_expansion(stream.skip(2), announced, Seq::empty(), size);
    assert(stream.skip(2).take(announced) =~= stream.subrange(2, 2 + announced));
    assert(Seq::<u8>::empty() + expanded(stream.skip(2).take(announced)) =~= expanded(
        stream.skip(2).take(announced),
    ));
    assert(stream.skip(2).skip(announced) =~= stream.skip(2 + announced));
}

/// One colour of a palette.
#[derive(Clone, Copy, Debug, Default, PartialEq, Eq)]
pub struct PaletteColor {
    pub red: u8,
    pub green: u8,
    pub blue: u8,
    pub reserved: u8,
}

impl PaletteColor {
    /// The colour as red, green, blue and opacity. The colour at index zero
    /// is see-through, every other is solid.
    pub open spec fn rgba(self, index: u8) -> Seq<u8> {
        seq![self.red, self.green, self.blue, if index == 0 { 0u8 } else { 255u8 }]
    }

    /// The colour as red, green, blue and opacity, for the palette index
    /// `index` that it stands at.
    pub fn color_bytes(&self, index: u8) -> (bytes: [u8; 4])
        ensures
            bytes@ == self.rgba(index),
    {
        let alpha: u8 = match index {
            0 => 0,
            _ => 255,
        };
        let bytes = [self.red, self.green, self.blue, alpha];
        assert(bytes@ =~= self.rgba(index));
        bytes
    }
}

/// The pixels `indices` in the colours `colors`: four bytes for each pixel,
/// in the order of the pixels.
pub open spec fn colored_with(colors: Seq<PaletteColor>, indices: Seq<u8>) -> Seq<u8> {
    Seq::new(4 * indices.len(), |k: int| colors[indices[k / 4] as int].rgba(indices[k / 4])[k % 4])
}

/// The colours that the indices of a palette image stand for.
#[derive(Clone, Copy, Debug, PartialEq, Eq)]
pub struct Palette {
    pub colors: [PaletteColor; 256],
}

impl Palette {
    /// The pixels `indices` in the colours of this palette.
    pub open spec fn colored(self, indices: Seq<u8>) -> Seq<u8> {
        colored_with(self.colors@, indices)
    }

    /// Turns the pixels of a palette image into colour.
    pub fn to_rgba(&self, indices: &[u8]) -> (data: Vec<u8>)
        ensures
            data@ == self.colored(indices@),
    {
        let mut data: Vec<u8> = Vec::new();
        let mut index: usize = 0;
        while index < indices.len()
            invariant
                index <= indices@.len(),
                data@ == self.colored(indices@.take(index as int)),
            decreases indices@.len() - index,
        {
            let palette_index = indices[index];
            let bytes = self.colors[palette_index as usize].color_bytes(palette_index);
            let ghost before = data@;
            data.push(bytes[0]);
            data.push(bytes[1]);
            data.push(bytes[2]);
            data.push(bytes[3]);
            index = index + 1;
            assert(data@ =~= self.colored(indices@.take(index as int))) by {
                assert(data@.len() == 4 * index);
                assert forall|k: int| 0 <= k < data@.len() implies data@[k] == self.colored(
                    indices@.take(index as int),
                )[k] by {
                    if k < 4 * (index - 1) {
                        assert(data@[k] == before[k]);
                        assert(indices@.take(index - 1)[k / 4] == indices@.take(index as int)[k / 4]);
                    } else {
                        assert(k / 4 == index - 1);
                    }
                }
            }
        }
        assert(indices@.take(index as int) =~= indices@);
        data
    }
}

} // verus!

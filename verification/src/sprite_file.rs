//! The sprite file: a signature, a version, the palette images, the colour
//! images and the palette. Numbers stand low byte first.

use vstd::array::array_fill_for_copy_types;
use vstd::prelude::*;
use vstd::slice::slice_to_vec;
use crate::bytes::ByteReader;
use crate::bytes::ConversionError;
use crate::sprite::colored_with;
use crate::sprite::decoded_image;
use crate::sprite::read_u16;
use crate::sprite::u16_le;
use crate::sprite::EncodedData;
use crate::sprite::Palette;
use crate::sprite::PaletteColor;

verus! {

/// Version of a file format.
#[derive(Clone, Copy, Debug, PartialEq, Eq)]
pub struct Version {
    pub major: u8,
    pub minor: u8,
}

impl Version {
    /// Whether this version is `major`.`minor` or a later one.
    pub open spec fn at_least(self, major: u8, minor: u8) -> bool {
        self.major > major || (self.major == major && self.minor >= minor)
    }

    /// Whether this version is `major`.`minor` or a later one.
    pub fn equals_or_above(&self, major: u8, minor: u8) -> (reached: bool)
        ensures
            reached == self.at_least(major, minor),
    {
        self.major > major || (self.major == major && self.minor >= minor)
    }
}

/// An image of four bytes a pixel: red, green, blue and opacity.
#[derive(Clone, Debug, PartialEq, Eq)]
pub struct RgbaImageData {
    pub width: u16,
    pub height: u16,
    pub data: Vec<u8>,
}

/// A colour image as contracts see it.
pub struct RgbaImage {
    pub width: u16,
    pub height: u16,
    pub data: Seq<u8>,
}

impl View for RgbaImageData {
    type V = RgbaImage;

    open spec fn view(&self) -> RgbaImage {
        RgbaImage { width: self.width, height: self.height, data: self.data@ }
    }
}

/// An image of one palette index a pixel. From version 2.1 on the pixels are
/// stored run-length coded, before that as they are.
#[derive(Clone, Debug, PartialEq, Eq)]
pub struct PaletteImageData {
    pub width: u16,
    pub height: u16,
    pub encoded_data: Option<EncodedData>,
    pub raw_data: Option<Vec<u8>>,
}

/// A palette image as contracts see it.
pub struct PaletteImage {
    pub width: u16,
    pub height: u16,
    pub encoded_data: Option<Seq<u8>>,
    pub raw_data: Option<Seq<u8>>,
}

impl PaletteImage {
    /// The pixels of the image, whichever way they were stored.
    pub open spec fn pixels(self) -> Seq<u8> {
        match self.encoded_data {
            Some(pixels) => pixels,
            None => match self.raw_data {
                Some(pixels) => pixels,
                None => Seq::empty(),
            },
        }
    }

    /// The image in the colours `colors`.
    pub open spec fn colored(self, colors: Seq<PaletteColor>) -> RgbaImage {
        RgbaImage { width: self.width, height: self.height, data: colored_with(colors, self.pixels()) }
    }
}

impl View for PaletteImageData {
    type V = PaletteImage;

    open spec fn view(&self) -> PaletteImage {
        PaletteImage {
            width: self.width,
            height: self.height,
            encoded_data: match self.encoded_data {
                Some(data) => Some(data.0@),
                None => None,
            },
            raw_data: match self.raw_data {
                Some(data) => Some(data@),
                None => None,
            },
        }
    }
}

/// The views of a run of colour images.
pub open spec fn rgba_views(images: Seq<RgbaImageData>) -> Seq<RgbaImage> {
    images.map_values(|image: RgbaImageData| image@)
}

/// The views of a run of palette images.
pub open spec fn palette_views(images: Seq<PaletteImageData>) -> Seq<PaletteImage> {
    images.map_values(|image: PaletteImageData| image@)
}

/// What a sprite file holds behind its signature.
pub struct SpriteData {
    pub version: Version,
    pub palette_image_count: u16,
    pub rgba_image_count: Option<u16>,
    pub palette_image_data: Vec<PaletteImageData>,
    pub rgba_image_data: Vec<RgbaImageData>,
    pub palette: Option<Palette>,
}

/// The content of a sprite file as contracts see it.
pub struct SpriteModel {
    pub version: Version,
    pub palette_image_count: u16,
    pub rgba_image_count: Option<u16>,
    pub palette_image_data: Seq<PaletteImage>,
    pub rgba_image_data: Seq<RgbaImage>,
    pub palette: Option<Seq<PaletteColor>>,
}

impl View for SpriteData {
    type V = SpriteModel;

    open spec fn view(&self) -> SpriteModel {
        SpriteModel {
            version: self.version,
            palette_image_count: self.palette_image_count,
            rgba_image_count: self.rgba_image_count,
            palette_image_data: palette_views(self.palette_image_data@),
            rgba_image_data: rgba_views(self.rgba_image_data@),
            palette: match self.palette {
                Some(palette) => Some(palette.colors@),
                None => None,
            },
        }
    }
}

/// A number of two bytes at the head of `stream`, and what follows it.
pub open spec fn parsed_u16(stream: Seq<u8>) -> Result<(u16, Seq<u8>), ConversionError> {
    if stream.len() < 2 {
        Err(ConversionError::ByteReaderTooShort)
    } else {
        Ok((u16_le(stream[0], stream[1]) as u16, stream.skip(2)))
    }
}

/// The first `count` bytes of `stream`, and what follows them.
pub open spec fn parsed_bytes(stream: Seq<u8>, count: int) -> Result<(Seq<u8>, Seq<u8>), ConversionError> {
    if stream.len() < count {
        Err(ConversionError::ByteReaderTooShort)
    } else {
        Ok((stream.take(count), stream.skip(count)))
    }
}

/// A version at the head of `stream`, the minor number first, and what
/// follows it.
pub open spec fn parsed_version(stream: Seq<u8>) -> Result<(Version, Seq<u8>), ConversionError> {
    if stream.len() < 2 {
        Err(ConversionError::ByteReaderTooShort)
    } else {
        Ok((Version { major: stream[1], minor: stream[0] }, stream.skip(2)))
    }
}

/// A palette image at the head of `stream`: width, height, then the pixels,
/// run-length coded from version 2.1 on.
pub open spec fn parsed_palette_image(stream: Seq<u8>, version: Version) -> Result<
    (PaletteImage, Seq<u8>),
    ConversionError,
> {
    match parsed_u16(stream) {
        Err(error) => Err(error),
        Ok((width, after_width)) => match parsed_u16(after_width) {
            Err(error) => Err(error),
            Ok((height, after_height)) => if version.at_least(2, 1) {
                match decoded_image(after_height, width * height) {
                    Err(error) => Err(error),
                    Ok((pixels, rest)) => Ok(
                        (PaletteImage { width, height, encoded_data: Some(pixels), raw_data: None }, rest),
                    ),
                }
            } else {
                match parsed_bytes(after_height, width * height) {
                    Err(error) => Err(error),
                    Ok((pixels, rest)) => Ok(
                        (PaletteImage { width, height, encoded_data: None, raw_data: Some(pixels) }, rest),
                    ),
                }
            },
        },
    }
}

/// A colour image at the head of `stream`: width, height, then four bytes
/// for each pixel.
pub open spec fn parsed_rgba_image(stream: Seq<u8>) -> Result<(RgbaImage, Seq<u8>), ConversionError> {
    match parsed_u16(stream) {
        Err(error) => Err(error),
        Ok((width, after_width)) => match parsed_u16(after_width) {
            Err(error) => Err(error),
            Ok((height, after_height)) => match parsed_bytes(after_height, width * height * 4) {
                Err(error) => Err(error),
                Ok((data, rest)) => Ok((RgbaImage { width, height, data }, rest)),
            },
        },
    }
}

/// `count` more palette images at the head of `stream`, behind the `images`
/// read so far.
pub open spec fn parsed_palette_images(
    stream: Seq<u8>,
    version: Version,
    count: int,
    images: Seq<PaletteImage>,
) -> Result<(Seq<PaletteImage>, Seq<u8>), ConversionError>
    decreases count,
{
    if count <= 0 {
        Ok((images, stream))
    } else {
        match parsed_palette_image(stream, version) {
            Err(error) => Err(error),
            Ok((image, rest)) => parsed_palette_images(rest, version, count - 1, images.push(image)),
        }
    }
}

/// `count` more colour images at the head of `stream`, behind the `images`
/// read so far.
pub open spec fn parsed_rgba_images(stream: Seq<u8>, count: int, images: Seq<RgbaImage>) -> Result<
    (Seq<RgbaImage>, Seq<u8>),
    ConversionError,
>
    decreases count,
{
    if count <= 0 {
        Ok((images, stream))
    } else {
        match parsed_rgba_image(stream) {
            Err(error) => Err(error),
            Ok((image, rest)) => parsed_rgba_images(rest, count - 1, images.push(image)),
        }
    }
}

/// The colour that four bytes are: red, green, blue and a byte kept for
/// later use.
pub open spec fn color_at(bytes: Seq<u8>, index: int) -> PaletteColor {
    PaletteColor {
        red: bytes[4 * index],
        green: bytes[4 * index + 1],
        blue: bytes[4 * index + 2],
        reserved: bytes[4 * index + 3],
    }
}

/// A palette at the head of `stream`: 256 colours of four bytes.
pub open spec fn parsed_palette(stream: Seq<u8>) -> Result<(Seq<PaletteColor>, Seq<u8>), ConversionError> {
    match parsed_bytes(stream, 1024) {
        Err(error) => Err(error),
        Ok((bytes, rest)) => Ok((Seq::new(256, |index: int| color_at(bytes, index)), rest)),
    }
}

/// The number of colour images that a sprite file announces: none where it
/// has no such number.
pub open spec fn announced(count: Option<u16>) -> int {
    match count {
        Some(count) => count as int,
        None => 0,
    }
}

/// The three parts at the head of a sprite file: the version, the number of
/// palette images, and from version 1.2 on the number of colour images.
pub open spec fn parsed_counts(stream: Seq<u8>) -> Result<
    ((Version, u16, Option<u16>), Seq<u8>),
    ConversionError,
> {
    match parsed_version(stream) {
        Err(error) => Err(error),
        Ok((version, after_version)) => match parsed_u16(after_version) {
            Err(error) => Err(error),
            Ok((palette_image_count, after_count)) => if version.at_least(1, 2) {
                match parsed_u16(after_count) {
                    Err(error) => Err(error),
                    Ok((rgba_image_count, rest)) => Ok(
                        ((version, palette_image_count, Some(rgba_image_count)), rest),
                    ),
                }
            } else {
                Ok(((version, palette_image_count, None), after_count))
            },
        },
    }
}

/// The palette of a sprite file of the given version: there from version 1.1
/// on.
pub open spec fn parsed_optional_palette(stream: Seq<u8>, version: Version) -> Result<
    (Option<Seq<PaletteColor>>, Seq<u8>),
    ConversionError,
> {
    if version.at_least(1, 1) {
        match parsed_palette(stream) {
            Err(error) => Err(error),
            Ok((colors, rest)) => Ok((Some(colors), rest)),
        }
    } else {
        Ok((None, stream))
    }
}

/// The content of a sprite file behind its signature: the head, the palette
/// images, the colour images and the palette, one after another.
pub open spec fn parsed_sprite_data(stream: Seq<u8>) -> Result<(SpriteModel, Seq<u8>), ConversionError> {
    match parsed_counts(stream) {
        Err(error) => Err(error),
        Ok(((version, palette_image_count, rgba_image_count), after_counts)) => match parsed_palette_images(
            after_counts,
            version,
            palette_image_count as int,
            Seq::empty(),
        ) {
            Err(error) => Err(error),
            Ok((palette_image_data, after_palette_images)) => match parsed_rgba_images(
                after_palette_images,
                announced(rgba_image_count),
                Seq::empty(),
            ) {
                Err(error) => Err(error),
                Ok((rgba_image_data, after_rgba_images)) => match parsed_optional_palette(
                    after_rgba_images,
                    version,
                ) {
                    Err(error) => Err(error),
                    Ok((colors, rest)) => Ok(
                        (
                            SpriteModel {
                                version,
                                palette_image_count,
                                rgba_image_count,
                                palette_image_data,
                                rgba_image_data,
                                palette: colors,
                            },
                            rest,
                        ),
                    ),
                },
            },
        },
    }
}


/// Reads `count` bytes into a buffer of their own.
fn read_bytes(byte_reader: &mut ByteReader, count: u64) -> (read: Result<Vec<u8>, ConversionError>)
    ensures
        match parsed_bytes(old(byte_reader).remaining(), count as int) {
            Ok((bytes, rest)) => read matches Ok(data) && data@ == bytes && final(byte_reader).remaining() == rest,
            Err(error) => read == Err::<Vec<u8>, ConversionError>(error),
        },
{
    if count > byte_reader.remaining_len() as u64 {
        return Err(ConversionError::ByteReaderTooShort);
    }
    match byte_reader.slice(count as usize) {
        Ok(bytes) => Ok(slice_to_vec(bytes)),
        Err(error) => Err(error),
    }
}

impl Version {
    /// Reads a version: the minor number, then the major one.
    pub fn from_bytes(byte_reader: &mut ByteReader) -> (read: Result<Version, ConversionError>)
        ensures
            match parsed_version(old(byte_reader).remaining()) {
                Ok((version, rest)) => read == Ok::<Version, ConversionError>(version) && final(byte_reader).remaining() == rest,
                Err(error) => read == Err::<Version, ConversionError>(error),
            },
    {
        match byte_reader.slice(2) {
            Ok(bytes) => Ok(Version { major: bytes[1], minor: bytes[0] }),
            Err(error) => Err(error),
        }
    }
}

impl PaletteImageData {
    /// Reads a palette image of a file of the given version.
    pub fn from_bytes(byte_reader: &mut ByteReader, version: Version) -> (read: Result<
        PaletteImageData,
        ConversionError,
    >)
        ensures
            match parsed_palette_image(old(byte_reader).remaining(), version) {
                Ok((image, rest)) => read matches Ok(data) && data@ == image && final(byte_reader).remaining()
                    == rest,
                Err(error) => read == Err::<PaletteImageData, ConversionError>(error),
            },
    {
        let width = match read_u16(byte_reader) {
            Ok(value) => value,
            Err(error) => {
                return Err(error);
            },
        };
        let height = match read_u16(byte_reader) {
            Ok(value) => value,
            Err(error) => {
                return Err(error);
            },
        };
        assert(width * height <= 0xffff * 0xffff) by (nonlinear_arith)
            requires
                0 <= width <= 0xffff,
                0 <= height <= 0xffff,
        ;
        let size: u64 = width as u64 * height as u64;
        if version.equals_or_above(2, 1) {
            if size > usize::MAX as u64 {
                return Err(ConversionError::ByteReaderTooShort);
            }
            match EncodedData::from_bytes(byte_reader, Some(size as usize)) {
                Ok(data) => Ok(PaletteImageData { width, height, encoded_data: Some(data), raw_data: None }),
                Err(error) => Err(error),
            }
        } else {
            match read_bytes(byte_reader, size) {
                Ok(data) => Ok(PaletteImageData { width, height, encoded_data: None, raw_data: Some(data) }),
                Err(error) => Err(error),
            }
        }
    }

    /// The image in the colours of `palette`.
    pub fn to_rgba(&self, palette: &Palette) -> (image: RgbaImageData)
        ensures
            image@ == self@.colored(palette.colors@),
    {
        let data = match &self.encoded_data {
            Some(encoded) => palette.to_rgba(encoded.0.as_slice()),
            None => match &self.raw_data {
                Some(raw) => palette.to_rgba(raw.as_slice()),
                None => {
                    let empty: Vec<u8> = Vec::new();
                    palette.to_rgba(empty.as_slice())
                },
            },
        };
        RgbaImageData { width: self.width, height: self.height, data }
    }
}

impl RgbaImageData {
    /// Reads a colour image.
    pub fn from_bytes(byte_reader: &mut ByteReader) -> (read: Result<RgbaImageData, ConversionError>)
        ensures
            match parsed_rgba_image(old(byte_reader).remaining()) {
                Ok((image, rest)) => read matches Ok(data) && data@ == image && final(byte_reader).remaining()
                    == rest,
                Err(error) => read == Err::<RgbaImageData, ConversionError>(error),
            },
    {
        let width = match read_u16(byte_reader) {
            Ok(value) => value,
            Err(error) => {
                return Err(error);
            },
        };
        let height = match read_u16(byte_reader) {
            Ok(value) => value,
            Err(error) => {
                return Err(error);
            },
        };
        assert(width * height <= 0xffff * 0xffff) by (nonlinear_arith)
            requires
                0 <= width <= 0xffff,
                0 <= height <= 0xffff,
        ;
        let size: u64 = width as u64 * height as u64 * 4;
        match read_bytes(byte_reader, size) {
            Ok(data) => Ok(RgbaImageData { width, height, data }),
            Err(error) => Err(error),
        }
    }
}

impl Palette {
    /// Reads a palette.
    pub fn from_bytes(byte_reader: &mut ByteReader) -> (read: Result<Palette, ConversionError>)
        ensures
            match parsed_palette(old(byte_reader).remaining()) {
                Ok((colors, rest)) => read matches Ok(palette) && palette.colors@ == colors && final(byte_reader).remaining() == rest,
                Err(error) => read == Err::<Palette, ConversionError>(error),
            },
    {
        let bytes = match byte_reader.slice(1024) {
            Ok(bytes) => bytes,
            Err(error) => {
                return Err(error);
            },
        };
        let mut colors: [PaletteColor; 256] = array_fill_for_copy_types(
            PaletteColor { red: 0, green: 0, blue: 0, reserved: 0 },
        );
        let mut index: usize = 0;
        while index < 256
            invariant
                index <= 256,
                bytes@.len() == 1024,
                forall|i: int| 0 <= i < index ==> colors@[i] == color_at(bytes@, i),
            decreases 256 - index,
        {
            colors[index] = PaletteColor {
                red: bytes[4 * index],
                green: bytes[4 * index + 1],
                blue: bytes[4 * index + 2],
                reserved: bytes[4 * index + 3],
            };
            index = index + 1;
        }
        assert(colors@ =~= Seq::new(256, |index: int| color_at(bytes@, index)));
        Ok(Palette { colors })
    }
}

impl SpriteData {
    /// Reads what a sprite file holds behind its signature.
    pub fn from_bytes(byte_reader: &mut ByteReader) -> (read: Result<SpriteData, ConversionError>)
        ensures
            match parsed_sprite_data(old(byte_reader).remaining()) {
                Ok((model, rest)) => read matches Ok(data) && data@ == model && final(byte_reader).remaining()
                    == rest,
                Err(error) => read == Err::<SpriteData, ConversionError>(error),
            },
    {
        let version = match Version::from_bytes(byte_reader) {
            Ok(value) => value,
            Err(error) => {
                return Err(error);
            },
        };
        let palette_image_count = match read_u16(byte_reader) {
            Ok(value) => value,
            Err(error) => {
                return Err(error);
            },
        };
        let rgba_image_count = if version.equals_or_above(1, 2) {
            match read_u16(byte_reader) {
                Ok(value) => Some(value),
                Err(error) => {
                    return Err(error);
                },
            }
        } else {
            None
        };
        let ghost whole = parsed_sprite_data(old(byte_reader).remaining());
        let ghost after_counts = byte_reader.remaining();
        assert(parsed_counts(old(byte_reader).remaining()) == Ok::<
            ((Version, u16, Option<u16>), Seq<u8>),
            ConversionError,
        >(((version, palette_image_count, rgba_image_count), after_counts)));

        let mut palette_image_data: Vec<PaletteImageData> = Vec::new();
        let mut read_count: u16 = 0;
        assert(palette_views(palette_image_data@) =~= Seq::<PaletteImage>::empty());
        while read_count < palette_image_count
            invariant
                read_count <= palette_image_count,
                whole == parsed_sprite_data(old(byte_reader).remaining()),
                parsed_palette_images(after_counts, version, palette_image_count as int, Seq::empty())
                    == parsed_palette_images(
                    byte_reader.remaining(),
                    version,
                    palette_image_count - read_count,
                    palette_views(palette_image_data@),
                ),
                parsed_counts(old(byte_reader).remaining()) == Ok::<
                    ((Version, u16, Option<u16>), Seq<u8>),
                    ConversionError,
                >(((version, palette_image_count, rgba_image_count), after_counts)),
            decreases palette_image_count - read_count,
        {
            let ghost before = palette_image_data@;
            match PaletteImageData::from_bytes(byte_reader, version) {
                Ok(image) => {
                    palette_image_data.push(image);
                    assert(palette_views(palette_image_data@) =~= palette_views(before).push(image@));
                },
                Err(error) => {
                    return Err(error);
                },
            }
            read_count = read_count + 1;
        }
        let ghost after_palette_images = byte_reader.remaining();

        let rgba_total: u16 = match rgba_image_count {
            Some(count) => count,
            None => 0,
        };
        let mut rgba_image_data: Vec<RgbaImageData> = Vec::new();
        let mut read_count: u16 = 0;
        assert(rgba_views(rgba_image_data@) =~= Seq::<RgbaImage>::empty());
        while read_count < rgba_total
            invariant
                read_count <= rgba_total,
                rgba_total == announced(rgba_image_count),
                whole == parsed_sprite_data(old(byte_reader).remaining()),
                parsed_rgba_images(after_palette_images, rgba_total as int, Seq::empty()) == parsed_rgba_images(
                    byte_reader.remaining(),
                    rgba_total - read_count,
                    rgba_views(rgba_image_data@),
                ),
                parsed_counts(old(byte_reader).remaining()) == Ok::<
                    ((Version, u16, Option<u16>), Seq<u8>),
                    ConversionError,
                >(((version, palette_image_count, rgba_image_count), after_counts)),
                parsed_palette_images(after_counts, version, palette_image_count as int, Seq::empty()) == Ok::<
                    (Seq<PaletteImage>, Seq<u8>),
                    ConversionError,
                >((palette_views(palette_image_data@), after_palette_images)),
            decreases rgba_total - read_count,
        {
            let ghost before = rgba_image_data@;
            match RgbaImageData::from_bytes(byte_reader) {
                Ok(image) => {
                    rgba_image_data.push(image);
                    assert(rgba_views(rgba_image_data@) =~= rgba_views(before).push(image@));
                },
                Err(error) => {
                    return Err(error);
                },
            }
            read_count = read_count + 1;
        }
        let palette = if version.equals_or_above(1, 1) {
            match Palette::from_bytes(byte_reader) {
                Ok(value) => Some(value),
                Err(error) => {
                    return Err(error);
                },
            }
        } else {
            None
        };
        Ok(
            SpriteData {
                version,
                palette_image_count,
                rgba_image_count,
                palette_image_data,
                rgba_image_data,
                palette,
            },
        )
    }
}

/// Why the images of a sprite file could not be had.
#[derive(Clone, Copy, Debug, PartialEq, Eq)]
pub enum SpriteError {
    /// The file does not start with the signature of a sprite file.
    MagicNumber,
    /// The file ends early or an image in it is badly coded.
    Conversion(ConversionError),
    /// The file is of a version without a palette, so its palette images
    /// have no colours.
    MissingPalette,
}

/// The images of a sprite file in colour: the colour images as they are,
/// then the palette images in the colours of the file's palette.
pub open spec fn sprite_images_of(bytes: Seq<u8>) -> Result<Seq<RgbaImage>, SpriteError> {
    if bytes.len() < 2 || bytes[0] != 0x53 || bytes[1] != 0x50 {
        Err(SpriteError::MagicNumber)
    } else {
        match parsed_sprite_data(bytes.skip(2)) {
            Err(error) => Err(SpriteError::Conversion(error)),
            Ok((sprite, rest)) => match sprite.palette {
                None => Err(SpriteError::MissingPalette),
                Some(colors) => Ok(
                    sprite.rgba_image_data + sprite.palette_image_data.map_values(
                        |image: PaletteImage| image.colored(colors),
                    ),
                ),
            },
        }
    }
}

/// Reads a sprite file and hands over its images in colour, ready to be
/// turned into textures.
pub fn sprite_images(bytes: &[u8]) -> (images: Result<Vec<RgbaImageData>, SpriteError>)
    ensures
        match sprite_images_of(bytes@) {
            Ok(expected) => images matches Ok(found) && rgba_views(found@) == expected,
            Err(error) => images == Err::<Vec<RgbaImageData>, SpriteError>(error),
        },
{
    let mut byte_reader = ByteReader::new(bytes);
    match byte_reader.slice(2) {
        Ok(magic) => {
            if magic[0] != 0x53 || magic[1] != 0x50 {
                return Err(SpriteError::MagicNumber);
            }
        },
        Err(_) => {
            return Err(SpriteError::MagicNumber);
        },
    }
    let sprite_data = match SpriteData::from_bytes(&mut byte_reader) {
        Ok(data) => data,
        Err(error) => {
            return Err(SpriteError::Conversion(error));
        },
    };
    let palette = match sprite_data.palette {
        Some(palette) => palette,
        None => {
            return Err(SpriteError::MissingPalette);
        },
    };
    let ghost colors = palette.colors@;
    let ghost model = sprite_data@;
    let mut images = sprite_data.rgba_image_data;
    let palette_images = sprite_data.palette_image_data;
    let mut index: usize = 0;
    assert(rgba_views(images@) =~= model.rgba_image_data + model.palette_image_data.take(0).map_values(
        |image: PaletteImage| image.colored(colors),
    ));
    while index < palette_images.len()
        invariant
            index <= palette_images@.len(),
            colors == palette.colors@,
            palette_views(palette_images@) == model.palette_image_data,
            rgba_views(images@) == model.rgba_image_data + model.palette_image_data.take(
                index as int,
            ).map_values(|image: PaletteImage| image.colored(colors)),
        decreases palette_images@.len() - index,
    {
        let ghost before = images@;
        let image = palette_images[index].to_rgba(&palette);
        images.push(image);
        index = index + 1;
        assert(rgba_views(images@) =~= model.rgba_image_data + model.palette_image_data.take(
            index as int,
        ).map_values(|image: PaletteImage| image.colored(colors))) by {
            assert(rgba_views(images@) =~= rgba_views(before).push(image@));
            assert(model.palette_image_data.take(index as int) =~= model.palette_image_data.take(index - 1).push(
                model.palette_image_data[index - 1],
            ));
            assert(palette_views(palette_images@)[index - 1] == palette_images@[index - 1]@);
        }
    }
    assert(model.palette_image_data.take(index as int) =~= model.palette_image_data);
    Ok(images)
}

} // verus!

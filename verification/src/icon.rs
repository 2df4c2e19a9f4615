use vstd::prelude::*;
use crate::text::{ascii_fold, eq_ignore_ascii_case_spec};
use crate::ico_file::{
    encoded_entry_view, entries_data, ico_file_spec, entry_record, entry_records, u16_le, u32_le,
    ico_encoded_entry,
    icon_dir_add_rgba, icon_dir_entries, icon_dir_entry_data, icon_dir_resource_number,
    icon_dir_to_bytes, new_icon_dir, IconEntryView,
};
use crate::web_shortcut::opt_view;

verus! {

/// An image error of the `image` crate, carried through opaquely.
#[verifier::external_type_specification]
#[verifier::external_body]
pub struct ExImageError(image::ImageError);

/// The side, in pixels, of the square image that a made icon holds.
pub const ICON_SIZE: u32 = 128;

/// An image format that the `image` crate names by a file extension.
pub enum ImageKind {
    Avif,
    Jpeg,
    Png,
    Gif,
    WebP,
    Tiff,
    Tga,
    Dds,
    Bmp,
    Ico,
    Hdr,
    OpenExr,
    Pnm,
    Farbfeld,
    Qoi,
}

/// `c` with an ASCII upper-case letter made lower case.
pub open spec fn ascii_lower_char(c: char) -> char {
    if 'A' <= c && c <= 'Z' {
        ((c as int) + 32) as char
    } else {
        c
    }
}

/// `s` with its ASCII letters made lower case (`to_ascii_lowercase`).
pub open spec fn ascii_lowercase_spec(s: Seq<char>) -> Seq<char> {
    s.map_values(|c: char| ascii_lower_char(c))
}

/// The format that a file extension names, compared without ASCII case, as
/// `ImageFormat::from_extension` decides it.
pub open spec fn image_kind_of_extension(ext: Seq<char>) -> Option<ImageKind> {
    let e = ascii_lowercase_spec(ext);
    if e == "avif"@ {
        Some(ImageKind::Avif)
    } else if e == "jpg"@ || e == "jpeg"@ || e == "jfif"@ {
        Some(ImageKind::Jpeg)
    } else if e == "png"@ || e == "apng"@ {
        Some(ImageKind::Png)
    } else if e == "gif"@ {
        Some(ImageKind::Gif)
    } else if e == "webp"@ {
        Some(ImageKind::WebP)
    } else if e == "tif"@ || e == "tiff"@ {
        Some(ImageKind::Tiff)
    } else if e == "tga"@ {
        Some(ImageKind::Tga)
    } else if e == "dds"@ {
        Some(ImageKind::Dds)
    } else if e == "bmp"@ {
        Some(ImageKind::Bmp)
    } else if e == "ico"@ {
        Some(ImageKind::Ico)
    } else if e == "hdr"@ {
        Some(ImageKind::Hdr)
    } else if e == "exr"@ {
        Some(ImageKind::OpenExr)
    } else if e == "pbm"@ || e == "pam"@ || e == "ppm"@ || e == "pgm"@ || e == "pnm"@ {
        Some(ImageKind::Pnm)
    } else if e == "ff"@ {
        Some(ImageKind::Farbfeld)
    } else if e == "qoi"@ {
        Some(ImageKind::Qoi)
    } else {
        None
    }
}

/// Whether the `image` crate decodes `bytes` as an image of format `kind`.
pub uninterp spec fn image_decodes(bytes: Seq<u8>, kind: ImageKind) -> bool;

/// The RGBA bytes (four per pixel, row by row) of the image that `bytes` holds in
/// format `kind`, resized to `size` by `size` with the Lanczos3 filter.
pub uninterp spec fn resized_rgba(bytes: Seq<u8>, kind: ImageKind, size: u32) -> Seq<u8>;

/// `ImageFormat::from_extension(ext).is_some()`: whether a file extension names an
/// image format. The source lowercases the ASCII letters and matches a fixed list
/// of extensions, which `image_kind_of_extension` restates.
#[verifier::external_body]
fn is_image_extension(ext: &str) -> (b: bool)
    ensures
        b == image_kind_of_extension(ext@) is Some,
{
    image::ImageFormat::from_extension(ext).is_some()
}

/// Decodes `bytes` as an image in the format that the extension `ext` names
/// (`ImageFormat::from_extension`, then `image::load_from_memory_with_format`),
/// resizes it to `size` by `size` with the Lanczos3 filter
/// (`image::imageops::resize`) and gives its RGBA bytes (`ImageBuffer::into_raw`).
/// The decoded image exists only inside this call. Whether decoding succeeds and
/// the bytes it gives are functions of the bytes, the format and the size, named
/// here; the result has four bytes per pixel.
#[verifier::external_body]
fn decode_and_resize(bytes: &[u8], ext: &str, size: u32) -> (r: Result<Vec<u8>, image::ImageError>)
    requires
        image_kind_of_extension(ext@) is Some,
        4 * size * size <= usize::MAX,
    ensures
        r is Ok <==> image_decodes(bytes@, image_kind_of_extension(ext@)->0),
        r matches Ok(rgba) ==> rgba@ == resized_rgba(bytes@, image_kind_of_extension(ext@)->0, size)
            && rgba@.len() == 4 * size * size,
{
    let format = image::ImageFormat::from_extension(ext).unwrap();
    image::load_from_memory_with_format(bytes, format).map(
        |img| image::imageops::resize(&img, size, size, image::imageops::FilterType::Lanczos3).into_raw(),
    )
}

/// Why an image could not be made into an icon file.
#[derive(Debug)]
pub enum IconError {
    /// No file extension, or one that names no image format.
    UnknownFormat,
    /// The image could not be decoded.
    Decode(image::ImageError),
    /// Encoding the resized image as an icon entry failed (never, for an 8-bit
    /// RGBA image).
    Encode(std::io::Error),
    /// Writing the icon directory out failed (never, for the one icon made here).
    Write(std::io::Error),
    /// The encoded image is too large for the offsets of an ICO file.
    TooLarge,
}

/// The RGBA bytes of the icon made from the image `bytes` of format `kind`.
pub open spec fn icon_rgba(bytes: Seq<u8>, kind: ImageKind) -> Seq<u8> {
    resized_rgba(bytes, kind, ICON_SIZE)
}

/// The one entry of the icon made from the image `bytes` of format `kind`.
pub open spec fn icon_entry(bytes: Seq<u8>, kind: ImageKind) -> IconEntryView {
    encoded_entry_view(ICON_SIZE, ICON_SIZE, icon_rgba(bytes, kind))
}

/// What making an icon file gives.
pub enum IconFileOutcome {
    /// The format is not known.
    UnknownFormat,
    /// The image does not decode.
    DecodeFails,
    /// The file would be larger than `u32::MAX` bytes.
    TooLarge,
    /// The bytes of the file.
    Bytes(Seq<u8>),
}

/// The format that an optional extension names.
pub open spec fn hint_kind(hint: Option<Seq<char>>) -> Option<ImageKind> {
    match hint {
        Some(ext) => image_kind_of_extension(ext),
        None => None,
    }
}

/// What making an icon file of the image `bytes` in the format `kind` gives: one
/// icon entry, 128 by 128, of the resized image.
pub open spec fn icon_file_outcome(bytes: Seq<u8>, kind: Option<ImageKind>) -> IconFileOutcome {
    match kind {
        None => IconFileOutcome::UnknownFormat,
        Some(k) => if !image_decodes(bytes, k) {
            IconFileOutcome::DecodeFails
        } else if 22 + icon_entry(bytes, k).5.len() > u32::MAX {
            IconFileOutcome::TooLarge
        } else {
            IconFileOutcome::Bytes(ico_file_spec(1, seq![icon_entry(bytes, k)]))
        },
    }
}

/// Whether a result is the outcome `o`.
pub open spec fn result_is_outcome(r: Result<Vec<u8>, IconError>, o: IconFileOutcome) -> bool {
    match o {
        IconFileOutcome::UnknownFormat => r matches Err(IconError::UnknownFormat),
        IconFileOutcome::DecodeFails => r matches Err(IconError::Decode(_)),
        IconFileOutcome::TooLarge => r matches Err(IconError::TooLarge),
        IconFileOutcome::Bytes(b) => r matches Ok(bytes) && bytes@ == b,
    }
}

/// Extensions that differ only in the case of ASCII letters name the same format.
pub proof fn lemma_image_kind_ignores_ascii_case(a: Seq<char>, b: Seq<char>)
    requires
        eq_ignore_ascii_case_spec(a, b),
    ensures
        image_kind_of_extension(a) == image_kind_of_extension(b),
{
    assert forall|i: int| 0 <= i < a.len() implies ascii_lower_char(a[i]) == ascii_lower_char(
        b[i],
    ) by {
        assert(ascii_fold(a[i]) == ascii_fold(b[i]));
        assert(ascii_lower_char(a[i]) as int == ascii_fold(a[i]));
        assert(ascii_lower_char(b[i]) as int == ascii_fold(b[i]));
    }
    assert(ascii_lowercase_spec(a) =~= ascii_lowercase_spec(b));
}

/// The icon file made of an image depends on its bytes and its format alone: the
/// same bytes under two extensions that name one format (such as `png`, `PNG` and
/// `apng`) give the same file.
pub proof fn lemma_icon_file_by_format(bytes: Seq<u8>, a: Seq<char>, b: Seq<char>)
    requires
        image_kind_of_extension(a) == image_kind_of_extension(b),
    ensures
        icon_file_outcome(bytes, hint_kind(Some(a))) == icon_file_outcome(bytes, hint_kind(Some(b))),
{
}

/// Making an icon file fails for a format only where the extension is missing or
/// names no format; for a known format it fails only where the image does not
/// decode or the file would not fit `u32::MAX` bytes. Otherwise the file is one
/// 128 by 128 icon: the header names one icon, the record gives 128 by 128 and
/// data at offset 22, and the data is the encoded resized image.
pub proof fn lemma_icon_file_outcome(bytes: Seq<u8>, hint: Option<Seq<char>>)
    ensures
        (icon_file_outcome(bytes, hint_kind(hint)) is UnknownFormat) <==> (hint is None
            || image_kind_of_extension(hint->0) is None),
        hint_kind(hint) matches Some(k) ==> ((icon_file_outcome(bytes, hint_kind(hint)) is DecodeFails)
            <==> !image_decodes(bytes, k)),
        hint_kind(hint) matches Some(k) ==> (image_decodes(bytes, k) && 22 + ico_encoded_entry(
            ICON_SIZE,
            ICON_SIZE,
            resized_rgba(bytes, k, ICON_SIZE),
        ).3.len() <= u32::MAX ==> icon_file_outcome(bytes, hint_kind(hint)) is Bytes),
        icon_file_outcome(bytes, hint_kind(hint)) matches IconFileOutcome::Bytes(b) ==> {
            let data = ico_encoded_entry(
                ICON_SIZE,
                ICON_SIZE,
                resized_rgba(bytes, hint_kind(hint)->0, ICON_SIZE),
            ).3;
            &&& b.len() == 22 + data.len()
            &&& b.take(6) == seq![0u8, 0u8, 1u8, 0u8, 1u8, 0u8]
            &&& b[6] == 128 && b[7] == 128
            &&& b.subrange(18, 22) == seq![22u8, 0u8, 0u8, 0u8]
            &&& b.skip(22) == data
        },
{
    if let IconFileOutcome::Bytes(b) = icon_file_outcome(bytes, hint_kind(hint)) {
        let k = hint_kind(hint)->0;
        let e = icon_entry(bytes, k);
        let es = seq![e];
        assert(es.drop_first() =~= Seq::<IconEntryView>::empty());
        assert(entry_records(es.drop_first(), 22 + e.5.len() as int) =~= Seq::<u8>::empty());
        assert(es.drop_last() =~= Seq::<IconEntryView>::empty());
        assert(entries_data(es.drop_last()) =~= Seq::<u8>::empty());
        assert(entries_data(es) =~= e.5);
        let rec = entry_record(e, 22);
        assert(entry_records(es, 22) =~= rec);
        assert(b =~= u16_le(0) + u16_le(1) + u16_le(1) + rec + e.5);
        assert(b.take(6) =~= seq![0u8, 0u8, 1u8, 0u8, 1u8, 0u8]);
        assert(b.subrange(18, 22) =~= u32_le(22));
        assert(u32_le(22) =~= seq![22u8, 0u8, 0u8, 0u8]);
        assert(b.skip(22) =~= e.5);
    }
}

/// `png`, `PNG` and `apng` all name the PNG format.
pub proof fn lemma_png_extensions()
    ensures
        image_kind_of_extension("png"@) == Some(ImageKind::Png),
        image_kind_of_extension("PNG"@) == Some(ImageKind::Png),
        image_kind_of_extension("apng"@) == Some(ImageKind::Png),
{
    reveal_strlit("png");
    reveal_strlit("PNG");
    reveal_strlit("apng");
    reveal_strlit("avif");
    reveal_strlit("jpg");
    reveal_strlit("jpeg");
    reveal_strlit("jfif");
    assert(ascii_lowercase_spec("png"@) =~= "png"@);
    assert(ascii_lowercase_spec("PNG"@) =~= "png"@);
    assert(ascii_lowercase_spec("apng"@) =~= "apng"@);
    assert("png"@ != "avif"@ && "png"@ != "jpeg"@ && "png"@ != "jfif"@);
    assert("png"@[0] != "jpg"@[0]);
    assert("apng"@[1] != "avif"@[1] && "apng"@[0] != "jpeg"@[0] && "apng"@[0] != "jfif"@[0]);
    assert("apng"@ != "jpg"@);
}

/// The number of bytes an ICO file with these entries takes: the header, one
/// record per entry and the entries' data, where that is at most `u32::MAX`.
fn icon_file_len(dir: &ico::IconDir) -> (r: Option<u64>)
    ensures
        match r {
            Some(n) => n == 6 + 16 * icon_dir_entries(*dir).len() + entries_data(
                icon_dir_entries(*dir),
            ).len() && n <= u32::MAX,
            None => 6 + 16 * icon_dir_entries(*dir).len() + entries_data(
                icon_dir_entries(*dir),
            ).len() > u32::MAX,
        },
{
    let ghost es = icon_dir_entries(*dir);
    let count = crate::ico_file::icon_dir_len(dir);
    if count > 0x0FFF_FFFF {
        return None;
    }
    let mut total: u64 = 6 + 16 * (count as u64);
    let mut i: usize = 0;
    while i < count
        invariant
            count == es.len() <= 0x0FFF_FFFF,
            es == icon_dir_entries(*dir),
            i <= count,
            total == 6 + 16 * es.len() + entries_data(es.take(i as int)).len(),
            total <= u32::MAX,
        decreases count - i,
    {
        let data = icon_dir_entry_data(dir, i);
        assert(es.take(i + 1).drop_last() =~= es.take(i as int));
        if data.len() as u64 > 0xFFFF_FFFF - total {
            proof {
                lemma_entries_data_len_grows(es, i + 1);
            }
            return None;
        }
        total = total + data.len() as u64;
        i = i + 1;
    }
    assert(es.take(count as int) =~= es);
    Some(total)
}

/// The data of more entries is no shorter.
proof fn lemma_entries_data_len_grows(es: Seq<IconEntryView>, k: int)
    requires
        0 <= k <= es.len(),
    ensures
        entries_data(es.take(k)).len() <= entries_data(es).len(),
    decreases es.len() - k,
{
    if k < es.len() {
        lemma_entries_data_len_grows(es, k + 1);
        assert(es.take(k + 1).drop_last() =~= es.take(k));
    } else {
        assert(es.take(k) =~= es);
    }
}

/// The bytes of an ICO file that holds the image `image_bytes` (in the format that
/// the file extension `format_hint` names) resized to 128 by 128. It fails where the
/// extension names no format, where the image does not decode, or where the file
/// would be larger than `u32::MAX` bytes; otherwise the file is one icon entry, 128
/// by 128, of the resized image.
pub fn icon_file_bytes(image_bytes: &[u8], format_hint: Option<&str>) -> (r: Result<
    Vec<u8>,
    IconError,
>)
    ensures
        result_is_outcome(r, icon_file_outcome(image_bytes@, hint_kind(opt_view(format_hint)))),
{
    let ext = match format_hint {
        Some(e) => e,
        None => return Err(IconError::UnknownFormat),
    };
    if !is_image_extension(ext) {
        return Err(IconError::UnknownFormat);
    }
    let ghost kind = image_kind_of_extension(ext@)->0;
    assert(4 * ICON_SIZE * ICON_SIZE == 65536);
    let rgba = match decode_and_resize(image_bytes, ext, ICON_SIZE) {
        Ok(rgba) => rgba,
        Err(e) => return Err(IconError::Decode(e)),
    };
    let mut dir = new_icon_dir();
    match icon_dir_add_rgba(&mut dir, ICON_SIZE, ICON_SIZE, rgba) {
        Ok(()) => {},
        Err(e) => return Err(IconError::Encode(e)),
    }
    let ghost es = icon_dir_entries(dir);
    assert(es =~= seq![icon_entry(image_bytes@, kind)]);
    assert(es.drop_last() =~= Seq::<IconEntryView>::empty());
    assert(entries_data(es.drop_last()) =~= Seq::<u8>::empty());
    assert(entries_data(es) =~= icon_entry(image_bytes@, kind).5);
    if icon_file_len(&dir).is_none() {
        return Err(IconError::TooLarge);
    }
    match icon_dir_to_bytes(&dir) {
        Ok(bytes) => Ok(bytes),
        Err(e) => Err(IconError::Write(e)),
    }
}

} // verus!

use vstd::prelude::*;

verus! {

/// An ICO/CUR directory of the `ico` crate, carried through opaquely.
#[verifier::external_type_specification]
#[verifier::external_body]
pub struct ExIconDir(ico::IconDir);

/// An I/O error of the standard library, carried through opaquely.
#[verifier::external_type_specification]
#[verifier::external_body]
pub struct ExIoError(std::io::Error);

/// One entry of an icon directory: width, height, number of palette colors, color
/// planes, bits per pixel, and the encoded image data.
pub type IconEntryView = (u32, u32, u8, u16, u16, Seq<u8>);

/// The entries of an icon directory.
pub uninterp spec fn icon_dir_entries(dir: ico::IconDir) -> Seq<IconEntryView>;

/// The resource type number of an icon directory: 1 for icons, 2 for cursors.
pub uninterp spec fn icon_dir_resource_number(dir: ico::IconDir) -> u16;

/// The entries that `IconDir::read` finds in the bytes of an ICO/CUR file.
pub uninterp spec fn read_icon_entries(bytes: Seq<u8>) -> Seq<IconEntryView>;

/// Whether `IconDir::read` accepts the bytes of an ICO/CUR file.
pub uninterp spec fn icon_file_readable(bytes: Seq<u8>) -> bool;

/// The number of palette colors, color planes, bits per pixel and encoded data of
/// the entry that `IconDirEntry::encode` makes of the `width` by `height` image
/// with the RGBA bytes `rgba`.
pub uninterp spec fn ico_encoded_entry(width: u32, height: u32, rgba: Seq<u8>) -> (
    u8,
    u16,
    u16,
    Seq<u8>,
);

/// The entry that encoding the image `width` by `height` with the bytes `rgba`
/// gives.
pub open spec fn encoded_entry_view(width: u32, height: u32, rgba: Seq<u8>) -> IconEntryView {
    let e = ico_encoded_entry(width, height, rgba);
    (width, height, e.0, e.1, e.2, e.3)
}

/// The data of the entries, one after another.
pub open spec fn entries_data(es: Seq<IconEntryView>) -> Seq<u8>
    decreases es.len(),
{
    if es.len() == 0 {
        Seq::empty()
    } else {
        entries_data(es.drop_last()) + es.last().5
    }
}

/// A 16-bit number, little endian.
pub open spec fn u16_le(x: int) -> Seq<u8> {
    seq![(x % 256) as u8, (x / 256 % 256) as u8]
}

/// A 32-bit number, little endian.
pub open spec fn u32_le(x: int) -> Seq<u8> {
    seq![
        (x % 256) as u8,
        (x / 0x100 % 256) as u8,
        (x / 0x10000 % 256) as u8,
        (x / 0x1000000 % 256) as u8,
    ]
}

/// The byte that gives a width or height in a directory record: 0 for 256 or more.
pub open spec fn size_byte(x: u32) -> u8 {
    if x > 255 {
        0
    } else {
        x as u8
    }
}

/// The 16-byte directory record of an entry whose data starts at `offset`.
pub open spec fn entry_record(e: IconEntryView, offset: int) -> Seq<u8> {
    seq![size_byte(e.0), size_byte(e.1), e.2, 0u8] + u16_le(e.3 as int) + u16_le(e.4 as int)
        + u32_le(e.5.len() as int) + u32_le(offset)
}

/// The directory records of the entries, the first one's data at `offset`.
pub open spec fn entry_records(es: Seq<IconEntryView>, offset: int) -> Seq<u8>
    decreases es.len(),
{
    if es.len() == 0 {
        Seq::empty()
    } else {
        entry_record(es[0], offset) + entry_records(es.drop_first(), offset + es[0].5.len())
    }
}

/// An ICO/CUR file: a reserved zero, the resource type and the entry count, then
/// one record per entry, then the entries' data.
pub open spec fn ico_file_spec(resource: u16, es: Seq<IconEntryView>) -> Seq<u8> {
    u16_le(0) + u16_le(resource as int) + u16_le(es.len() as int) + entry_records(
        es,
        6 + 16 * es.len() as int,
    ) + entries_data(es)
}

/// `IconDir::new(ResourceType::Icon)`: an empty directory of icons.
#[verifier::external_body]
pub(crate) fn new_icon_dir() -> (dir: ico::IconDir)
    ensures
        icon_dir_entries(dir) == Seq::<IconEntryView>::empty(),
        icon_dir_resource_number(dir) == 1,
{
    ico::IconDir::new(ico::ResourceType::Icon)
}

/// Encodes a `width` by `height` image given by its RGBA bytes and adds it to the
/// directory: `IconImage::from_rgba_data`, then `IconDirEntry::encode`, then
/// `IconDir::add_entry`. The image and the entry exist only inside this call.
/// `from_rgba_data` panics unless both sizes are at least 1 and `rgba` holds four
/// bytes per pixel; `encode` multiplies width by height in a `u32`; `add_entry`
/// panics unless the entry's resource type is the directory's, and an image made
/// from RGBA data has no cursor hotspot, so it encodes as an icon. `requires` rules
/// all these out. Encoding into memory then cannot fail: `encode` writes BMP or
/// PNG data into a `Vec`, and the PNG encoder rejects only zero sizes and invalid
/// color and depth combinations, which an 8-bit RGB or RGBA image never is. What
/// the entry holds is a function of the image, named here; the entry's width and
/// height are the image's.
#[verifier::external_body]
pub(crate) fn icon_dir_add_rgba(dir: &mut ico::IconDir, width: u32, height: u32, rgba: Vec<u8>) -> (r:
    Result<(), std::io::Error>)
    requires
        icon_dir_resource_number(*old(dir)) == 1,
        width >= 1,
        height >= 1,
        width * height <= u32::MAX,
        rgba@.len() == 4 * width * height,
    ensures
        icon_dir_resource_number(*final(dir)) == 1,
        r is Ok,
        icon_dir_entries(*final(dir)) == icon_dir_entries(*old(dir)).push(
            (
                width,
                height,
                ico_encoded_entry(width, height, rgba@).0,
                ico_encoded_entry(width, height, rgba@).1,
                ico_encoded_entry(width, height, rgba@).2,
                ico_encoded_entry(width, height, rgba@).3,
            ),
        ),
{
    let image = ico::IconImage::from_rgba_data(width, height, rgba);
    let entry = ico::IconDirEntry::encode(&image)?;
    dir.add_entry(entry);
    Ok(())
}

/// `IconDir::write` into a byte vector. Writing to memory fails only where the
/// directory has more than 65535 entries. The data offsets are summed in a `u32`,
/// which overflows (a panic where overflow checks are on) unless the whole file
/// fits in `u32::MAX` bytes; `requires` leaves such directories out. The bytes are
/// the 6-byte header, one 16-byte record per entry, then the entries' data.
#[verifier::external_body]
pub(crate) fn icon_dir_to_bytes(dir: &ico::IconDir) -> (r: Result<Vec<u8>, std::io::Error>)
    requires
        6 + 16 * icon_dir_entries(*dir).len() + entries_data(icon_dir_entries(*dir)).len()
            <= u32::MAX,
    ensures
        r is Ok <==> icon_dir_entries(*dir).len() <= 0xFFFF,
        r matches Ok(bytes) ==> bytes@ == ico_file_spec(
            icon_dir_resource_number(*dir),
            icon_dir_entries(*dir),
        ),
{
    let mut bytes: Vec<u8> = Vec::new();
    dir.write(&mut bytes).map(|_| bytes)
}

/// `IconDir::read` on the bytes of an ICO/CUR file. Whether it succeeds and which
/// entries it finds are functions of the bytes, named here.
#[verifier::external_body]
pub(crate) fn read_icon_dir(bytes: &[u8]) -> (r: Result<ico::IconDir, std::io::Error>)
    ensures
        r is Ok <==> icon_file_readable(bytes@),
        r matches Ok(dir) ==> icon_dir_entries(dir) == read_icon_entries(bytes@),
{
    ico::IconDir::read(std::io::Cursor::new(bytes))
}

/// The number of entries (`IconDir::entries().len()`).
#[verifier::external_body]
pub(crate) fn icon_dir_len(dir: &ico::IconDir) -> (n: usize)
    ensures
        n == icon_dir_entries(*dir).len(),
{
    dir.entries().len()
}

/// The width of each entry (`IconDirEntry::width` over `IconDir::entries`).
#[verifier::external_body]
pub(crate) fn icon_dir_widths(dir: &ico::IconDir) -> (r: Vec<u32>)
    ensures
        r@.len() == icon_dir_entries(*dir).len(),
        forall|i: int| 0 <= i < r@.len() ==> r@[i] == icon_dir_entries(*dir)[i].0,
{
    dir.entries().iter().map(|e| e.width()).collect()
}

/// The encoded data of entry `i` (`IconDirEntry::data` of `IconDir::entries()[i]`).
#[verifier::external_body]
pub(crate) fn icon_dir_entry_data(dir: &ico::IconDir, i: usize) -> (r: Vec<u8>)
    requires
        i < icon_dir_entries(*dir).len(),
    ensures
        r@ == icon_dir_entries(*dir)[i as int].5,
{
    dir.entries()[i].data().to_vec()
}

} // verus!

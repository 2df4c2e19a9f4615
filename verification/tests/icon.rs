use icobgone::exe::{exe_icon_data, icon_data_from_dir, select_icon_entry, ExeIconError};
use icobgone::icon::{icon_file_bytes, IconError, ICON_SIZE};

fn sample_image(w: u32, h: u32) -> image::DynamicImage {
    let mut img = image::RgbaImage::new(w, h);
    for (x, y, p) in img.enumerate_pixels_mut() {
        *p = image::Rgba([(x * 7) as u8, (y * 3) as u8, ((x + y) * 5) as u8, 200]);
    }
    image::DynamicImage::ImageRgba8(img)
}

fn png_bytes(img: &image::DynamicImage) -> Vec<u8> {
    let mut out = std::io::Cursor::new(Vec::new());
    img.write_to(&mut out, image::ImageFormat::Png).unwrap();
    out.into_inner()
}

/// The ICO file that the `image` and `ico` crates make directly.
fn expected_ico(bytes: &[u8], format: image::ImageFormat) -> Vec<u8> {
    let img = image::load_from_memory_with_format(bytes, format).unwrap();
    let rgba = image::imageops::resize(&img, 128, 128, image::imageops::FilterType::Lanczos3).into_raw();
    let mut dir = ico::IconDir::new(ico::ResourceType::Icon);
    dir.add_entry(ico::IconDirEntry::encode(&ico::IconImage::from_rgba_data(128, 128, rgba)).unwrap());
    let mut out = Vec::new();
    dir.write(&mut out).unwrap();
    out
}

fn ok_bytes(r: Result<Vec<u8>, IconError>) -> Vec<u8> {
    match r {
        Ok(b) => b,
        Err(e) => panic!("{:?}", e),
    }
}

#[test]
fn icon_file_holds_one_128_pixel_icon() {
    let png = png_bytes(&sample_image(33, 20));
    let bytes = ok_bytes(icon_file_bytes(&png, Some("png")));
    assert_eq!(&bytes[..6], &[0, 0, 1, 0, 1, 0]);
    assert_eq!(&bytes[6..8], &[128, 128]);
    assert_eq!(&bytes[18..22], &[22, 0, 0, 0]);
    let dir = ico::IconDir::read(std::io::Cursor::new(&bytes)).unwrap();
    assert_eq!(dir.entries().len(), 1);
    assert_eq!(dir.entries()[0].width(), ICON_SIZE);
    assert_eq!(dir.entries()[0].height(), 128);
    assert_eq!(bytes.len(), 22 + dir.entries()[0].data().len());
    assert_eq!(bytes, expected_ico(&png, image::ImageFormat::Png));
}

#[test]
fn icon_file_of_an_image_already_128_keeps_the_pixels() {
    let img = sample_image(128, 128);
    let bytes = ok_bytes(icon_file_bytes(&png_bytes(&img), Some("PNG")));
    let dir = ico::IconDir::read(std::io::Cursor::new(&bytes)).unwrap();
    let decoded = dir.entries()[0].decode().unwrap();
    assert_eq!(decoded.rgba_data(), img.to_rgba8().as_raw().as_slice());
}

#[test]
fn icon_file_from_other_formats() {
    let img = sample_image(40, 70);
    let mut bmp = std::io::Cursor::new(Vec::new());
    img.write_to(&mut bmp, image::ImageFormat::Bmp).unwrap();
    let bmp = bmp.into_inner();
    assert_eq!(ok_bytes(icon_file_bytes(&bmp, Some("bmp"))), expected_ico(&bmp, image::ImageFormat::Bmp));
}

#[test]
fn same_image_gives_same_icon() {
    let png = png_bytes(&sample_image(50, 50));
    assert_eq!(ok_bytes(icon_file_bytes(&png, Some("png"))), ok_bytes(icon_file_bytes(&png, Some("png"))));
}

#[test]
fn icon_file_errors() {
    let png = png_bytes(&sample_image(10, 10));
    assert!(matches!(icon_file_bytes(&png, None), Err(IconError::UnknownFormat)));
    assert!(matches!(icon_file_bytes(&png, Some("")), Err(IconError::UnknownFormat)));
    assert!(matches!(icon_file_bytes(&png, Some("txt")), Err(IconError::UnknownFormat)));
    assert!(matches!(icon_file_bytes(&[1, 2, 3], Some("png")), Err(IconError::Decode(_))));
    assert!(matches!(icon_file_bytes(&png, Some("jpg")), Err(IconError::Decode(_))));
}

#[test]
fn selection_prefers_the_first_256_entry() {
    assert_eq!(select_icon_entry(&vec![16, 256, 48, 256]), Some(1));
}

#[test]
fn selection_falls_back_to_the_last_widest() {
    assert_eq!(select_icon_entry(&vec![16, 48, 32, 48, 8]), Some(3));
    assert_eq!(select_icon_entry(&vec![64]), Some(0));
    assert_eq!(select_icon_entry(&vec![]), None);
}

fn ico_with_sizes(sizes: &[u32]) -> Vec<u8> {
    let mut dir = ico::IconDir::new(ico::ResourceType::Icon);
    for &s in sizes {
        let img = ico::IconImage::from_rgba_data(s, s, vec![s as u8; (4 * s * s) as usize]);
        dir.add_entry(ico::IconDirEntry::encode(&img).unwrap());
    }
    let mut bytes = Vec::new();
    dir.write(&mut bytes).unwrap();
    bytes
}

#[test]
fn exe_icon_data_takes_the_selected_entry() {
    let bytes = ico_with_sizes(&[16, 48, 32]);
    let dir = ico::IconDir::read(std::io::Cursor::new(&bytes)).unwrap();
    let data = exe_icon_data(&bytes).ok().unwrap();
    assert_eq!(data, dir.entries()[1].data());
    let from_dir = icon_data_from_dir(&dir).ok().unwrap();
    assert_eq!(from_dir, dir.entries()[1].data());
}

#[test]
fn exe_icon_data_prefers_256() {
    let bytes = ico_with_sizes(&[48, 256, 64]);
    let dir = ico::IconDir::read(std::io::Cursor::new(&bytes)).unwrap();
    assert_eq!(exe_icon_data(&bytes).ok().unwrap(), dir.entries()[1].data());
}

#[test]
fn exe_icon_data_of_an_empty_icon_file() {
    let bytes = ico_with_sizes(&[]);
    match exe_icon_data(&bytes) {
        Err(e @ ExeIconError::NoSuitableEntry) => {
            assert_eq!(e.message(), "No suitable icon entry found in .ico file")
        }
        other => panic!("unexpected {:?}", other),
    }
}

#[test]
fn exe_icon_data_of_garbage() {
    match exe_icon_data(&[1, 2, 3]) {
        Err(e @ ExeIconError::Read(_)) => assert_eq!(e.message(), "Failed to read icon directory"),
        other => panic!("unexpected {:?}", other),
    }
}

#[test]
fn extension_spellings_of_one_format_give_the_same_icon() {
    let png = png_bytes(&sample_image(60, 30));
    let a = ok_bytes(icon_file_bytes(&png, Some("png")));
    assert_eq!(ok_bytes(icon_file_bytes(&png, Some("PNG"))), a);
    assert_eq!(ok_bytes(icon_file_bytes(&png, Some("apng"))), a);
    assert_eq!(ok_bytes(icon_file_bytes(&png, Some("ApNg"))), a);
}

#[test]
fn icon_file_from_tiff() {
    let img = sample_image(20, 20);
    let mut tiff = std::io::Cursor::new(Vec::new());
    img.write_to(&mut tiff, image::ImageFormat::Tiff).unwrap();
    let tiff = tiff.into_inner();
    assert_eq!(ok_bytes(icon_file_bytes(&tiff, Some("tif"))), expected_ico(&tiff, image::ImageFormat::Tiff));
}

use aria::icon::{load_icon, pack_pixel, pack_pixels};

#[test]
fn pixel_is_abgr() {
    assert_eq!(pack_pixel(0x10, 0x20, 0x30, 0xFF), 0xFF30_2010);
    assert_eq!(pack_pixel(0, 0, 0, 0), 0);
}

#[test]
fn pixels_pack_in_fours() {
    let v = vec![1, 2, 3, 4, 5, 6, 7, 8, 9];
    assert_eq!(pack_pixels(&v), vec![0x0403_0201, 0x0807_0605]);
}

fn le16(v: &mut Vec<u8>, x: u16) {
    v.extend_from_slice(&x.to_le_bytes());
}

fn le32(v: &mut Vec<u8>, x: u32) {
    v.extend_from_slice(&x.to_le_bytes());
}

/// A 1x1 32-bit ICO whose pixel is red 0x10, green 0x20, blue 0x30, alpha 0xFF.
fn one_pixel_ico() -> Vec<u8> {
    let mut v = Vec::new();
    le16(&mut v, 0);
    le16(&mut v, 1);
    le16(&mut v, 1);
    v.push(1);
    v.push(1);
    v.push(0);
    v.push(0);
    le16(&mut v, 1);
    le16(&mut v, 32);
    le32(&mut v, 48);
    le32(&mut v, 22);
    le32(&mut v, 40);
    le32(&mut v, 1);
    le32(&mut v, 2);
    le16(&mut v, 1);
    le16(&mut v, 32);
    for _ in 0..6 {
        le32(&mut v, 0);
    }
    v.extend_from_slice(&[0x30, 0x20, 0x10, 0xFF]);
    le32(&mut v, 0);
    v
}

#[test]
fn icon_decodes_and_packs() {
    let img = load_icon(&one_pixel_ico()).expect("icon decodes");
    assert_eq!((img.width, img.height), (1, 1));
    assert_eq!(img.pixels, vec![0xFF30_2010]);
}

#[test]
fn garbage_is_no_icon() {
    assert!(load_icon(&[1, 2, 3]).is_none());
}

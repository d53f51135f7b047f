use qingjian::trak::{table, u16_at, u32_at, Trak};

fn be16(out: &mut Vec<u8>, v: u16) {
    out.extend_from_slice(&v.to_be_bytes());
}

fn be32(out: &mut Vec<u8>, v: u32) {
    out.extend_from_slice(&v.to_be_bytes());
}

/// An sfnt face with a `head` table (units per em 2048) and a `trak` table whose
/// horizontal data has a loose track and the normal track over 11, 12 and 16 pt.
fn face() -> Vec<u8> {
    let mut head = vec![0u8; 54];
    head[18..20].copy_from_slice(&2048u16.to_be_bytes());

    let mut trak = Vec::new();
    be32(&mut trak, 0x0001_0000); // version
    be16(&mut trak, 0); // format
    be16(&mut trak, 12); // horizontal data offset
    be16(&mut trak, 0); // vertical data offset
    be16(&mut trak, 0); // reserved
    // horizontal data at 12
    be16(&mut trak, 2); // tracks
    be16(&mut trak, 3); // sizes
    be32(&mut trak, 36); // size table offset, from the trak table start
    // track entries at 20: loose (+1.0) then normal (0)
    be32(&mut trak, 0x0001_0000);
    be16(&mut trak, 256);
    be16(&mut trak, 48); // loose values
    be32(&mut trak, 0);
    be16(&mut trak, 257);
    be16(&mut trak, 54); // normal values
    // size table at 36
    be32(&mut trak, 11 << 16);
    be32(&mut trak, 12 << 16);
    be32(&mut trak, 16 << 16);
    // loose values at 48, normal values at 54
    for v in [50i16, 40, 30, 12, 0, -40] {
        be16(&mut trak, v as u16);
    }

    let mut data = Vec::new();
    be32(&mut data, 0x0001_0000);
    be16(&mut data, 2); // tables
    be16(&mut data, 0);
    be16(&mut data, 0);
    be16(&mut data, 0);
    let head_at = 12 + 2 * 16;
    let trak_at = head_at + head.len();
    data.extend_from_slice(b"head");
    be32(&mut data, 0);
    be32(&mut data, head_at as u32);
    be32(&mut data, head.len() as u32);
    data.extend_from_slice(b"trak");
    be32(&mut data, 0);
    be32(&mut data, trak_at as u32);
    be32(&mut data, trak.len() as u32);
    data.extend_from_slice(&head);
    data.extend_from_slice(&trak);
    data
}

#[test]
fn reads_the_normal_track() {
    let trak = Trak::parse(&face(), 0).unwrap();
    assert_eq!(trak.units_per_em, 2048);
    assert_eq!(trak.sizes, vec![11 << 16, 12 << 16, 16 << 16]);
    assert_eq!(trak.values, vec![12, 0, -40]);
}

#[test]
fn missing_trak_table_gives_none() {
    let mut data = face();
    // rename the trak table
    data[28..32].copy_from_slice(b"kern");
    assert_eq!(Trak::parse(&data, 0), None);
}

#[test]
fn missing_normal_track_gives_none() {
    let mut data = face();
    // the normal track's value becomes 2.0
    let trak_at = 12 + 2 * 16 + 54;
    data[trak_at + 28..trak_at + 32].copy_from_slice(&0x0002_0000u32.to_be_bytes());
    assert_eq!(Trak::parse(&data, 0), None);
}

#[test]
fn truncated_face_gives_none() {
    let data = face();
    assert_eq!(Trak::parse(&data[..data.len() - 1], 0), None);
    assert_eq!(Trak::parse(&[], 0), None);
}

#[test]
fn collection_picks_the_face_directory() {
    let single = face();
    let mut ttc = Vec::new();
    ttc.extend_from_slice(b"ttcf");
    be32(&mut ttc, 0x0001_0000);
    be32(&mut ttc, 1); // faces
    be32(&mut ttc, 16); // face 0's directory
    // the face follows at 16; its table offsets are relative to the file start
    let shift = 16u32;
    let mut shifted = single.clone();
    for entry in 0..2 {
        let at = 12 + entry * 16 + 8;
        let offset = u32::from_be_bytes(shifted[at..at + 4].try_into().unwrap()) + shift;
        shifted[at..at + 4].copy_from_slice(&offset.to_be_bytes());
    }
    ttc.extend_from_slice(&shifted);
    let trak = Trak::parse(&ttc, 0).unwrap();
    assert_eq!(trak.values, vec![12, 0, -40]);
    // face 1 has no directory entry
    assert_eq!(Trak::parse(&ttc, 1), None);
}

#[test]
fn readers_are_big_endian_and_bounded() {
    let data = [0x12, 0x34, 0x56, 0x78, 0x9a];
    assert_eq!(u16_at(&data, 0), Some(0x1234));
    assert_eq!(u16_at(&data, 3), Some(0x789a));
    assert_eq!(u16_at(&data, 4), None);
    assert_eq!(u32_at(&data, 1), Some(0x3456_789a));
    assert_eq!(u32_at(&data, 2), None);
    let face = face();
    assert_eq!(table(&face, 0, b"head").map(|t| t.len()), Some(54));
    assert_eq!(table(&face, 0, b"glyf"), None);
}

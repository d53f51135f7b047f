//! The AAT `trak` table: Apple's system fonts add or remove a little spacing per glyph
//! depending on the point size, and CoreText applies it. Only the horizontal data and
//! the normal track (track value 0) are read. Sizes stay in their 16.16 fixed-point
//! form; turning them into points is the caller's business.

use vstd::prelude::*;

verus! {

/// Big-endian `u16` at `off`, if two bytes are there.
pub open spec fn be_u16(d: Seq<u8>, off: int) -> Option<u16> {
    if 0 <= off && off + 2 <= d.len() {
        Some((d[off] as int * 256 + d[off + 1] as int) as u16)
    } else {
        None
    }
}

/// Big-endian `u32` at `off`, if four bytes are there.
pub open spec fn be_u32(d: Seq<u8>, off: int) -> Option<u32> {
    if 0 <= off && off + 4 <= d.len() {
        Some(
            (d[off] as int * 0x1000000 + d[off + 1] as int * 0x10000 + d[off + 2] as int * 0x100
                + d[off + 3] as int) as u32,
        )
    } else {
        None
    }
}

/// The table a directory entry at `entry` points to, when its tag is `tag` and its
/// offset and length stay inside the data.
pub open spec fn entry_table(d: Seq<u8>, entry: int, tag: Seq<u8>) -> Option<Seq<u8>> {
    if entry + 4 <= d.len() && d.subrange(entry, entry + 4) == tag {
        match (be_u32(d, entry + 8), be_u32(d, entry + 12)) {
            (Some(offset), Some(length)) => if offset as int + length as int <= d.len() {
                Some(d.subrange(offset as int, offset as int + length as int))
            } else {
                None
            },
            _ => None,
        }
    } else {
        None
    }
}

/// The first usable entry tagged `tag` among entries `i..count` of the directory at `dir`.
pub open spec fn find_table(d: Seq<u8>, dir: int, count: int, tag: Seq<u8>, i: int) -> Option<Seq<u8>>
    decreases count - i,
{
    if i >= count {
        None
    } else {
        match entry_table(d, dir + 12 + 16 * i, tag) {
            Some(t) => Some(t),
            None => find_table(d, dir, count, tag, i + 1),
        }
    }
}

/// The bytes that open a TrueType collection.
pub open spec fn ttc_tag() -> Seq<u8> {
    seq![0x74u8, 0x74u8, 0x63u8, 0x66u8]
}

/// An sfnt table by tag; a collection first picks the directory of face `face_index`.
pub open spec fn sfnt_table(d: Seq<u8>, face_index: int, tag: Seq<u8>) -> Option<Seq<u8>> {
    if d.len() < 4 {
        None
    } else {
        let dir = if d.subrange(0, 4) == ttc_tag() {
            be_u32(d, 12 + 4 * face_index)
        } else {
            Some(0u32)
        };
        match dir {
            None => None,
            Some(dir) => match be_u16(d, dir + 4) {
                None => None,
                Some(count) => find_table(d, dir as int, count as int, tag, 0),
            },
        }
    }
}

/// The first track entry, among `i..n_tracks`, whose track value is 0 (the normal track).
pub open spec fn find_normal(h: Seq<u8>, n_tracks: int, i: int) -> Option<int>
    decreases n_tracks - i,
{
    if i >= n_tracks {
        None
    } else if be_u32(h, 8 + 8 * i) == Some(0u32) {
        Some(8 + 8 * i)
    } else {
        find_normal(h, n_tracks, i + 1)
    }
}

pub open spec fn head_tag() -> Seq<u8> {
    seq![0x68u8, 0x65u8, 0x61u8, 0x64u8]
}

pub open spec fn trak_tag() -> Seq<u8> {
    seq![0x74u8, 0x72u8, 0x61u8, 0x6bu8]
}

/// One font's horizontal tracking curve.
#[derive(Debug, Clone, PartialEq, Eq)]
pub struct Trak {
    /// Sample point sizes, 16.16 fixed point, ascending in a well-made table.
    pub sizes: Vec<i32>,
    /// Tracking at each sample size, in font units, matching `sizes` one for one.
    pub values: Vec<i16>,
    /// Font units per em.
    pub units_per_em: u16,
}

/// What a face's `head` and `trak` tables say: the sample sizes, the normal track's
/// values and the units per em; `None` where a table, the horizontal data or the
/// normal track is missing, or any read falls outside its table.
pub open spec fn trak_spec(d: Seq<u8>, face_index: int) -> Option<(Seq<i32>, Seq<i16>, u16)> {
    match sfnt_table(d, face_index, head_tag()) {
        None => None,
        Some(head) => match be_u16(head, 18) {
            None => None,
            Some(upem) => match sfnt_table(d, face_index, trak_tag()) {
                None => None,
                Some(trak) => match be_u16(trak, 6) {
                    None => None,
                    Some(horiz) => if horiz as int > trak.len() {
                        None
                    } else {
                        let h = trak.subrange(horiz as int, trak.len() as int);
                        match (be_u16(h, 0), be_u16(h, 2), be_u32(h, 4)) {
                            (Some(n_tracks), Some(n_sizes), Some(sto)) => {
                                if n_sizes > 0 && sto as int + 4 * n_sizes > trak.len() {
                                    None
                                } else {
                                    match find_normal(h, n_tracks as int, 0) {
                                        None => None,
                                        Some(entry) => match be_u16(h, entry + 6) {
                                            None => None,
                                            Some(vo) => if n_sizes > 0 && vo as int + 2 * n_sizes
                                                > trak.len() {
                                                None
                                            } else {
                                                Some(
                                                    (
                                                        Seq::new(
                                                            n_sizes as nat,
                                                            |i: int|
                                                                (be_u32(trak, sto + 4 * i)->0) as i32,
                                                        ),
                                                        Seq::new(
                                                            n_sizes as nat,
                                                            |i: int|
                                                                (be_u16(trak, vo + 2 * i)->0) as i16,
                                                        ),
                                                        upem,
                                                    ),
                                                )
                                            },
                                        },
                                    }
                                }
                            },
                            _ => None,
                        }
                    },
                },
            },
        },
    }
}

impl Trak {
    /// Reads the horizontal normal-track curve from one sfnt face; `None` when there is
    /// no `trak` table, no normal track, or the table is malformed.
    pub fn parse(face_data: &[u8], face_index: u32) -> (r: Option<Self>)
        ensures
            match r {
                Some(t) => trak_spec(face_data@, face_index as int) == Some(
                    (t.sizes@, t.values@, t.units_per_em),
                ),
                None => trak_spec(face_data@, face_index as int) is None,
            },
    {
        let head_tag_bytes: [u8; 4] = [0x68, 0x65, 0x61, 0x64];
        let trak_tag_bytes: [u8; 4] = [0x74, 0x72, 0x61, 0x6b];
        proof {
            assert(head_tag_bytes@ =~= head_tag());
            assert(trak_tag_bytes@ =~= trak_tag());
        }
        let head = table(face_data, face_index, &head_tag_bytes)?;
        let units_per_em = u16_at(head, 18)?;
        let trak = table(face_data, face_index, &trak_tag_bytes)?;
        let horiz_offset = u16_at(trak, 6)? as usize;
        if horiz_offset > trak.len() {
            return None;
        }
        let data = &trak[horiz_offset..trak.len()];
        let ghost h = data@;
        let n_tracks = u16_at(data, 0)? as u64;
        let n_sizes = u16_at(data, 2)? as u64;
        let size_table_offset = u32_at(data, 4)? as u64;
        let mut sizes: Vec<i32> = Vec::new();
        let mut i: u64 = 0;
        while i < n_sizes
            invariant
                i <= n_sizes <= u16::MAX,
                size_table_offset <= u32::MAX,
                sfnt_table(face_data@, face_index as int, head_tag()) == Some(head@),
                be_u16(head@, 18) == Some(units_per_em),
                sfnt_table(face_data@, face_index as int, trak_tag()) == Some(trak@),
                be_u16(trak@, 6) == Some(horiz_offset as u16),
                horiz_offset <= trak@.len(),
                horiz_offset <= u16::MAX,
                n_tracks <= u16::MAX,
                data@ == trak@.subrange(horiz_offset as int, trak@.len() as int),
                be_u16(data@, 0) == Some(n_tracks as u16),
                be_u16(data@, 2) == Some(n_sizes as u16),
                be_u32(data@, 4) == Some(size_table_offset as u32),
                sizes@.len() == i,
                i > 0 ==> size_table_offset + 4 * i <= trak@.len(),
                forall|j: int|
                    0 <= j < i ==> be_u32(trak@, size_table_offset + 4 * j) is Some && #[trigger] sizes@[j]
                        == (be_u32(trak@, size_table_offset + 4 * j)->0) as i32,
            decreases n_sizes - i,
        {
            let offset = size_table_offset + i * 4;
            if offset > trak.len() as u64 {
                return None;
            }
            let value = u32_at(trak, offset as usize)?;
            sizes.push(value as i32);
            i += 1;
        }
        assert(sizes@ =~= Seq::new(
            n_sizes as nat,
            |i: int| (be_u32(trak@, size_table_offset + 4 * i)->0) as i32,
        ));
        let normal = normal_track(data, n_tracks);
        let normal = normal?;
        if normal + 6 > data.len() as u64 {
            return None;
        }
        let values_offset = u16_at(data, (normal + 6) as usize)? as u64;
        let mut values: Vec<i16> = Vec::new();
        let mut i: u64 = 0;
        while i < n_sizes
            invariant
                i <= n_sizes <= u16::MAX,
                values_offset <= u16::MAX,
                n_sizes == 0 || size_table_offset + 4 * n_sizes <= trak@.len(),
                find_normal(data@, n_tracks as int, 0) == Some(normal as int),
                be_u16(data@, normal + 6) == Some(values_offset as u16),
                sizes@ == Seq::new(
                    n_sizes as nat,
                    |i: int| (be_u32(trak@, size_table_offset + 4 * i)->0) as i32,
                ),
                sfnt_table(face_data@, face_index as int, head_tag()) == Some(head@),
                be_u16(head@, 18) == Some(units_per_em),
                sfnt_table(face_data@, face_index as int, trak_tag()) == Some(trak@),
                be_u16(trak@, 6) == Some(horiz_offset as u16),
                horiz_offset <= trak@.len(),
                horiz_offset <= u16::MAX,
                n_tracks <= u16::MAX,
                data@ == trak@.subrange(horiz_offset as int, trak@.len() as int),
                be_u16(data@, 0) == Some(n_tracks as u16),
                be_u16(data@, 2) == Some(n_sizes as u16),
                be_u32(data@, 4) == Some(size_table_offset as u32),
                values@.len() == i,
                i > 0 ==> values_offset + 2 * i <= trak@.len(),
                forall|j: int|
                    0 <= j < i ==> be_u16(trak@, values_offset + 2 * j) is Some && #[trigger] values@[j]
                        == (be_u16(trak@, values_offset + 2 * j)->0) as i16,
            decreases n_sizes - i,
        {
            let offset = values_offset + i * 2;
            if offset > trak.len() as u64 {
                return None;
            }
            let value = u16_at(trak, offset as usize)?;
            values.push(value as i16);
            i += 1;
        }
        proof {
            assert(values@ =~= Seq::new(
                n_sizes as nat,
                |i: int| (be_u16(trak@, values_offset + 2 * i)->0) as i16,
            ));
        }
        Some(Trak { sizes, values, units_per_em })
    }
}

/// Offset, within the horizontal data, of the first track entry whose track value is 0.
fn normal_track(data: &[u8], n_tracks: u64) -> (r: Option<u64>)
    requires
        n_tracks <= u16::MAX,
    ensures
        r matches Some(e) ==> e as int == find_normal(data@, n_tracks as int, 0)->0 && e <= 8 + 8
            * u16::MAX,
        r is Some <==> find_normal(data@, n_tracks as int, 0) is Some,
{
    let mut t: u64 = 0;
    while t < n_tracks
        invariant
            t <= n_tracks <= u16::MAX,
            find_normal(data@, n_tracks as int, 0) == find_normal(data@, n_tracks as int, t as int),
        decreases n_tracks - t,
    {
        let entry = 8 + t * 8;
        let track = if entry <= data.len() as u64 {
            u32_at(data, entry as usize)
        } else {
            None
        };
        if track == Some(0u32) {
            return Some(entry);
        }
        t += 1;
    }
    None
}

/// Big-endian `u16` at `offset`, or `None` past the end.
pub fn u16_at(data: &[u8], offset: usize) -> (r: Option<u16>)
    ensures
        r == be_u16(data@, offset as int),
{
    if offset > data.len() || data.len() - offset < 2 {
        return None;
    }
    Some((data[offset] as u16) * 256 + data[offset + 1] as u16)
}

/// Big-endian `u32` at `offset`, or `None` past the end.
pub fn u32_at(data: &[u8], offset: usize) -> (r: Option<u32>)
    ensures
        r == be_u32(data@, offset as int),
{
    if offset > data.len() || data.len() - offset < 4 {
        return None;
    }
    Some(
        (data[offset] as u32) * 0x1000000 + (data[offset + 1] as u32) * 0x10000 + (data[offset
            + 2] as u32) * 0x100 + data[offset + 3] as u32,
    )
}

/// An sfnt table by tag; in a TrueType collection the directory of face `face_index`.
pub fn table<'a>(data: &'a [u8], face_index: u32, tag: &[u8; 4]) -> (r: Option<&'a [u8]>)
    ensures
        match r {
            Some(t) => sfnt_table(data@, face_index as int, tag@) == Some(t@),
            None => sfnt_table(data@, face_index as int, tag@) is None,
        },
{
    if data.len() < 4 {
        return None;
    }
    let ghost d = data@;
    let is_ttc = data[0] == 0x74 && data[1] == 0x74 && data[2] == 0x63 && data[3] == 0x66;
    proof {
        assert(is_ttc == (d.subrange(0, 4) == ttc_tag())) by {
            if is_ttc {
                assert(d.subrange(0, 4) =~= ttc_tag());
            }
            if d.subrange(0, 4) == ttc_tag() {
                assert(d.subrange(0, 4)[0] == d[0]);
                assert(d.subrange(0, 4)[1] == d[1]);
                assert(d.subrange(0, 4)[2] == d[2]);
                assert(d.subrange(0, 4)[3] == d[3]);
            }
        }
    }
    let directory: u64 = if is_ttc {
        let at = 12 + face_index as u64 * 4;
        if at > data.len() as u64 {
            return None;
        }
        match u32_at(data, at as usize) {
            Some(dir) => dir as u64,
            None => return None,
        }
    } else {
        0
    };
    if directory + 4 > data.len() as u64 {
        return None;
    }
    let count = match u16_at(data, (directory + 4) as usize) {
        Some(count) => count as u64,
        None => return None,
    };
    let mut i: u64 = 0;
    while i < count
        invariant
            i <= count,
            d == data@,
            directory <= u32::MAX,
            count <= u16::MAX,
            sfnt_table(d, face_index as int, tag@) == find_table(
                d,
                directory as int,
                count as int,
                tag@,
                i as int,
            ),
        decreases count - i,
    {
        let entry = directory + 12 + i * 16;
        if entry + 4 <= data.len() as u64 {
            let e = entry as usize;
            if data[e] == tag[0] && data[e + 1] == tag[1] && data[e + 2] == tag[2] && data[e + 3]
                == tag[3] {
                proof {
                    assert(d.subrange(entry as int, entry as int + 4) =~= tag@);
                }
                let offset = if entry + 8 <= data.len() as u64 {
                    u32_at(data, e + 8)
                } else {
                    None
                };
                let length = if entry + 12 <= data.len() as u64 {
                    u32_at(data, e + 12)
                } else {
                    None
                };
                if let (Some(offset), Some(length)) = (offset, length) {
                    if offset as u64 + length as u64 <= data.len() as u64 {
                        let start = offset as usize;
                        let end = (offset as u64 + length as u64) as usize;
                        return Some(&data[start..end]);
                    }
                }
            } else {
                proof {
                    if d.subrange(entry as int, entry as int + 4) == tag@ {
                        assert(d.subrange(entry as int, entry as int + 4)[0] == d[entry as int]);
                        assert(d.subrange(entry as int, entry as int + 4)[1] == d[entry + 1]);
                        assert(d.subrange(entry as int, entry as int + 4)[2] == d[entry + 2]);
                        assert(d.subrange(entry as int, entry as int + 4)[3] == d[entry + 3]);
                    }
                }
            }
        }
        i += 1;
    }
    None
}

} // verus!

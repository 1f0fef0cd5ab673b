use crate::bytes::{copy_range, find_nul, le32, le32_signed, nul_scan, read_le32};
use crate::error::FormatError;
use vstd::prelude::*;

verus! {

// The archive container: a 12-byte header (4-byte tag, little-endian
// directory offset and directory byte length), then a directory of 64-byte
// records, each a 56-byte NUL-padded name followed by a little-endian signed
// offset and size. The reader validates every entry against the file's byte
// extent at open time, so lookups never read out of bounds.

/// One directory mapping: a name and the byte range it addresses.
#[derive(Debug)]
pub struct DirEntry {
    pub name: Vec<u8>,
    pub offset: u32,
    pub size: u32,
}

/// The mathematical form of a directory mapping.
pub struct SpecDirEntry {
    pub name: Seq<u8>,
    pub offset: u32,
    pub size: u32,
}

impl View for DirEntry {
    type V = SpecDirEntry;

    open spec fn view(&self) -> SpecDirEntry {
        SpecDirEntry { name: self.name@, offset: self.offset, size: self.size }
    }
}

/// The directory seen mathematically.
pub open spec fn dir_view(d: Seq<DirEntry>) -> Seq<SpecDirEntry> {
    d.map_values(|e: DirEntry| e@)
}

/// The name stored in the 64-byte record at `off`: the name field truncated
/// at its first NUL, or all 56 bytes when it holds none.
pub open spec fn entry_name(b: Seq<u8>, off: int) -> Seq<u8> {
    b.subrange(off, off + nul_scan(b, off, 0, 56))
}

/// Whether the record at `off` holds a non-negative offset and size that
/// address a range inside the archive's byte extent.
pub open spec fn entry_in_extent(b: Seq<u8>, off: int) -> bool {
    &&& le32(b, off + 56) < 0x8000_0000
    &&& le32(b, off + 60) < 0x8000_0000
    &&& le32(b, off + 56) + le32(b, off + 60) <= b.len()
}

/// The mapping stored in the 64-byte record at `off`.
pub open spec fn parse_entry(b: Seq<u8>, off: int) -> SpecDirEntry {
    SpecDirEntry {
        name: entry_name(b, off),
        offset: le32(b, off + 56) as u32,
        size: le32(b, off + 60) as u32,
    }
}

/// Parses `n` consecutive 64-byte records starting at `off`.
pub open spec fn parse_entries(b: Seq<u8>, off: int, n: int) -> Result<
    Seq<SpecDirEntry>,
    FormatError,
>
    decreases n,
{
    if n <= 0 {
        Ok(Seq::empty())
    } else if !(0 <= off && off + 64 <= b.len()) {
        Err(FormatError::MalformedRecord)
    } else if !entry_in_extent(b, off) {
        Err(FormatError::MalformedRecord)
    } else {
        match parse_entries(b, off + 64, n - 1) {
            Ok(rest) => Ok(seq![parse_entry(b, off)] + rest),
            Err(e) => Err(e),
        }
    }
}

/// The number of directory records an archive's header announces: its
/// directory byte length divided into 64-byte records, none when negative.
pub open spec fn entry_count(b: Seq<u8>) -> int {
    if le32_signed(b, 8) <= 0 {
        0
    } else {
        le32_signed(b, 8) / 64
    }
}

/// Parses a whole archive: the directory its header and records describe,
/// or the error that opening it must surface.
pub open spec fn parse_pak(b: Seq<u8>) -> Result<Seq<SpecDirEntry>, FormatError> {
    if b.len() < 12 {
        Err(FormatError::MalformedRecord)
    } else if !(b[0] == 0x50 && b[1] == 0x41 && b[2] == 0x43 && b[3] == 0x4b) {
        Err(FormatError::BadSignature)
    } else {
        parse_entries(b, le32_signed(b, 4), entry_count(b))
    }
}

/// Last-write-wins lookup: the latest entry bearing `name`.
pub open spec fn dir_lookup(d: Seq<SpecDirEntry>, name: Seq<u8>) -> Option<SpecDirEntry>
    decreases d.len(),
{
    if d.len() == 0 {
        None
    } else if d.last().name == name {
        Some(d.last())
    } else {
        dir_lookup(d.drop_last(), name)
    }
}

/// A found entry is one of the directory's mappings.
pub proof fn lemma_lookup_is_member(d: Seq<SpecDirEntry>, name: Seq<u8>)
    requires
        dir_lookup(d, name) is Some,
    ensures
        exists|i: int|
            0 <= i < d.len() && d[i] == #[trigger] dir_lookup(d, name).unwrap(),
    decreases d.len(),
{
    if d.len() > 0 && d.last().name != name {
        lemma_lookup_is_member(d.drop_last(), name);
        let e = dir_lookup(d.drop_last(), name).unwrap();
        let i = choose|i: int| 0 <= i < d.drop_last().len() && d.drop_last()[i] == e;
        assert(d[i] == e);
    }
}

/// An opened archive: the backing bytes and the directory built from them.
/// Built once at open time and immutable thereafter; because the bytes are
/// owned, lookups need no seek cursor and no serialization.
#[derive(Debug)]
pub struct Pak {
    data: Vec<u8>,
    directory: Vec<DirEntry>,
}

impl Pak {
    /// The backing bytes.
    pub closed spec fn data(&self) -> Seq<u8> {
        self.data@
    }

    /// The name -> (offset, size) directory, in record order.
    pub closed spec fn dir(&self) -> Seq<SpecDirEntry> {
        dir_view(self.directory@)
    }

    /// Every directory entry addresses a range inside the byte extent.
    pub closed spec fn wf(&self) -> bool {
        forall|i: int|
            0 <= i < self.dir().len() ==> #[trigger] self.dir()[i].offset + self.dir()[i].size
                <= self.data().len()
    }

    /// How many mappings the directory holds.
    pub fn num_entries(&self) -> (n: usize)
        ensures
            n == self.dir().len(),
    {
        self.directory.len()
    }

    /// The name, offset and size of the directory mapping at `i`.
    pub fn entry(&self, i: usize) -> (r: (Vec<u8>, u32, u32))
        requires
            i < self.dir().len(),
        ensures
            r.0@ == self.dir()[i as int].name,
            r.1 == self.dir()[i as int].offset,
            r.2 == self.dir()[i as int].size,
    {
        let e = &self.directory[i];
        let mut name: Vec<u8> = Vec::new();
        let mut k: usize = 0;
        let n: usize = e.name.len();
        while k < n
            invariant
                k <= n == e.name@.len(),
                name@ =~= e.name@.take(k as int),
            decreases n - k,
        {
            name.push(e.name[k]);
            k = k + 1;
        }
        proof {
            assert(name@ =~= e.name@);
        }
        (name, e.offset, e.size)
    }

    /// Opens an archive over its bytes: validates the container tag, walks
    /// the announced directory records, and keeps every mapping — duplicate
    /// names deliberately stay, the latest one winning at lookup.
    pub fn open(data: Vec<u8>) -> (r: Result<Pak, FormatError>)
        ensures
            match parse_pak(data@) {
                Ok(d) => {
                    &&& r matches Ok(p)
                    &&& p.data() == data@
                    &&& p.dir() == d
                    &&& p.wf()
                },
                Err(e) => r == Err::<Pak, FormatError>(e),
            },
    {
        let len: usize = data.len();
        if len < 12 {
            return Err(FormatError::MalformedRecord);
        }
        if !(data[0] == 0x50 && data[1] == 0x41 && data[2] == 0x43 && data[3] == 0x4b) {
            return Err(FormatError::BadSignature);
        }
        let dir_off_raw: u32 = read_le32(&data, 4);
        let dir_len_raw: u32 = read_le32(&data, 8);
        let n: usize = if dir_len_raw >= 0x8000_0000 {
            0
        } else {
            (dir_len_raw / 64) as usize
        };
        proof {
            assert(n == entry_count(data@));
        }
        // A negative directory offset can only fail the per-record extent
        // check below, so carry the raw word widened to 64 bits.
        let neg_off: bool = dir_off_raw >= 0x8000_0000;
        let mut cur: u64 = (dir_off_raw % 0x8000_0000) as u64;
        proof {
            if !neg_off {
                assert(cur == le32_signed(data@, 4));
            }
        }
        let mut directory: Vec<DirEntry> = Vec::new();
        let mut i: usize = 0;
        let ghost off0: int = le32_signed(data@, 4);
        while i < n
            invariant
                i <= n <= 0x0200_0000,
                len == data@.len(),
                12 <= data@.len(),
                data@[0] == 0x50 && data@[1] == 0x41 && data@[2] == 0x43 && data@[3] == 0x4b,
                off0 == le32_signed(data@, 4),
                n == entry_count(data@),
                !neg_off ==> cur == off0 + 64 * i && 0 <= off0 < 0x8000_0000,
                neg_off ==> off0 < 0,
                parse_entries(data@, off0, n as int) == match parse_entries(
                    data@,
                    if neg_off { off0 } else { cur as int },
                    (n - i) as int,
                ) {
                    Ok(rest) => Ok(dir_view(directory@) + rest),
                    Err(e) => Err::<Seq<SpecDirEntry>, FormatError>(e),
                },
                forall|j: int|
                    0 <= j < directory@.len() ==> #[trigger] dir_view(directory@)[j].offset
                        + dir_view(directory@)[j].size <= data@.len(),
            decreases n - i,
        {
            if neg_off || cur + 64 > len as u64 {
                return Err(FormatError::MalformedRecord);
            }
            let off: usize = cur as usize;
            let offset_raw: u32 = read_le32(&data, off + 56);
            let size_raw: u32 = read_le32(&data, off + 60);
            if offset_raw >= 0x8000_0000 || size_raw >= 0x8000_0000 {
                return Err(FormatError::MalformedRecord);
            }
            if (offset_raw as u64) + (size_raw as u64) > len as u64 {
                return Err(FormatError::MalformedRecord);
            }
            proof {
                assert(entry_in_extent(data@, off as int));
            }
            // Truncate the 56-byte name field at its first NUL.
            let name_len: usize = find_nul(&data, off, 56);
            let name: Vec<u8> = copy_range(&data, off, name_len);
            let entry = DirEntry { name, offset: offset_raw, size: size_raw };
            let ghost pre = directory@;
            directory.push(entry);
            proof {
                assert(entry@ == parse_entry(data@, off as int));
                let m = (n - i) as int;
                assert(parse_entries(data@, off as int, m) == match parse_entries(
                    data@,
                    off + 64,
                    m - 1,
                ) {
                    Ok(rest) => Ok(seq![parse_entry(data@, off as int)] + rest),
                    Err(e) => Err::<Seq<SpecDirEntry>, FormatError>(e),
                });
                if let Ok(rest) = parse_entries(data@, off as int + 64, m - 1) {
                    assert(dir_view(pre) + (seq![entry@] + rest) =~= dir_view(directory@) + rest);
                }
                assert(dir_view(directory@) =~= dir_view(pre).push(entry@));
                assert(forall|j: int|
                    0 <= j < directory@.len() ==> #[trigger] dir_view(directory@)[j].offset
                        + dir_view(directory@)[j].size <= data@.len()) by {
                    assert(forall|j: int|
                        0 <= j < pre.len() ==> dir_view(directory@)[j] == #[trigger] dir_view(
                            pre,
                        )[j]);
                    assert(dir_view(directory@)[pre.len() as int] == entry@);
                };
            }
            cur = cur + 64;
            i = i + 1;
        }
        let pak = Pak { data, directory };
        proof {
            assert(parse_entries(pak.data@, if neg_off { off0 } else { cur as int }, 0int)
                == Ok::<Seq<SpecDirEntry>, FormatError>(Seq::empty()));
            assert(dir_view(pak.directory@) + Seq::<SpecDirEntry>::empty() =~= dir_view(
                pak.directory@,
            ));
        }
        Ok(pak)
    }

    /// Serves the exact on-disk bytes at the range the directory maps `name`
    /// to, or `NotFound` when no entry bears that name.
    pub fn read(&self, name: &[u8]) -> (r: Result<Vec<u8>, FormatError>)
        requires
            self.wf(),
        ensures
            match dir_lookup(self.dir(), name@) {
                Some(e) => {
                    &&& r matches Ok(bytes)
                    &&& bytes@ == self.data().subrange(
                        e.offset as int,
                        e.offset as int + e.size as int,
                    )
                },
                None => r == Err::<Vec<u8>, FormatError>(FormatError::NotFound),
            },
    {
        let mut j: usize = self.directory.len();
        proof {
            assert(self.dir().take(j as int) =~= self.dir());
        }
        while j > 0
            invariant
                self.wf(),
                j <= self.dir().len(),
                dir_lookup(self.dir(), name@) == dir_lookup(self.dir().take(j as int), name@),
            decreases j,
        {
            j = j - 1;
            let e = &self.directory[j];
            if bytes_equal(&e.name, name) {
                proof {
                    let d = self.dir().take(j as int + 1);
                    assert(d.last() == self.dir()[j as int]);
                    assert(dir_lookup(d, name@) == Some(self.dir()[j as int]));
                    assert(self.dir()[j as int].offset + self.dir()[j as int].size
                        <= self.data().len());
                }
                let bytes = copy_range(&self.data, e.offset as usize, e.size as usize);
                return Ok(bytes);
            }
            proof {
                let d = self.dir().take(j as int + 1);
                assert(d.last() == self.dir()[j as int]);
                assert(d.drop_last() =~= self.dir().take(j as int));
            }
        }
        proof {
            assert(self.dir().take(0int).len() == 0);
        }
        Err(FormatError::NotFound)
    }
}


/// The RGB value of one palette slot followed by full alpha, or four zero
/// bytes for the transparent index 0xff.
pub open spec fn rgba_quad(rgb: Seq<u8>, idx: u8) -> Seq<u8> {
    if idx == 0xff {
        seq![0u8, 0u8, 0u8, 0u8]
    } else {
        seq![rgb[3 * idx], rgb[3 * idx + 1], rgb[3 * idx + 2], 0xffu8]
    }
}

/// A 256-entry RGB palette, three bytes per entry.
#[derive(Debug)]
pub struct Palette {
    pub rgb: Vec<u8>,
}

impl Palette {
    /// Exactly 256 three-byte entries.
    pub open spec fn wf(&self) -> bool {
        self.rgb@.len() == 768
    }
}

/// Maps a buffer of palette indices to an RGBA buffer: index 0xff becomes a
/// fully transparent all-zero pixel, every other index maps through the
/// palette with full alpha.
pub fn palette_index_to_rgba(palette: &Palette, indices: &Vec<u8>) -> (r: Vec<u8>)
    requires
        palette.wf(),
        4 * indices@.len() <= usize::MAX,
    ensures
        r@.len() == 4 * indices@.len(),
        forall|i: int|
            0 <= i < indices@.len() ==> #[trigger] r@.subrange(4 * i, 4 * i + 4) == rgba_quad(
                palette.rgb@,
                indices@[i],
            ),
{
    let n: usize = indices.len();
    let mut r: Vec<u8> = Vec::new();
    let mut i: usize = 0;
    while i < n
        invariant
            palette.wf(),
            n == indices@.len(),
            4 * n <= usize::MAX,
            i <= n,
            r@.len() == 4 * i,
            forall|j: int|
                0 <= j < i ==> #[trigger] r@.subrange(4 * j, 4 * j + 4) == rgba_quad(
                    palette.rgb@,
                    indices@[j],
                ),
        decreases n - i,
    {
        let ghost pre = r@;
        let idx: u8 = indices[i];
        if idx == 0xff {
            r.push(0);
            r.push(0);
            r.push(0);
            r.push(0);
        } else {
            let base: usize = 3 * (idx as usize);
            r.push(palette.rgb[base]);
            r.push(palette.rgb[base + 1]);
            r.push(palette.rgb[base + 2]);
            r.push(0xff);
        }
        proof {
            assert(r@.subrange(4 * i as int, 4 * i as int + 4) =~= rgba_quad(
                palette.rgb@,
                indices@[i as int],
            ));
            assert forall|j: int| 0 <= j < i implies #[trigger] r@.subrange(4 * j, 4 * j + 4)
                == rgba_quad(palette.rgb@, indices@[j]) by {
                assert(r@.subrange(4 * j, 4 * j + 4) =~= pre.subrange(4 * j, 4 * j + 4));
            };
        }
        i = i + 1;
    }
    r
}

/// The in-archive name of the palette asset: the bytes of "gfx/palette.lmp".
pub open spec fn palette_entry_name() -> Seq<u8> {
    seq![
        0x67u8,
        0x66u8,
        0x78u8,
        0x2fu8,
        0x70u8,
        0x61u8,
        0x6cu8,
        0x65u8,
        0x74u8,
        0x74u8,
        0x65u8,
        0x2eu8,
        0x6cu8,
        0x6du8,
        0x70u8,
    ]
}

/// Builds the bytes of "gfx/palette.lmp".
fn palette_entry_name_bytes() -> (r: Vec<u8>)
    ensures
        r@ == palette_entry_name(),
{
    let mut r: Vec<u8> = Vec::new();
    r.push(0x67);
    r.push(0x66);
    r.push(0x78);
    r.push(0x2f);
    r.push(0x70);
    r.push(0x61);
    r.push(0x6c);
    r.push(0x65);
    r.push(0x74);
    r.push(0x74);
    r.push(0x65);
    r.push(0x2e);
    r.push(0x6c);
    r.push(0x6d);
    r.push(0x70);
    proof {
        assert(r@ =~= palette_entry_name());
    }
    r
}

/// The process-wide asset state, owned explicitly: the opened archive and
/// the palette read from it. Constructed once at startup and passed by
/// reference to every decoder that needs asset bytes.
#[derive(Debug)]
pub struct AssetStore {
    pub pak: Pak,
    pub palette: Palette,
}

impl AssetStore {
    pub open spec fn wf(&self) -> bool {
        self.pak.wf() && self.palette.wf()
    }

    /// Serves a named asset's bytes from the archive.
    pub fn read(&self, name: &[u8]) -> (r: Result<Vec<u8>, FormatError>)
        requires
            self.wf(),
        ensures
            match dir_lookup(self.pak.dir(), name@) {
                Some(e) => {
                    &&& r matches Ok(bytes)
                    &&& bytes@ == self.pak.data().subrange(
                        e.offset as int,
                        e.offset as int + e.size as int,
                    )
                },
                None => r == Err::<Vec<u8>, FormatError>(FormatError::NotFound),
            },
    {
        self.pak.read(name)
    }
}

/// Builds the asset state over an archive's bytes: opens the archive and
/// reads the 768-byte palette stored under "gfx/palette.lmp".
pub fn init(data: Vec<u8>) -> (r: Result<AssetStore, FormatError>)
    ensures
        match parse_pak(data@) {
            Err(e) => r == Err::<AssetStore, FormatError>(e),
            Ok(d) => match dir_lookup(d, palette_entry_name()) {
                None => r == Err::<AssetStore, FormatError>(FormatError::NotFound),
                Some(en) => {
                    if en.size < 768 {
                        r == Err::<AssetStore, FormatError>(FormatError::MalformedRecord)
                    } else {
                        &&& r matches Ok(s)
                        &&& s.wf()
                        &&& s.pak.data() == data@
                        &&& s.pak.dir() == d
                        &&& s.palette.rgb@ == data@.subrange(
                            en.offset as int,
                            en.offset as int + 768,
                        )
                    }
                },
            },
        },
{
    let ghost data_view = data@;
    let pak = match Pak::open(data) {
        Ok(p) => p,
        Err(e) => {
            return Err(e);
        },
    };
    let name = palette_entry_name_bytes();
    let bytes = match pak.read(name.as_slice()) {
        Ok(b) => b,
        Err(e) => {
            return Err(e);
        },
    };
    proof {
        let en = dir_lookup(pak.dir(), palette_entry_name()).unwrap();
        lemma_lookup_is_member(pak.dir(), palette_entry_name());
        let i = choose|i: int| 0 <= i < pak.dir().len() && pak.dir()[i] == en;
        assert(pak.dir()[i].offset + pak.dir()[i].size <= pak.data().len());
        assert(en.offset + en.size <= data_view.len());
        assert(bytes@.len() == en.size);
    }
    if bytes.len() < 768 {
        return Err(FormatError::MalformedRecord);
    }
    let rgb = copy_range(&bytes, 0, 768);
    proof {
        let en = dir_lookup(pak.dir(), palette_entry_name()).unwrap();
        assert(en.offset + 768 <= data_view.len());
        assert(rgb@ =~= data_view.subrange(en.offset as int, en.offset as int + 768));
    }
    Ok(AssetStore { pak, palette: Palette { rgb } })
}

/// Whether a vector and a slice hold the same bytes.
pub fn bytes_equal(a: &Vec<u8>, b: &[u8]) -> (r: bool)
    ensures
        r == (a@ == b@),
{
    let n: usize = a.len();
    if n != b.len() {
        proof {
            assert(a@.len() != b@.len());
        }
        return false;
    }
    let mut i: usize = 0;
    while i < n
        invariant
            n == a@.len() == b@.len(),
            i <= n,
            forall|k: int| 0 <= k < i ==> a@[k] == b@[k],
        decreases n - i,
    {
        if a[i] != b[i] {
            return false;
        }
        i = i + 1;
    }
    proof {
        assert(a@ =~= b@);
    }
    true
}

} // verus!

use crate::bytes::le32_signed;
use crate::bytes::read_le32_signed;
use crate::error::FormatError;
use crate::resource::{dir_lookup, AssetStore};
use vstd::prelude::*;

verus! {

// The level-geometry container. Only its section directory is decoded: a
// version word followed by fifteen (offset, size) pairs, one per section.
// Decoding the node and leaf trees behind those sections is out of scope.

/// The fifteen sections a level container's directory announces, in their
/// on-disk order.
#[derive(Clone, Copy, Debug, PartialEq, Eq, Structural)]
pub enum SectionId {
    Entities,
    Planes,
    Textures,
    Vertices,
    Visibility,
    RenderNodes,
    TextureInfo,
    Faces,
    Lightmaps,
    ClipNodes,
    Leaves,
    FaceList,
    Edges,
    EdgeList,
    Models,
}

impl SectionId {
    /// The position of this section's entry in the directory.
    pub open spec fn index_spec(self) -> int {
        match self {
            SectionId::Entities => 0,
            SectionId::Planes => 1,
            SectionId::Textures => 2,
            SectionId::Vertices => 3,
            SectionId::Visibility => 4,
            SectionId::RenderNodes => 5,
            SectionId::TextureInfo => 6,
            SectionId::Faces => 7,
            SectionId::Lightmaps => 8,
            SectionId::ClipNodes => 9,
            SectionId::Leaves => 10,
            SectionId::FaceList => 11,
            SectionId::Edges => 12,
            SectionId::EdgeList => 13,
            SectionId::Models => 14,
        }
    }

    /// The directory slot this section occupies.
    pub fn int_value(&self) -> (r: usize)
        ensures
            r == self.index_spec(),
            r < 15,
    {
        match *self {
            SectionId::Entities => 0,
            SectionId::Planes => 1,
            SectionId::Textures => 2,
            SectionId::Vertices => 3,
            SectionId::Visibility => 4,
            SectionId::RenderNodes => 5,
            SectionId::TextureInfo => 6,
            SectionId::Faces => 7,
            SectionId::Lightmaps => 8,
            SectionId::ClipNodes => 9,
            SectionId::Leaves => 10,
            SectionId::FaceList => 11,
            SectionId::Edges => 12,
            SectionId::EdgeList => 13,
            SectionId::Models => 14,
        }
    }
}

/// One section directory entry: where a section's bytes sit and how long
/// they run, as stored (signed, unvalidated against the file extent).
#[derive(Clone, Copy, Debug, PartialEq, Eq, Structural)]
pub struct SectionEntry {
    pub offset: i32,
    pub size: i32,
}

/// Parses a level container's section directory: a version word that must
/// equal 29, then fifteen (offset, size) pairs of signed little-endian
/// words.
pub open spec fn parse_bsp(b: Seq<u8>) -> Result<Seq<SectionEntry>, FormatError> {
    if b.len() < 4 {
        Err(FormatError::MalformedRecord)
    } else if le32_signed(b, 0) != 29 {
        Err(FormatError::UnsupportedVersion)
    } else if b.len() < 124 {
        Err(FormatError::MalformedRecord)
    } else {
        Ok(
            Seq::new(
                15,
                |i: int|
                    SectionEntry {
                        offset: le32_signed(b, 4 + 8 * i) as i32,
                        size: le32_signed(b, 8 + 8 * i) as i32,
                    },
            ),
        )
    }
}

/// A level container, decoded no further than its section directory.
#[derive(Debug)]
pub struct Bsp {
    pub sections: Vec<SectionEntry>,
}

impl Bsp {
    /// Fifteen entries, one per `SectionId`.
    pub open spec fn wf(&self) -> bool {
        self.sections@.len() == 15
    }

    /// Decodes the section directory from a container's bytes.
    pub fn deserialize(b: &Vec<u8>) -> (r: Result<Bsp, FormatError>)
        ensures
            match parse_bsp(b@) {
                Ok(d) => {
                    &&& r matches Ok(bsp)
                    &&& bsp.sections@ == d
                    &&& bsp.wf()
                },
                Err(e) => r == Err::<Bsp, FormatError>(e),
            },
    {
        let len: usize = b.len();
        if len < 4 {
            return Err(FormatError::MalformedRecord);
        }
        let version: i32 = read_le32_signed(b, 0);
        if version != 29 {
            return Err(FormatError::UnsupportedVersion);
        }
        if len < 124 {
            return Err(FormatError::MalformedRecord);
        }
        let mut sections: Vec<SectionEntry> = Vec::new();
        let mut i: usize = 0;
        while i < 15
            invariant
                124 <= len == b@.len(),
                i <= 15,
                sections@.len() == i,
                forall|j: int|
                    0 <= j < i ==> #[trigger] sections@[j] == (SectionEntry {
                        offset: le32_signed(b@, 4 + 8 * j) as i32,
                        size: le32_signed(b@, 8 + 8 * j) as i32,
                    }),
            decreases 15 - i,
        {
            let offset: i32 = read_le32_signed(b, 4 + 8 * i);
            let size: i32 = read_le32_signed(b, 8 + 8 * i);
            sections.push(SectionEntry { offset, size });
            i = i + 1;
        }
        proof {
            assert(sections@ =~= parse_bsp(b@).unwrap());
        }
        Ok(Bsp { sections })
    }

    /// Loads a level by name from the asset store and decodes its section
    /// directory.
    pub fn load(store: &AssetStore, name: &[u8]) -> (r: Result<Bsp, FormatError>)
        requires
            store.wf(),
        ensures
            match dir_lookup(store.pak.dir(), name@) {
                None => r == Err::<Bsp, FormatError>(FormatError::NotFound),
                Some(en) => {
                    let bytes = store.pak.data().subrange(
                        en.offset as int,
                        en.offset as int + en.size as int,
                    );
                    match parse_bsp(bytes) {
                        Ok(d) => {
                            &&& r matches Ok(bsp)
                            &&& bsp.sections@ == d
                            &&& bsp.wf()
                        },
                        Err(e) => r == Err::<Bsp, FormatError>(e),
                    }
                },
            },
    {
        let bytes = match store.read(name) {
            Ok(bs) => bs,
            Err(e) => {
                return Err(e);
            },
        };
        Bsp::deserialize(&bytes)
    }

    /// The directory entry of one section.
    pub fn section(&self, id: SectionId) -> (r: SectionEntry)
        requires
            self.wf(),
        ensures
            r == self.sections@[id.index_spec()],
    {
        let i: usize = id.int_value();
        self.sections[i]
    }
}

} // verus!

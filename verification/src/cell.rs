//! Cells: versioned, optionally compressed, checksummed content at one
//! coordinate, with tags and links to neighbouring cells.

use vstd::prelude::*;
use crate::clock::now_seconds;
use crate::codec::{
    digest_input_limit, hex_encode, hex_text, io_error_text, lz4_compress, lz4_content,
    lz4_decompress, lz4_frame, sha256, sha256_digest,
};
use crate::error::HiveError;
use crate::geometry::{point, Direction};
use crate::links::NeighborLinks;
use crate::text::{insert_text, lemma_text_list, remove_text, texts, with_text, without_text};

verus! {

/// The compression level at which compressed content is stored.
pub const COMPRESSION_LEVEL: u32 = 6;

/// Prepares the cell subsystem. There is nothing to prepare, so this succeeds.
pub fn init() -> (outcome: Result<(), HiveError>)
    ensures
        outcome is Ok,
{
    Ok(())
}

/// What kind of data a cell holds.
#[derive(Debug, Clone, Copy, PartialEq, Eq, Structural)]
pub enum CellDataType {
    /// A JSON document.
    Json,
    /// Binary data.
    Binary,
    /// Key-value pairs.
    KeyValue,
    /// Index information.
    Index,
    /// A schema definition.
    Schema,
    /// Metadata about the hive.
    HiveMetadata,
}

/// The content of a cell as it is stored.
#[derive(Debug)]
pub struct CellData {
    /// What kind of data the content is.
    pub data_type: CellDataType,
    /// The stored bytes: an LZ4 frame if `is_compressed`, else the content.
    pub content: Vec<u8>,
    /// Whether the stored bytes are compressed.
    pub is_compressed: bool,
    /// The SHA-256 digest of the stored bytes in lowercase hexadecimal.
    pub checksum: String,
}

/// What is recorded about a cell besides its content.
#[derive(Debug)]
pub struct CellMetadata {
    /// When the cell was created, in seconds since the start of Unix time.
    pub created_at: u64,
    /// When the content was last replaced, in the same measure.
    pub modified_at: u64,
    /// The number of stored bytes.
    pub size_bytes: usize,
    /// The version of the content: 1 at creation, one more with each
    /// replacement.
    pub version: u64,
    /// The tags, each once, in the order in which they were added.
    pub tags: Vec<String>,
}

/// One cell of the hexagonal grid.
#[derive(Debug)]
pub struct Cell {
    /// The id, assigned by the caller.
    pub id: String,
    /// Where the cell lies.
    pub coordinates: (i32, i32),
    /// The stored content.
    pub data: CellData,
    /// What is recorded about the cell.
    pub metadata: CellMetadata,
    /// The ids of the linked neighbours, by direction.
    pub neighbors: NeighborLinks,
}

/// The stored content of a cell as mathematical values.
#[verifier::ext_equal]
pub struct CellDataView {
    pub data_type: CellDataType,
    pub content: Seq<u8>,
    pub is_compressed: bool,
    pub checksum: Seq<char>,
}

/// The metadata of a cell as mathematical values.
#[verifier::ext_equal]
pub struct CellMetadataView {
    pub created_at: nat,
    pub modified_at: nat,
    pub size_bytes: nat,
    pub version: nat,
    pub tags: Seq<Seq<char>>,
}

/// A cell as mathematical values.
#[verifier::ext_equal]
pub struct CellView {
    pub id: Seq<char>,
    pub coordinates: (int, int),
    pub data: CellDataView,
    pub metadata: CellMetadataView,
    pub neighbors: Map<Direction, Seq<char>>,
}

impl View for CellData {
    type V = CellDataView;

    open spec fn view(&self) -> CellDataView {
        CellDataView {
            data_type: self.data_type,
            content: self.content@,
            is_compressed: self.is_compressed,
            checksum: self.checksum@,
        }
    }
}

impl View for CellMetadata {
    type V = CellMetadataView;

    open spec fn view(&self) -> CellMetadataView {
        CellMetadataView {
            created_at: self.created_at as nat,
            modified_at: self.modified_at as nat,
            size_bytes: self.size_bytes as nat,
            version: self.version as nat,
            tags: texts(self.tags@),
        }
    }
}

impl View for Cell {
    type V = CellView;

    open spec fn view(&self) -> CellView {
        CellView {
            id: self.id@,
            coordinates: point(self.coordinates),
            data: self.data@,
            metadata: self.metadata@,
            neighbors: self.neighbors@,
        }
    }
}

impl Clone for CellData {
    /// The same stored content in a value of its own.
    fn clone(&self) -> (copy: CellData)
        ensures
            copy@ == self@,
    {
        let content: Vec<u8> = self.content.clone();
        assert(content@ =~= self.content@);
        CellData {
            data_type: self.data_type,
            content,
            is_compressed: self.is_compressed,
            checksum: self.checksum.clone(),
        }
    }
}

impl Clone for CellMetadata {
    /// The same metadata in a value of its own.
    fn clone(&self) -> (copy: CellMetadata)
        ensures
            copy@ == self@,
    {
        let tags: Vec<String> = self.tags.clone();
        assert(texts(tags@) =~= texts(self.tags@));
        CellMetadata {
            created_at: self.created_at,
            modified_at: self.modified_at,
            size_bytes: self.size_bytes,
            version: self.version,
            tags,
        }
    }
}

impl Clone for Cell {
    /// The same cell in a value of its own.
    fn clone(&self) -> (copy: Cell)
        ensures
            copy@ == self@,
    {
        Cell {
            id: self.id.clone(),
            coordinates: self.coordinates,
            data: self.data.clone(),
            metadata: self.metadata.clone(),
            neighbors: self.neighbors.clone(),
        }
    }
}

/// The bytes that are stored for `content`: its LZ4 frame at
/// `COMPRESSION_LEVEL` if it is to be compressed, else `content` itself.
pub open spec fn stored_form(content: Seq<u8>, compress: bool) -> Seq<u8> {
    if compress {
        lz4_frame(COMPRESSION_LEVEL, content)
    } else {
        content
    }
}

/// The checksum that belongs to the stored bytes: their SHA-256 digest in
/// lowercase hexadecimal.
pub open spec fn checksum_of(stored: Seq<u8>) -> Seq<char> {
    hex_text(sha256(stored))
}

/// The content that stored bytes stand for, or `None` where they are
/// compressed and the decompressor does not read them.
pub open spec fn content_of(stored: Seq<u8>, is_compressed: bool) -> Option<Seq<u8>> {
    if is_compressed {
        lz4_content(stored)
    } else {
        Some(stored)
    }
}

impl CellDataView {
    /// The content that the stored bytes of this cell stand for.
    pub open spec fn logical_content(self) -> Option<Seq<u8>> {
        content_of(self.content, self.is_compressed)
    }
}

impl CellView {
    /// What holds of every cell that the operations of this module made: the
    /// checksum is that of the stored bytes, the recorded size is their
    /// number, the version is at least 1, and no tag occurs twice.
    pub open spec fn wf(self) -> bool {
        &&& self.data.checksum == checksum_of(self.data.content)
        &&& self.metadata.size_bytes == self.data.content.len()
        &&& self.metadata.version >= 1
        &&& self.metadata.tags.no_duplicates()
    }

    /// The cell that is created at time `now` for the given stored bytes.
    pub open spec fn initial(
        id: Seq<char>,
        coordinates: (int, int),
        data_type: CellDataType,
        stored: Seq<u8>,
        is_compressed: bool,
        now: nat,
    ) -> CellView {
        CellView {
            id,
            coordinates,
            data: CellDataView {
                data_type,
                content: stored,
                is_compressed,
                checksum: checksum_of(stored),
            },
            metadata: CellMetadataView {
                created_at: now,
                modified_at: now,
                size_bytes: stored.len(),
                version: 1,
                tags: Seq::empty(),
            },
            neighbors: Map::empty(),
        }
    }

    /// This cell after its content was replaced at time `now`: new stored
    /// bytes with their checksum and size, the version one higher, and `now`
    /// as the time of modification unless that would set the time back.
    pub open spec fn with_content(self, stored: Seq<u8>, is_compressed: bool, now: nat) -> CellView {
        CellView {
            data: CellDataView {
                content: stored,
                is_compressed,
                checksum: checksum_of(stored),
                ..self.data
            },
            metadata: CellMetadataView {
                modified_at: if now >= self.metadata.modified_at {
                    now
                } else {
                    self.metadata.modified_at
                },
                size_bytes: stored.len(),
                version: self.metadata.version + 1,
                ..self.metadata
            },
            ..self
        }
    }

    /// This cell with `tag` among its tags.
    pub open spec fn with_tag(self, tag: Seq<char>) -> CellView {
        CellView {
            metadata: CellMetadataView {
                tags: with_text(self.metadata.tags, tag),
                ..self.metadata
            },
            ..self
        }
    }

    /// This cell without `tag` among its tags.
    pub open spec fn without_tag(self, tag: Seq<char>) -> CellView {
        CellView {
            metadata: CellMetadataView {
                tags: without_text(self.metadata.tags, tag),
                ..self.metadata
            },
            ..self
        }
    }

    /// This cell with `id` linked in `direction`.
    pub open spec fn linked(self, direction: Direction, id: Seq<char>) -> CellView {
        CellView { neighbors: self.neighbors.insert(direction, id), ..self }
    }

    /// This cell with nothing linked in `direction`.
    pub open spec fn unlinked(self, direction: Direction) -> CellView {
        CellView { neighbors: self.neighbors.remove(direction), ..self }
    }
}

/// Whether a digest can be computed of `stored`.
fn fits_digest(stored: &Vec<u8>) -> (fits: bool)
    ensures
        fits == (stored@.len() < digest_input_limit()),
{
    (stored.len() as u64) < 0x2000_0000_0000_0000u64
}

/// The checksum of the stored bytes.
fn checksum(stored: &Vec<u8>) -> (text: String)
    requires
        stored@.len() < digest_input_limit(),
    ensures
        text@ == checksum_of(stored@),
{
    let digest: Vec<u8> = sha256_digest(stored.as_slice());
    hex_encode(digest.as_slice())
}

/// The bytes to store for `content`: compressed if `compress`, else as they
/// are.
///
/// Only the compressor can fail, and only with `CompressionError`.
fn encode_content(content: Vec<u8>, compress: bool) -> (outcome: Result<Vec<u8>, HiveError>)
    ensures
        match outcome {
            Ok(stored) => {
                &&& stored@ == stored_form(content@, compress)
                &&& content_of(stored@, compress) == Some(content@)
            },
            Err(e) => compress && e is CompressionError,
        },
        !compress ==> outcome is Ok,
{
    if compress {
        match lz4_compress(content.as_slice(), COMPRESSION_LEVEL) {
            Ok(stored) => Ok(stored),
            Err(e) => Err(HiveError::CompressionError(io_error_text(&e))),
        }
    } else {
        Ok(content)
    }
}

/// The error for stored bytes that are too long for a digest.
fn too_long() -> (error: HiveError)
    ensures
        error is GenericError,
{
    HiveError::GenericError("content is too long for a checksum".to_owned())
}

impl Cell {
    /// Creates a cell with the given content at version 1, without tags or
    /// links, stamped with the current time.
    ///
    /// The content is compressed first if `compress` is set, and the checksum
    /// is that of the bytes that are stored. Creation fails with
    /// `SystemTimeError` if the clock cannot be read, with `CompressionError`
    /// if the compressor fails, and with `GenericError` if the bytes to store
    /// are too long for a digest. Whether the clock and the compressor fail is
    /// theirs to decide; `assemble` is the part that cannot fail.
    pub fn new(
        id: String,
        coordinates: (i32, i32),
        data_type: CellDataType,
        content: Vec<u8>,
        compress: bool,
    ) -> (outcome: Result<Cell, HiveError>)
        ensures
            match outcome {
                Ok(cell) => {
                    &&& cell@ == CellView::initial(
                        id@,
                        point(coordinates),
                        data_type,
                        stored_form(content@, compress),
                        compress,
                        cell@.metadata.created_at,
                    )
                    &&& cell@.data.logical_content() == Some(content@)
                    &&& cell@.wf()
                },
                Err(e) => {
                    ||| e is SystemTimeError
                    ||| e is CompressionError && compress
                    ||| e is GenericError && stored_form(content@, compress).len()
                        >= digest_input_limit()
                },
            },
    {
        let now: u64 = match now_seconds() {
            Ok(seconds) => seconds,
            Err(e) => {
                return Err(e);
            },
        };
        let stored: Vec<u8> = match encode_content(content, compress) {
            Ok(bytes) => bytes,
            Err(e) => {
                return Err(e);
            },
        };
        if !fits_digest(&stored) {
            return Err(too_long());
        }
        Ok(Cell::assemble(id, coordinates, data_type, stored, compress, now))
    }

    /// The cell that holds the given stored bytes, created at time `now`:
    /// version 1, no tags, no links, the checksum computed from the bytes.
    pub fn assemble(
        id: String,
        coordinates: (i32, i32),
        data_type: CellDataType,
        stored: Vec<u8>,
        is_compressed: bool,
        now: u64,
    ) -> (cell: Cell)
        requires
            stored@.len() < digest_input_limit(),
        ensures
            cell@ == CellView::initial(
                id@,
                point(coordinates),
                data_type,
                stored@,
                is_compressed,
                now as nat,
            ),
            cell@.wf(),
    {
        let text: String = checksum(&stored);
        let size_bytes: usize = stored.len();
        let cell = Cell {
            id,
            coordinates,
            data: CellData { data_type, content: stored, is_compressed, checksum: text },
            metadata: CellMetadata {
                created_at: now,
                modified_at: now,
                size_bytes,
                version: 1,
                tags: Vec::new(),
            },
            neighbors: NeighborLinks::new(),
        };
        assert(cell@.metadata.tags =~= Seq::<Seq<char>>::empty());
        cell
    }

    /// The content of this cell: the stored bytes, decompressed if they are
    /// stored compressed.
    ///
    /// Uncompressed content is always returned. Compressed content is returned
    /// where the decompressor reads the stored bytes to their end, as it does
    /// with every frame that `new` or `update_content` stored; where it does
    /// not, the result is `DecompressionError`.
    pub fn get_content(&self) -> (outcome: Result<Vec<u8>, HiveError>)
        ensures
            outcome is Ok <==> self@.data.logical_content() is Some,
            outcome matches Ok(content) ==> self@.data.logical_content() == Some(content@),
            outcome matches Err(e) ==> e is DecompressionError,
    {
        if !self.data.is_compressed {
            let copy: Vec<u8> = self.data.content.clone();
            assert(copy@ =~= self.data.content@);
            return Ok(copy);
        }
        match lz4_decompress(self.data.content.as_slice()) {
            Ok(content) => Ok(content),
            Err(e) => Err(HiveError::DecompressionError(io_error_text(&e))),
        }
    }

    /// Replaces the content of this cell: compresses the new content if
    /// `compress` is set, recomputes checksum and size from the bytes that are
    /// stored, raises the version by one and stamps the current time. A clock
    /// that was set back does not set the time of modification back.
    ///
    /// Fails as `new` does, and then leaves the cell as it was.
    /// `replace_content` is the part that cannot fail.
    pub fn update_content(&mut self, new_content: Vec<u8>, compress: bool) -> (outcome: Result<
        (),
        HiveError,
    >)
        requires
            old(self).metadata.version < u64::MAX,
        ensures
            match outcome {
                Ok(()) => {
                    &&& final(self)@ == old(self)@.with_content(
                        stored_form(new_content@, compress),
                        compress,
                        final(self)@.metadata.modified_at,
                    )
                    &&& final(self)@.metadata.modified_at >= old(self)@.metadata.modified_at
                    &&& final(self)@.data.logical_content() == Some(new_content@)
                },
                Err(e) => {
                    &&& *final(self) == *old(self)
                    &&& {
                        ||| e is SystemTimeError
                        ||| e is CompressionError && compress
                        ||| e is GenericError && stored_form(new_content@, compress).len()
                            >= digest_input_limit()
                    }
                },
            },
    {
        let now: u64 = match now_seconds() {
            Ok(seconds) => seconds,
            Err(e) => {
                return Err(e);
            },
        };
        let stored: Vec<u8> = match encode_content(new_content, compress) {
            Ok(bytes) => bytes,
            Err(e) => {
                return Err(e);
            },
        };
        if !fits_digest(&stored) {
            return Err(too_long());
        }
        self.replace_content(stored, compress, now);
        Ok(())
    }

    /// Stores the given bytes in place of the old ones at time `now`, with
    /// their checksum and size, and raises the version by one. The time of
    /// modification becomes `now`, unless it is later than `now` already.
    pub fn replace_content(&mut self, stored: Vec<u8>, is_compressed: bool, now: u64)
        requires
            stored@.len() < digest_input_limit(),
            old(self).metadata.version < u64::MAX,
        ensures
            final(self)@ == old(self)@.with_content(stored@, is_compressed, now as nat),
    {
        let text: String = checksum(&stored);
        self.metadata.size_bytes = stored.len();
        self.data.content = stored;
        self.data.is_compressed = is_compressed;
        self.data.checksum = text;
        if now > self.metadata.modified_at {
            self.metadata.modified_at = now;
        }
        self.metadata.version = self.metadata.version + 1;
    }

    /// Adds `tag` at the end of the tags, unless it is among them already.
    pub fn add_tag(&mut self, tag: String)
        ensures
            final(self)@ == old(self)@.with_tag(tag@),
    {
        let _ = insert_text(&mut self.metadata.tags, tag);
    }

    /// Removes every occurrence of `tag` from the tags.
    pub fn remove_tag(&mut self, tag: &str)
        ensures
            final(self)@ == old(self)@.without_tag(tag@),
    {
        let _ = remove_text(&mut self.metadata.tags, tag);
    }

    /// Whether `tag` is among the tags of this cell.
    pub fn has_tag(&self, tag: &str) -> (tagged: bool)
        ensures
            tagged == self@.metadata.tags.contains(tag@),
    {
        crate::text::contains_text(&self.metadata.tags, tag)
    }

    /// Links `neighbor_id` in `direction`, in place of what was linked there.
    pub fn link_neighbor(&mut self, direction: Direction, neighbor_id: String)
        ensures
            final(self)@ == old(self)@.linked(direction, neighbor_id@),
    {
        let _ = self.neighbors.insert(direction, neighbor_id);
    }

    /// Clears the link in `direction`.
    pub fn unlink_neighbor(&mut self, direction: Direction)
        ensures
            final(self)@ == old(self)@.unlinked(direction),
    {
        let _ = self.neighbors.remove(direction);
    }
}

/// Replacing the content raises the version by exactly one and keeps a
/// well-formed cell well formed, whatever the clock says.
pub proof fn lemma_update_raises_version(
    cell: CellView,
    stored: Seq<u8>,
    is_compressed: bool,
    now: nat,
)
    ensures
        cell.with_content(stored, is_compressed, now).metadata.version == cell.metadata.version
            + 1,
        cell.with_content(stored, is_compressed, now).metadata.created_at
            == cell.metadata.created_at,
        cell.with_content(stored, is_compressed, now).metadata.tags == cell.metadata.tags,
        cell.with_content(stored, is_compressed, now).neighbors == cell.neighbors,
        cell.wf() ==> cell.with_content(stored, is_compressed, now).wf(),
{
}

/// Replacing the content never sets the time of modification back, and sets
/// it to the reading of the clock wherever that is not earlier.
pub proof fn lemma_update_advances_time(
    cell: CellView,
    stored: Seq<u8>,
    is_compressed: bool,
    now: nat,
)
    ensures
        cell.with_content(stored, is_compressed, now).metadata.modified_at
            >= cell.metadata.modified_at,
        cell.with_content(stored, is_compressed, now).metadata.modified_at >= now,
        now >= cell.metadata.modified_at ==> cell.with_content(
            stored,
            is_compressed,
            now,
        ).metadata.modified_at == now,
{
}

/// Adding a tag a second time changes nothing: the tags of a cell without
/// tags are one tag long however often that tag is added. Adding and removing
/// tags keeps a well-formed cell well formed.
pub proof fn lemma_tags(cell: CellView, tag: Seq<char>)
    ensures
        cell.with_tag(tag).with_tag(tag) == cell.with_tag(tag),
        cell.with_tag(tag).metadata.tags.contains(tag),
        cell.metadata.tags.len() == 0 ==> cell.with_tag(tag).with_tag(tag).metadata.tags.len()
            == 1,
        !cell.without_tag(tag).metadata.tags.contains(tag),
        cell.wf() ==> cell.with_tag(tag).wf() && cell.without_tag(tag).wf(),
{
    lemma_text_list(cell.metadata.tags, tag);
}

} // verus!

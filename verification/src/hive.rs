//! Hives: named containers that own one grid of cells and its metadata, and
//! the manager that keeps the hives by their ids.

use vstd::prelude::*;
use vstd::std_specs::iter::IteratorSpec;
use crate::cell::Cell;
use crate::clock::now_seconds;
use crate::codec::{hex_encode, hex_text};
use crate::entropy::random_bytes;
use crate::error::HiveError;
use crate::geometry::point;
use crate::grid::{borrowed_views, CellGrid, GridView};
use crate::schema::Schema;
use crate::text::{insert_text, lemma_text_list, remove_text, texts, without_text};
use crate::text_map::TextMap;

verus! {

broadcast use vstd::string::group_string_axioms;

/// `std::path::PathBuf`, a path in the file system. The library carries
/// paths along and never looks inside.
#[verifier::external_type_specification]
#[verifier::external_body]
pub struct ExPathBuf(std::path::PathBuf);

/// Whether std counts `c` among the alphabetic or the numeric characters of
/// Unicode.
pub uninterp spec fn is_alphanumeric(c: char) -> bool;

/// `char::is_alphanumeric` says whether a character is alphabetic or numeric
/// in Unicode, which depends on the character alone.
pub assume_specification[ char::is_alphanumeric ](c: char) -> (answer: bool)
    ensures
        answer == is_alphanumeric(c),
;

/// The path that `Path::join` makes of `base` and the segment `segment`.
pub uninterp spec fn joined_path(base: std::path::PathBuf, segment: Seq<char>) -> std::path::PathBuf;

/// `segment` adjoined to `base` by `Path::join`.
///
/// Taken on trust: the joined path depends on the base and the segment alone.
/// Nothing is claimed of how it is written.
#[verifier::external_body]
fn join_path(base: &std::path::PathBuf, segment: &str) -> (joined: std::path::PathBuf)
    ensures
        joined == joined_path(*base, segment@),
{
    base.join(segment)
}

/// The number of random bytes in the id of a hive.
pub const HIVE_ID_BYTES: usize = 16;

/// How often a fresh id is drawn for a new hive before giving up.
pub const HIVE_ID_ATTEMPTS: usize = 8;

/// Prepares the hive subsystem. There is nothing to prepare, so this succeeds.
pub fn init() -> (outcome: Result<(), HiveError>)
    ensures
        outcome is Ok,
{
    Ok(())
}

/// Whether `c` may stand in the name of a storage directory as it is.
pub open spec fn is_safe_char(c: char) -> bool {
    is_alphanumeric(c) || c == '-' || c == '_'
}

/// `name` with an underscore in place of each character that is not safe in
/// the name of a storage directory.
pub open spec fn sanitized(name: Seq<char>) -> Seq<char> {
    name.map_values(
        |c: char|
            if is_safe_char(c) {
                c
            } else {
                '_'
            },
    )
}

/// The id that is made of the given random bytes: `hive-` and the bytes in
/// lowercase hexadecimal.
pub open spec fn hive_id_of(bytes: Seq<u8>) -> Seq<char> {
    "hive-"@ + hex_text(bytes)
}

/// Whether `id` has the form of a generated hive id.
pub open spec fn is_hive_id(id: Seq<char>) -> bool {
    exists|bytes: Seq<u8>| bytes.len() == HIVE_ID_BYTES && id == #[trigger] hive_id_of(bytes)
}

/// The name of the storage directory of a hive called `name`: each character
/// that is not alphanumeric, `-` or `_` becomes `_`.
pub fn sanitize_name(name: &str) -> (safe: String)
    ensures
        safe@ == sanitized(name@),
{
    let mut safe: String = String::new();
    let mut chars = name.chars();
    let ghost mut done: Seq<char> = Seq::empty();
    assert(sanitized(done) =~= Seq::<char>::empty());
    loop
        invariant
            chars.obeys_prophetic_iter_laws(),
            chars.decrease() is Some,
            name@ == done + chars.remaining(),
            safe@ == sanitized(done),
        decreases chars.decrease()->0,
    {
        let ghost rest: Seq<char> = chars.remaining();
        match chars.next() {
            Some(c) => {
                if c.is_alphanumeric() || c == '-' || c == '_' {
                    safe.push(c);
                } else {
                    safe.push('_');
                }
                proof {
                    assert(sanitized(done.push(c)) =~= sanitized(done).push(
                        if is_safe_char(c) {
                            c
                        } else {
                            '_'
                        },
                    ));
                    assert(done.push(c) + chars.remaining() =~= done + rest);
                    done = done.push(c);
                }
            },
            None => {
                assert(done + rest =~= done);
                return safe;
            },
        }
    }
}

/// The hive id that is made of the given bytes.
pub fn hive_id_from(bytes: &[u8]) -> (id: String)
    ensures
        id@ == hive_id_of(bytes@),
{
    let mut id: String = "hive-".to_owned();
    let digits: String = hex_encode(bytes);
    id.append(digits.as_str());
    id
}

/// A fresh id for a hive: `hive-` and 16 random bytes in hexadecimal.
pub fn generate_hive_id() -> (id: String)
    ensures
        is_hive_id(id@),
{
    let bytes: Vec<u8> = random_bytes(HIVE_ID_BYTES);
    let id: String = hive_id_from(bytes.as_slice());
    assert(id@ == hive_id_of(bytes@));
    id
}

/// What is recorded about a hive besides its cells.
#[derive(Debug)]
pub struct HiveMetadata {
    /// Who owns the hive.
    pub owner: String,
    /// The version of the hive: 1 at creation, one more with each change.
    pub version: u64,
    /// The tags, each once, in the order in which they were added.
    pub tags: Vec<String>,
    /// Properties that the application sets.
    pub properties: TextMap,
}

/// A named container of cells, much as a database is in other systems.
#[derive(Debug)]
pub struct Hive {
    /// The id, generated at creation.
    pub id: String,
    /// The name that people give the hive.
    pub name: String,
    /// What the hive is for.
    pub description: String,
    /// When the hive was created, in seconds since the start of Unix time.
    pub created_at: u64,
    /// When the hive was last changed, in the same measure.
    pub modified_at: u64,
    /// The schema of the data, if one was set.
    pub schema: Option<Schema>,
    /// The cells.
    pub cells: CellGrid,
    /// Where the hive is stored.
    pub storage_path: std::path::PathBuf,
    /// What is recorded about the hive.
    pub metadata: HiveMetadata,
}

/// The metadata of a hive as mathematical values.
#[verifier::ext_equal]
pub struct HiveMetadataView {
    pub owner: Seq<char>,
    pub version: nat,
    pub tags: Seq<Seq<char>>,
    pub properties: Map<Seq<char>, Seq<char>>,
}

/// A hive as mathematical values.
#[verifier::ext_equal]
pub struct HiveView {
    pub id: Seq<char>,
    pub name: Seq<char>,
    pub description: Seq<char>,
    pub created_at: nat,
    pub modified_at: nat,
    pub schema: Option<Schema>,
    pub cells: GridView,
    pub storage_path: std::path::PathBuf,
    pub metadata: HiveMetadataView,
}

impl View for HiveMetadata {
    type V = HiveMetadataView;

    open spec fn view(&self) -> HiveMetadataView {
        HiveMetadataView {
            owner: self.owner@,
            version: self.version as nat,
            tags: texts(self.tags@),
            properties: self.properties@,
        }
    }
}

impl View for Hive {
    type V = HiveView;

    open spec fn view(&self) -> HiveView {
        HiveView {
            id: self.id@,
            name: self.name@,
            description: self.description@,
            created_at: self.created_at as nat,
            modified_at: self.modified_at as nat,
            schema: self.schema,
            cells: self.cells@,
            storage_path: self.storage_path,
            metadata: self.metadata@,
        }
    }
}

impl HiveView {
    /// What holds of every hive that the operations of this module made: the
    /// grid is well formed, the version is at least 1, and no tag occurs
    /// twice.
    pub open spec fn wf(self) -> bool {
        &&& self.cells.wf()
        &&& self.metadata.version >= 1
        &&& self.metadata.tags.no_duplicates()
    }

    /// The hive that is created at time `now`: an empty grid, version 1, no
    /// schema, tags or properties.
    pub open spec fn initial(
        id: Seq<char>,
        name: Seq<char>,
        description: Seq<char>,
        owner: Seq<char>,
        storage_path: std::path::PathBuf,
        dimensions: (nat, nat),
        now: nat,
    ) -> HiveView {
        HiveView {
            id,
            name,
            description,
            created_at: now,
            modified_at: now,
            schema: None,
            cells: GridView { cells: Seq::empty(), dimensions },
            storage_path,
            metadata: HiveMetadataView {
                owner,
                version: 1,
                tags: Seq::empty(),
                properties: Map::empty(),
            },
        }
    }

    /// This hive after a change at time `now`: the version one higher, and
    /// `now` as the time of the last change.
    pub open spec fn touched(self, now: nat) -> HiveView {
        HiveView {
            modified_at: now,
            metadata: HiveMetadataView { version: self.metadata.version + 1, ..self.metadata },
            ..self
        }
    }

    /// This hive with the given grid.
    pub open spec fn with_cells(self, cells: GridView) -> HiveView {
        HiveView { cells, ..self }
    }

    /// This hive with the given schema.
    pub open spec fn with_schema(self, schema: Schema) -> HiveView {
        HiveView { schema: Some(schema), ..self }
    }

    /// This hive with the given tags.
    pub open spec fn with_tags(self, tags: Seq<Seq<char>>) -> HiveView {
        HiveView { metadata: HiveMetadataView { tags, ..self.metadata }, ..self }
    }

    /// This hive with the given properties.
    pub open spec fn with_properties(self, properties: Map<Seq<char>, Seq<char>>) -> HiveView {
        HiveView { metadata: HiveMetadataView { properties, ..self.metadata }, ..self }
    }
}

impl Hive {
    /// Creates a hive with a fresh id and an empty grid of the given
    /// dimensions, at version 1, stamped with the current time.
    ///
    /// Fails with `SystemTimeError`, and with nothing else, if the clock
    /// cannot be read. `assemble` is the part that cannot fail.
    pub fn new(
        name: String,
        description: String,
        owner: String,
        storage_path: std::path::PathBuf,
        dimensions: (usize, usize),
    ) -> (outcome: Result<Hive, HiveError>)
        ensures
            match outcome {
                Ok(hive) => {
                    &&& is_hive_id(hive@.id)
                    &&& hive@ == HiveView::initial(
                        hive@.id,
                        name@,
                        description@,
                        owner@,
                        storage_path,
                        (dimensions.0 as nat, dimensions.1 as nat),
                        hive@.created_at,
                    )
                    &&& hive@.wf()
                },
                Err(e) => e is SystemTimeError,
            },
    {
        let now: u64 = match now_seconds() {
            Ok(seconds) => seconds,
            Err(e) => {
                return Err(e);
            },
        };
        let id: String = generate_hive_id();
        Ok(Hive::assemble(id, name, description, owner, storage_path, dimensions, now))
    }

    /// The hive with the given id that is created at time `now`: an empty
    /// grid of the given dimensions, version 1, no schema, tags or properties.
    pub fn assemble(
        id: String,
        name: String,
        description: String,
        owner: String,
        storage_path: std::path::PathBuf,
        dimensions: (usize, usize),
        now: u64,
    ) -> (hive: Hive)
        ensures
            hive@ == HiveView::initial(
                id@,
                name@,
                description@,
                owner@,
                storage_path,
                (dimensions.0 as nat, dimensions.1 as nat),
                now as nat,
            ),
            hive@.wf(),
    {
        let hive = Hive {
            id,
            name,
            description,
            created_at: now,
            modified_at: now,
            schema: None,
            cells: CellGrid::new(dimensions),
            storage_path,
            metadata: HiveMetadata {
                owner,
                version: 1,
                tags: Vec::new(),
                properties: TextMap::new(),
            },
        };
        assert(hive@.metadata.tags =~= Seq::<Seq<char>>::empty());
        assert(hive@.cells.cells =~= Seq::empty());
        hive
    }

    /// Records a change at time `now`: raises the version by one and sets the
    /// time of the last change, the two always together.
    pub fn touch_at(&mut self, now: u64)
        requires
            old(self).metadata.version < u64::MAX,
        ensures
            final(self)@ == old(self)@.touched(now as nat),
    {
        self.metadata.version = self.metadata.version + 1;
        self.modified_at = now;
    }

    /// Adds `cell` to the grid of this hive and records the change.
    ///
    /// Fails with `OutOfBoundsError` if the coordinates of the cell lie
    /// outside the grid, with `CellAlreadyExists` if they lie inside and a
    /// cell is there already, and else with `SystemTimeError` if the clock
    /// cannot be read. A failed call leaves the hive as it was.
    pub fn add_cell(&mut self, cell: Cell) -> (outcome: Result<(), HiveError>)
        requires
            old(self)@.wf(),
            old(self).metadata.version < u64::MAX,
        ensures
            final(self)@.wf(),
            match outcome {
                Ok(()) => {
                    &&& old(self)@.cells.in_bounds(cell@.coordinates)
                    &&& !old(self)@.cells.occupied(cell@.coordinates)
                    &&& final(self)@ == old(self)@.with_cells(
                        old(self)@.cells.with_cell(cell@),
                    ).touched(final(self)@.modified_at)
                },
                Err(e) => {
                    &&& final(self)@ == old(self)@
                    &&& e is OutOfBoundsError || e is CellAlreadyExists || e is SystemTimeError
                    &&& e is OutOfBoundsError <==> !old(self)@.cells.in_bounds(cell@.coordinates)
                    &&& e is CellAlreadyExists ==> old(self)@.cells.occupied(cell@.coordinates)
                    &&& e is SystemTimeError ==> !old(self)@.cells.occupied(cell@.coordinates)
                },
            },
    {
        if !self.cells.contains(cell.coordinates) {
            return Err(HiveError::OutOfBoundsError);
        }
        if self.cells.get_cell(cell.coordinates).is_some() {
            return Err(HiveError::CellAlreadyExists);
        }
        let now: u64 = match now_seconds() {
            Ok(seconds) => seconds,
            Err(e) => {
                return Err(e);
            },
        };
        match self.cells.add_cell(cell) {
            Ok(()) => {},
            Err(e) => {
                return Err(e);
            },
        }
        self.touch_at(now);
        Ok(())
    }

    /// The cell at `coordinates`, if there is one.
    pub fn get_cell(&self, coordinates: (i32, i32)) -> (found: Option<&Cell>)
        requires
            self@.wf(),
        ensures
            match found {
                Some(cell) => self@.cells.cell_at(point(coordinates)) == Some(cell@),
                None => !self@.cells.occupied(point(coordinates)),
            },
    {
        self.cells.get_cell(coordinates)
    }

    /// Takes the cell at `coordinates` out of the grid of this hive, hands it
    /// to the caller and records the change.
    ///
    /// Fails with `CellNotFound` if no cell is there, and else with
    /// `SystemTimeError` if the clock cannot be read. A failed call leaves the
    /// hive as it was.
    pub fn remove_cell(&mut self, coordinates: (i32, i32)) -> (outcome: Result<Cell, HiveError>)
        requires
            old(self)@.wf(),
            old(self).metadata.version < u64::MAX,
        ensures
            final(self)@.wf(),
            match outcome {
                Ok(cell) => {
                    &&& old(self)@.cells.cell_at(point(coordinates)) == Some(cell@)
                    &&& final(self)@ == old(self)@.with_cells(
                        old(self)@.cells.without_cell(point(coordinates)),
                    ).touched(final(self)@.modified_at)
                },
                Err(e) => {
                    &&& final(self)@ == old(self)@
                    &&& e is CellNotFound || e is SystemTimeError
                    &&& e is CellNotFound <==> !old(self)@.cells.occupied(point(coordinates))
                },
            },
    {
        if self.cells.get_cell(coordinates).is_none() {
            return Err(HiveError::CellNotFound);
        }
        let now: u64 = match now_seconds() {
            Ok(seconds) => seconds,
            Err(e) => {
                return Err(e);
            },
        };
        match self.cells.remove_cell(coordinates) {
            Ok(cell) => {
                self.touch_at(now);
                Ok(cell)
            },
            Err(e) => Err(e),
        }
    }

    /// Sets the schema of this hive and records the change.
    ///
    /// Fails with `SystemTimeError`, and with nothing else, if the clock
    /// cannot be read, and then leaves the hive as it was.
    pub fn set_schema(&mut self, schema: Schema) -> (outcome: Result<(), HiveError>)
        requires
            old(self).metadata.version < u64::MAX,
        ensures
            old(self)@.wf() ==> final(self)@.wf(),
            match outcome {
                Ok(()) => final(self)@ == old(self)@.with_schema(schema).touched(
                    final(self)@.modified_at,
                ),
                Err(e) => final(self)@ == old(self)@ && e is SystemTimeError,
            },
    {
        let now: u64 = match now_seconds() {
            Ok(seconds) => seconds,
            Err(e) => {
                return Err(e);
            },
        };
        self.schema = Some(schema);
        self.touch_at(now);
        Ok(())
    }

    /// Adds `tag` at the end of the tags and records the change, unless the
    /// tag is among the tags already: then nothing changes.
    ///
    /// Fails with `SystemTimeError`, and with nothing else, if the tag is new
    /// and the clock cannot be read, and then leaves the hive as it was.
    pub fn add_tag(&mut self, tag: String) -> (outcome: Result<(), HiveError>)
        requires
            old(self).metadata.version < u64::MAX,
        ensures
            old(self)@.wf() ==> final(self)@.wf(),
            old(self)@.metadata.tags.contains(tag@) ==> outcome is Ok && final(self)@ == old(
                self,
            )@,
            match outcome {
                Ok(()) => !old(self)@.metadata.tags.contains(tag@) ==> final(self)@ == old(
                    self,
                )@.with_tags(old(self)@.metadata.tags.push(tag@)).touched(
                    final(self)@.modified_at,
                ),
                Err(e) => final(self)@ == old(self)@ && e is SystemTimeError,
            },
    {
        if crate::text::contains_text(&self.metadata.tags, tag.as_str()) {
            return Ok(());
        }
        let now: u64 = match now_seconds() {
            Ok(seconds) => seconds,
            Err(e) => {
                return Err(e);
            },
        };
        proof {
            lemma_text_list(self@.metadata.tags, tag@);
        }
        let _ = insert_text(&mut self.metadata.tags, tag);
        self.touch_at(now);
        Ok(())
    }

    /// Removes every occurrence of `tag` from the tags and records the
    /// change, unless the tag is not among the tags: then nothing changes.
    ///
    /// Fails with `SystemTimeError`, and with nothing else, if the tag is
    /// there and the clock cannot be read, and then leaves the hive as it was.
    pub fn remove_tag(&mut self, tag: &str) -> (outcome: Result<(), HiveError>)
        requires
            old(self).metadata.version < u64::MAX,
        ensures
            old(self)@.wf() ==> final(self)@.wf(),
            !old(self)@.metadata.tags.contains(tag@) ==> outcome is Ok && final(self)@ == old(
                self,
            )@,
            match outcome {
                Ok(()) => old(self)@.metadata.tags.contains(tag@) ==> final(self)@ == old(
                    self,
                )@.with_tags(without_text(old(self)@.metadata.tags, tag@)).touched(
                    final(self)@.modified_at,
                ),
                Err(e) => final(self)@ == old(self)@ && e is SystemTimeError,
            },
    {
        if !crate::text::contains_text(&self.metadata.tags, tag) {
            return Ok(());
        }
        let now: u64 = match now_seconds() {
            Ok(seconds) => seconds,
            Err(e) => {
                return Err(e);
            },
        };
        proof {
            lemma_text_list(self@.metadata.tags, tag@);
        }
        let _ = remove_text(&mut self.metadata.tags, tag);
        self.touch_at(now);
        Ok(())
    }

    /// Gives the property `key` the value `value` and records the change,
    /// also where the property had that value already.
    ///
    /// Fails with `SystemTimeError`, and with nothing else, if the clock
    /// cannot be read, and then leaves the hive as it was.
    pub fn set_property(&mut self, key: String, value: String) -> (outcome: Result<(), HiveError>)
        requires
            old(self).metadata.version < u64::MAX,
        ensures
            old(self)@.wf() ==> final(self)@.wf(),
            match outcome {
                Ok(()) => final(self)@ == old(self)@.with_properties(
                    old(self)@.metadata.properties.insert(key@, value@),
                ).touched(final(self)@.modified_at),
                Err(e) => final(self)@ == old(self)@ && e is SystemTimeError,
            },
    {
        let now: u64 = match now_seconds() {
            Ok(seconds) => seconds,
            Err(e) => {
                return Err(e);
            },
        };
        let _ = self.metadata.properties.insert(key, value);
        self.touch_at(now);
        Ok(())
    }

    /// The value of the property `key`, if it has one.
    pub fn get_property(&self, key: &str) -> (value: Option<&String>)
        ensures
            match value {
                Some(v) => self@.metadata.properties.contains_key(key@)
                    && self@.metadata.properties[key@] == v@,
                None => !self@.metadata.properties.contains_key(key@),
            },
    {
        self.metadata.properties.get(key)
    }

    /// Removes the property `key` and records the change, unless there is no
    /// such property: then nothing changes.
    ///
    /// Fails with `SystemTimeError`, and with nothing else, if the property is
    /// there and the clock cannot be read, and then leaves the hive as it was.
    pub fn remove_property(&mut self, key: &str) -> (outcome: Result<(), HiveError>)
        requires
            old(self).metadata.version < u64::MAX,
        ensures
            old(self)@.wf() ==> final(self)@.wf(),
            !old(self)@.metadata.properties.contains_key(key@) ==> outcome is Ok && final(self)@
                == old(self)@,
            match outcome {
                Ok(()) => old(self)@.metadata.properties.contains_key(key@) ==> final(self)@
                    == old(self)@.with_properties(
                    old(self)@.metadata.properties.remove(key@),
                ).touched(final(self)@.modified_at),
                Err(e) => final(self)@ == old(self)@ && e is SystemTimeError,
            },
    {
        if !self.metadata.properties.contains_key(key) {
            return Ok(());
        }
        let now: u64 = match now_seconds() {
            Ok(seconds) => seconds,
            Err(e) => {
                return Err(e);
            },
        };
        let _ = self.metadata.properties.remove(key);
        self.touch_at(now);
        Ok(())
    }

    /// The number of cells in this hive.
    pub fn cell_count(&self) -> (count: usize)
        ensures
            count == self@.cells.cells.len(),
    {
        self.cells.cell_count()
    }

    /// The cells of this hive that carry `tag`, in the order in which they
    /// were added.
    pub fn find_cells_by_tag(&self, tag: &str) -> (cells: Vec<&Cell>)
        ensures
            borrowed_views(cells@) == self@.cells.tagged(tag@),
    {
        self.cells.find_by_tag(tag)
    }

    /// Saves this hive to its storage path. Nothing that stores hives is
    /// attached, so there is nothing to do, and this succeeds.
    pub fn save(&self) -> (outcome: Result<(), HiveError>)
        ensures
            outcome is Ok,
    {
        Ok(())
    }

    /// Loads a hive from `path`. Nothing that stores hives is attached, so
    /// this fails with `NotImplemented`.
    pub fn load(path: std::path::PathBuf) -> (outcome: Result<Hive, HiveError>)
        ensures
            outcome matches Err(e) && e is NotImplemented,
    {
        Err(HiveError::NotImplemented)
    }
}

/// The hives by their ids.
#[derive(Debug)]
pub struct HiveManager {
    /// The hives, in the order in which they were created, no id twice.
    hives: Vec<Hive>,
    /// The directory under which the hives are stored.
    base_path: std::path::PathBuf,
}

/// A manager as mathematical values: its hives in the order in which they
/// were created, and the directory under which they are stored.
#[verifier::ext_equal]
pub struct ManagerView {
    pub hives: Seq<HiveView>,
    pub base_path: std::path::PathBuf,
}

/// The views of a run of hives.
pub open spec fn hive_views(hives: Seq<Hive>) -> Seq<HiveView> {
    hives.map_values(|h: Hive| h@)
}

/// Id and name of each of the hives, in their order.
pub open spec fn listing(hives: Seq<HiveView>) -> Seq<(Seq<char>, Seq<char>)> {
    hives.map_values(|h: HiveView| (h.id, h.name))
}

/// The texts of a run of pairs of strings.
pub open spec fn pair_texts(pairs: Seq<(String, String)>) -> Seq<(Seq<char>, Seq<char>)> {
    pairs.map_values(|p: (String, String)| (p.0@, p.1@))
}

impl View for HiveManager {
    type V = ManagerView;

    closed spec fn view(&self) -> ManagerView {
        ManagerView { hives: hive_views(self.hives@), base_path: self.base_path }
    }
}

impl ManagerView {
    /// Whether a hive has the id `id`.
    pub open spec fn has_id(self, id: Seq<char>) -> bool {
        exists|i: int| 0 <= i < self.hives.len() && (#[trigger] self.hives[i]).id == id
    }

    /// Where in the order of the hives the hive with the id `id` stands.
    pub open spec fn position(self, id: Seq<char>) -> int {
        choose|i: int| 0 <= i < self.hives.len() && (#[trigger] self.hives[i]).id == id
    }

    /// The hive with the id `id`, if there is one.
    pub open spec fn hive(self, id: Seq<char>) -> Option<HiveView> {
        if self.has_id(id) {
            Some(self.hives[self.position(id)])
        } else {
            None
        }
    }

    /// Whether `i` is the first position in `ids` of an id that no hive has.
    pub open spec fn first_free(self, ids: Seq<Seq<char>>, i: int) -> bool {
        &&& 0 <= i < ids.len()
        &&& !self.has_id(ids[i])
        &&& forall|k: int| 0 <= k < i ==> self.has_id(#[trigger] ids[k])
    }

    /// Whether `i` is the first position at which a hive named `name` stands.
    pub open spec fn first_named(self, name: Seq<char>, i: int) -> bool {
        &&& 0 <= i < self.hives.len()
        &&& self.hives[i].name == name
        &&& forall|k: int| 0 <= k < i ==> (#[trigger] self.hives[k]).name != name
    }

    /// What holds of every manager: each hive is well formed, and no two
    /// hives share an id.
    pub open spec fn wf(self) -> bool {
        &&& forall|i: int| 0 <= i < self.hives.len() ==> (#[trigger] self.hives[i]).wf()
        &&& forall|i: int, j: int|
            0 <= i < self.hives.len() && 0 <= j < self.hives.len() && i != j ==> (
            #[trigger] self.hives[i]).id != (#[trigger] self.hives[j]).id
    }

    /// This manager with `hive` in place of the hive that has the id `id`.
    pub open spec fn with_hive_at(self, id: Seq<char>, hive: HiveView) -> ManagerView {
        ManagerView { hives: self.hives.update(self.position(id), hive), ..self }
    }

    /// This manager with `hive` after the hives that it has.
    pub open spec fn with_hive(self, hive: HiveView) -> ManagerView {
        ManagerView { hives: self.hives.push(hive), ..self }
    }

    /// This manager without the hive that has the id `id`.
    pub open spec fn without_hive(self, id: Seq<char>) -> ManagerView {
        ManagerView { hives: self.hives.remove(self.position(id)), ..self }
    }
}

/// Where among `hives` the hive with the id `id` stands, if there is one.
fn find_hive(hives: &Vec<Hive>, id: &String) -> (found: Option<usize>)
    ensures
        match found {
            Some(i) => i < hives@.len() && hives@[i as int].id@ == id@,
            None => forall|k: int| 0 <= k < hives@.len() ==> (#[trigger] hives@[k]).id@ != id@,
        },
{
    let mut i: usize = 0;
    while i < hives.len()
        invariant
            i <= hives@.len(),
            forall|k: int| 0 <= k < i ==> (#[trigger] hives@[k]).id@ != id@,
        decreases hives@.len() - i,
    {
        if hives[i].id == *id {
            return Some(i);
        }
        i += 1;
    }
    None
}

/// The error for a manager in which no drawn id was free.
fn no_free_id() -> (error: HiveError)
    ensures
        error is GenericError,
{
    HiveError::GenericError("no free hive id was found".to_owned())
}

impl HiveManager {
    /// A manager without hives, which stores hives under `base_path`.
    pub fn new(base_path: std::path::PathBuf) -> (manager: HiveManager)
        ensures
            manager@.wf(),
            manager@ == (ManagerView { hives: Seq::empty(), base_path }),
    {
        let manager = HiveManager { hives: Vec::new(), base_path };
        assert(manager@.hives =~= Seq::empty());
        manager
    }

    /// The directory under which the hives are stored.
    pub fn base_path(&self) -> (path: &std::path::PathBuf)
        ensures
            *path == self@.base_path,
    {
        &self.base_path
    }

    /// Whether a hive has the id `id`.
    pub fn contains(&self, id: &str) -> (present: bool)
        ensures
            present == self@.has_id(id@),
    {
        let wanted: String = id.to_owned();
        match find_hive(&self.hives, &wanted) {
            Some(i) => {
                assert(self@.hives[i as int].id == id@);
                true
            },
            None => {
                assert(!self@.has_id(id@)) by {
                    if self@.has_id(id@) {
                        let k = self@.position(id@);
                        assert(self.hives@[k].id@ == id@);
                    }
                }
                false
            },
        }
    }

    /// Creates a hive and keeps it under a fresh id, which is returned.
    ///
    /// The hive is to be stored in the directory under the base path that is
    /// named after the hive, with `_` for each character of the name that is
    /// not alphanumeric, `-` or `_`; to make that directory is left to the
    /// caller. `HIVE_ID_ATTEMPTS` ids are drawn, and the hive gets the first
    /// of them that no hive has.
    ///
    /// Fails with `SystemTimeError` if the clock cannot be read, and with
    /// `GenericError` if every drawn id is taken. A failed call leaves the
    /// manager as it was. `create_hive_from` is the part that decides once
    /// time and ids are there.
    pub fn create_hive(
        &mut self,
        name: String,
        description: String,
        owner: String,
        dimensions: (usize, usize),
    ) -> (outcome: Result<String, HiveError>)
        requires
            old(self)@.wf(),
        ensures
            final(self)@.wf(),
            match outcome {
                Ok(id) => {
                    &&& is_hive_id(id@)
                    &&& !old(self)@.has_id(id@)
                    &&& final(self)@.hives.len() == old(self)@.hives.len() + 1
                    &&& final(self)@ == old(self)@.with_hive(
                        HiveView::initial(
                            id@,
                            name@,
                            description@,
                            owner@,
                            joined_path(old(self)@.base_path, sanitized(name@)),
                            (dimensions.0 as nat, dimensions.1 as nat),
                            final(self)@.hives.last().created_at,
                        ),
                    )
                },
                Err(e) => {
                    &&& final(self)@ == old(self)@
                    &&& e is SystemTimeError || e is GenericError
                },
            },
    {
        let directory: String = sanitize_name(name.as_str());
        let hive_path: std::path::PathBuf = join_path(&self.base_path, directory.as_str());
        let now: u64 = match now_seconds() {
            Ok(seconds) => seconds,
            Err(e) => {
                return Err(e);
            },
        };
        let mut ids: Vec<String> = Vec::new();
        while ids.len() < HIVE_ID_ATTEMPTS
            invariant
                ids@.len() <= HIVE_ID_ATTEMPTS,
                forall|k: int| 0 <= k < ids@.len() ==> is_hive_id((#[trigger] ids@[k])@),
            decreases HIVE_ID_ATTEMPTS - ids@.len(),
        {
            let id: String = generate_hive_id();
            ids.push(id);
        }
        let outcome = self.create_hive_from(
            name,
            description,
            owner,
            hive_path,
            dimensions,
            now,
            ids,
        );
        proof {
            if outcome is Ok {
                let i = choose|i: int|
                    old(self)@.first_free(texts(ids@), i) && outcome->Ok_0@ == texts(ids@)[i];
                assert(texts(ids@)[i] == ids@[i]@);
            }
        }
        outcome
    }

    /// Creates a hive at time `now`, to be stored at `storage_path`, and keeps
    /// it under the first of the ids `ids` that no hive has. That id is
    /// returned.
    ///
    /// Fails with `GenericError`, and leaves the manager as it was, exactly if
    /// every one of the ids is taken.
    pub fn create_hive_from(
        &mut self,
        name: String,
        description: String,
        owner: String,
        storage_path: std::path::PathBuf,
        dimensions: (usize, usize),
        now: u64,
        ids: Vec<String>,
    ) -> (outcome: Result<String, HiveError>)
        requires
            old(self)@.wf(),
        ensures
            final(self)@.wf(),
            match outcome {
                Ok(id) => {
                    &&& exists|i: int|
                        old(self)@.first_free(texts(ids@), i) && id@ == texts(ids@)[i]
                    &&& final(self)@ == old(self)@.with_hive(
                        HiveView::initial(
                            id@,
                            name@,
                            description@,
                            owner@,
                            storage_path,
                            (dimensions.0 as nat, dimensions.1 as nat),
                            now as nat,
                        ),
                    )
                },
                Err(e) => {
                    &&& e is GenericError
                    &&& forall|k: int|
                        0 <= k < ids@.len() ==> old(self)@.has_id(#[trigger] texts(ids@)[k])
                    &&& final(self)@ == old(self)@
                },
            },
    {
        let mut i: usize = 0;
        while i < ids.len()
            invariant
                i <= ids@.len(),
                self@ == old(self)@,
                self@.wf(),
                forall|k: int| 0 <= k < i ==> self@.has_id(#[trigger] texts(ids@)[k]),
            decreases ids@.len() - i,
        {
            assert(texts(ids@)[i as int] == ids@[i as int]@);
            if !self.contains(ids[i].as_str()) {
                let id: String = ids[i].clone();
                let hive: Hive = Hive::assemble(
                    id.clone(),
                    name,
                    description,
                    owner,
                    storage_path,
                    dimensions,
                    now,
                );
                assert(old(self)@.first_free(texts(ids@), i as int));
                self.register(hive);
                return Ok(id);
            }
            i += 1;
        }
        Err(no_free_id())
    }

    /// Keeps `hive` after the hives that the manager has.
    pub fn register(&mut self, hive: Hive)
        requires
            old(self)@.wf(),
            hive@.wf(),
            !old(self)@.has_id(hive@.id),
        ensures
            final(self)@.wf(),
            final(self)@ == old(self)@.with_hive(hive@),
            final(self)@.has_id(hive@.id),
    {
        let ghost before: ManagerView = self@;
        self.hives.push(hive);
        proof {
            assert(self@.hives =~= before.hives.push(hive@));
            assert forall|i: int| 0 <= i < self@.hives.len() implies (
            #[trigger] self@.hives[i]).wf() by {
                if i < before.hives.len() {
                    assert(before.hives[i].wf());
                }
            }
            assert forall|i: int, j: int|
                0 <= i < self@.hives.len() && 0 <= j < self@.hives.len() && i != j implies (
            #[trigger] self@.hives[i]).id != (#[trigger] self@.hives[j]).id by {
                if i < before.hives.len() && j < before.hives.len() {
                    assert(before.hives[i].id != before.hives[j].id);
                } else if i < before.hives.len() {
                    assert(before.hives[i].id != hive@.id);
                } else {
                    assert(before.hives[j].id != hive@.id);
                }
            }
            assert(self@.hives[before.hives.len() as int].id == hive@.id);
        }
    }

    /// The hive with the id `id`, if there is one.
    pub fn get_hive(&self, id: &str) -> (found: Option<&Hive>)
        requires
            self@.wf(),
        ensures
            match found {
                Some(hive) => self@.hive(id@) == Some(hive@) && hive@.wf(),
                None => !self@.has_id(id@),
            },
    {
        let wanted: String = id.to_owned();
        match find_hive(&self.hives, &wanted) {
            Some(i) => {
                proof {
                    assert(self@.hives[i as int].id == id@);
                    let k = self@.position(id@);
                    assert(self@.hives[k].id == self@.hives[i as int].id);
                    assert(self@.hives[i as int].wf());
                }
                Some(&self.hives[i])
            },
            None => {
                assert(!self@.has_id(id@)) by {
                    if self@.has_id(id@) {
                        let k = self@.position(id@);
                        assert(self.hives@[k].id@ == id@);
                    }
                }
                None
            },
        }
    }

    /// The first hive in the order of creation that is named `name`, if there
    /// is one. Names need not be unique.
    pub fn get_hive_by_name(&self, name: &str) -> (found: Option<&Hive>)
        ensures
            match found {
                Some(hive) => exists|i: int|
                    self@.first_named(name@, i) && hive@ == self@.hives[i],
                None => forall|i: int|
                    0 <= i < self@.hives.len() ==> (#[trigger] self@.hives[i]).name != name@,
            },
    {
        let wanted: String = name.to_owned();
        let mut i: usize = 0;
        while i < self.hives.len()
            invariant
                i <= self.hives@.len(),
                wanted@ == name@,
                forall|k: int| 0 <= k < i ==> (#[trigger] self@.hives[k]).name != name@,
            decreases self.hives@.len() - i,
        {
            if self.hives[i].name == wanted {
                assert(self@.hives[i as int].name == name@);
                assert(self@.first_named(name@, i as int));
                return Some(&self.hives[i]);
            }
            assert(self@.hives[i as int].name != name@);
            i += 1;
        }
        None
    }

    /// The hive with the id `id`, if there is one, to be changed in place.
    ///
    /// The manager stays well formed as long as the hive stays well formed
    /// and keeps its id.
    pub fn get_hive_mut(&mut self, id: &str) -> (found: Option<&mut Hive>)
        requires
            old(self)@.wf(),
        ensures
            match found {
                Some(hive) => {
                    &&& old(self)@.hive(id@) == Some(hive@)
                    &&& hive@.wf()
                    &&& final(self)@ == old(self)@.with_hive_at(id@, final(hive)@)
                },
                None => !old(self)@.has_id(id@) && final(self)@ == old(self)@,
            },
    {
        let wanted: String = id.to_owned();
        match find_hive(&self.hives, &wanted) {
            Some(i) => {
                proof {
                    assert(self@.hives[i as int].id == id@);
                    let k = self@.position(id@);
                    assert(self@.hives[k].id == self@.hives[i as int].id);
                    assert(self@.hives[i as int].wf());
                }
                let hive: &mut Hive = &mut self.hives[i];
                proof {
                    assert(hive_views(old(self).hives@.update(i as int, *final(hive)))
                        =~= hive_views(old(self).hives@).update(i as int, final(hive)@));
                }
                Some(hive)
            },
            None => {
                assert(!self@.has_id(id@)) by {
                    if self@.has_id(id@) {
                        let k = self@.position(id@);
                        assert(self.hives@[k].id@ == id@);
                    }
                }
                None
            },
        }
    }

    /// Takes the hive with the id `id` out of the manager and hands it to the
    /// caller, who may then remove what is stored at its storage path.
    ///
    /// Fails with `HiveNotFound`, and leaves the manager as it was, if there
    /// is no such hive. The manager is the one owner of its hives, and a call
    /// can only be made while no hive is borrowed from the manager, so nothing
    /// else can hold the hive that is taken out.
    pub fn remove_hive(&mut self, id: &str) -> (outcome: Result<Hive, HiveError>)
        requires
            old(self)@.wf(),
        ensures
            final(self)@.wf(),
            match outcome {
                Ok(hive) => {
                    &&& old(self)@.hive(id@) == Some(hive@)
                    &&& hive@.wf()
                    &&& final(self)@ == old(self)@.without_hive(id@)
                    &&& !final(self)@.has_id(id@)
                },
                Err(e) => {
                    &&& e is HiveNotFound
                    &&& !old(self)@.has_id(id@)
                    &&& final(self)@ == old(self)@
                },
            },
    {
        let wanted: String = id.to_owned();
        let ghost before: ManagerView = self@;
        match find_hive(&self.hives, &wanted) {
            Some(i) => {
                proof {
                    assert(before.hives[i as int].id == id@);
                    let k = before.position(id@);
                    assert(before.hives[k].id == before.hives[i as int].id);
                    assert(before.hives[i as int].wf());
                }
                let hive: Hive = self.hives.remove(i);
                proof {
                    let rest = before.hives.remove(i as int);
                    assert(self@.hives =~= rest);
                    assert forall|a: int| 0 <= a < rest.len() implies (#[trigger] rest[a]).wf() by {
                        let fa = if a < i {
                            a
                        } else {
                            a + 1
                        };
                        assert(before.hives[fa].wf());
                    }
                    assert forall|a: int| 0 <= a < rest.len() implies (#[trigger] rest[a]).id
                        != id@ by {
                        let fa = if a < i {
                            a
                        } else {
                            a + 1
                        };
                        assert(before.hives[fa].id != before.hives[i as int].id);
                    }
                    assert forall|a: int, b: int|
                        0 <= a < rest.len() && 0 <= b < rest.len() && a != b implies (
                    #[trigger] rest[a]).id != (#[trigger] rest[b]).id by {
                        let fa = if a < i {
                            a
                        } else {
                            a + 1
                        };
                        let fb = if b < i {
                            b
                        } else {
                            b + 1
                        };
                        assert(before.hives[fa].id != before.hives[fb].id);
                    }
                }
                Ok(hive)
            },
            None => {
                assert(!self@.has_id(id@)) by {
                    if self@.has_id(id@) {
                        let k = self@.position(id@);
                        assert(self.hives@[k].id@ == id@);
                    }
                }
                Err(HiveError::HiveNotFound)
            },
        }
    }

    /// Deletes the hive with the id `id`. What is stored at its storage path
    /// stays; a caller who wants it gone takes the hive out with `remove_hive`
    /// and removes it.
    ///
    /// Fails with `HiveNotFound`, and leaves the manager as it was, if there
    /// is no such hive.
    pub fn delete_hive(&mut self, id: &str) -> (outcome: Result<(), HiveError>)
        requires
            old(self)@.wf(),
        ensures
            final(self)@.wf(),
            match outcome {
                Ok(()) => {
                    &&& old(self)@.has_id(id@)
                    &&& final(self)@ == old(self)@.without_hive(id@)
                    &&& !final(self)@.has_id(id@)
                },
                Err(e) => {
                    &&& e is HiveNotFound
                    &&& !old(self)@.has_id(id@)
                    &&& final(self)@ == old(self)@
                },
            },
    {
        match self.remove_hive(id) {
            Ok(_) => Ok(()),
            Err(e) => Err(e),
        }
    }

    /// Id and name of each hive, in the order of creation.
    pub fn list_hives(&self) -> (hives: Vec<(String, String)>)
        ensures
            pair_texts(hives@) == listing(self@.hives),
    {
        let mut hives: Vec<(String, String)> = Vec::new();
        let mut i: usize = 0;
        while i < self.hives.len()
            invariant
                i <= self.hives@.len(),
                pair_texts(hives@) == listing(self@.hives.take(i as int)),
            decreases self.hives@.len() - i,
        {
            let ghost earlier: Seq<(String, String)> = hives@;
            let pair: (String, String) = (self.hives[i].id.clone(), self.hives[i].name.clone());
            hives.push(pair);
            proof {
                assert(pair_texts(hives@) =~= pair_texts(earlier).push((pair.0@, pair.1@)));
                assert(self@.hives.take(i + 1) =~= self@.hives.take(i as int).push(
                    self@.hives[i as int],
                ));
                assert(listing(self@.hives.take(i + 1)) =~= listing(
                    self@.hives.take(i as int),
                ).push((self@.hives[i as int].id, self@.hives[i as int].name)));
            }
            i += 1;
        }
        assert(self@.hives.take(i as int) =~= self@.hives);
        hives
    }

    /// Saves every hive. Saving a hive cannot fail, so this succeeds.
    pub fn save_all(&self) -> (outcome: Result<(), HiveError>)
        ensures
            outcome is Ok,
    {
        let mut i: usize = 0;
        while i < self.hives.len()
            invariant
                i <= self.hives@.len(),
            decreases self.hives@.len() - i,
        {
            match self.hives[i].save() {
                Ok(()) => {},
                Err(e) => {
                    return Err(e);
                },
            }
            i += 1;
        }
        Ok(())
    }

    /// Loads the hives that are stored under the base path. Nothing that
    /// stores hives is attached, so there is nothing to load, and this
    /// succeeds and leaves the manager as it was.
    pub fn load_all(&mut self) -> (outcome: Result<(), HiveError>)
        ensures
            outcome is Ok,
            *final(self) == *old(self),
    {
        Ok(())
    }
}

/// A manager stays well formed where a hive is replaced by a well-formed one
/// with the same id, whatever else has changed about it.
pub proof fn lemma_with_hive_at(manager: ManagerView, id: Seq<char>, hive: HiveView)
    requires
        manager.wf(),
        manager.has_id(id),
        hive.id == id,
        hive.wf(),
    ensures
        manager.with_hive_at(id, hive).wf(),
        manager.with_hive_at(id, hive).hive(id) == Some(hive),
        forall|other: Seq<char>| manager.with_hive_at(id, hive).has_id(other) <==> manager.has_id(
            other,
        ),
{
    let after = manager.with_hive_at(id, hive);
    let at = manager.position(id);
    assert(0 <= at < manager.hives.len() && manager.hives[at].id == id);
    assert forall|i: int| 0 <= i < after.hives.len() implies (#[trigger] after.hives[i]).id
        == manager.hives[i].id && after.hives[i].wf() by {
        assert(manager.hives[i].wf());
    }
    assert forall|i: int, j: int|
        0 <= i < after.hives.len() && 0 <= j < after.hives.len() && i != j implies (
    #[trigger] after.hives[i]).id != (#[trigger] after.hives[j]).id by {
        assert(manager.hives[i].id != manager.hives[j].id);
    }
    assert forall|other: Seq<char>| after.has_id(other) <==> manager.has_id(other) by {
        if after.has_id(other) {
            let i = after.position(other);
            assert(manager.hives[i].id == other);
        }
        if manager.has_id(other) {
            let i = manager.position(other);
            assert(after.hives[i].id == other);
        }
    }
    let k = after.position(id);
    assert(after.hives[at].id == id);
    assert(after.hives[k].id == id);
    if k != at {
        assert(after.hives[k].id != after.hives[at].id);
    }
}

/// A hive that was created is listed under its id, and after it was deleted
/// no hive is listed under that id.
pub proof fn lemma_listed_until_deleted(manager: ManagerView, hive: HiveView)
    requires
        manager.wf(),
        hive.wf(),
        !manager.has_id(hive.id),
    ensures
        manager.with_hive(hive).wf(),
        manager.with_hive(hive).has_id(hive.id),
        listing(manager.with_hive(hive).hives).contains((hive.id, hive.name)),
        manager.with_hive(hive).without_hive(hive.id) == manager,
        forall|name: Seq<char>|
            !listing(manager.with_hive(hive).without_hive(hive.id).hives).contains(
                (hive.id, name),
            ),
{
    let grown = manager.with_hive(hive);
    let n = manager.hives.len() as int;
    assert(grown.hives[n].id == hive.id);
    assert forall|i: int| 0 <= i < grown.hives.len() implies (#[trigger] grown.hives[i]).wf() by {
        if i < n {
            assert(manager.hives[i].wf());
        }
    }
    assert forall|i: int, j: int|
        0 <= i < grown.hives.len() && 0 <= j < grown.hives.len() && i != j implies (
    #[trigger] grown.hives[i]).id != (#[trigger] grown.hives[j]).id by {
        if i < n && j < n {
            assert(manager.hives[i].id != manager.hives[j].id);
        } else if i < n {
            assert(manager.hives[i].id != hive.id);
        } else {
            assert(manager.hives[j].id != hive.id);
        }
    }
    assert(listing(grown.hives)[n] == (hive.id, hive.name));
    let k = grown.position(hive.id);
    assert(k == n) by {
        if k != n {
            assert(grown.hives[k].id != grown.hives[n].id);
        }
    }
    assert(grown.hives.remove(n) =~= manager.hives);
    assert forall|name: Seq<char>| !listing(manager.hives).contains((hive.id, name)) by {
        if listing(manager.hives).contains((hive.id, name)) {
            let i = choose|i: int|
                0 <= i < listing(manager.hives).len() && listing(manager.hives)[i] == (
                    hive.id,
                    name,
                );
            assert(manager.hives[i].id == hive.id);
        }
    }
}

/// Each recorded change raises the version of a hive by exactly one, and
/// leaves everything but version and time of change as it was.
pub proof fn lemma_touch_advances(hive: HiveView, now: nat)
    ensures
        hive.touched(now).metadata.version == hive.metadata.version + 1,
        hive.touched(now).metadata.version > hive.metadata.version,
        hive.touched(now).modified_at == now,
        hive.touched(now).cells == hive.cells,
        hive.touched(now).metadata.tags == hive.metadata.tags,
        hive.touched(now).metadata.properties == hive.metadata.properties,
        hive.wf() ==> hive.touched(now).wf(),
{
}

} // verus!

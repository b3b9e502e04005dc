//! Packages: one or more decks plus media, packed into a single archive
//! containing the collection database, the media manifest, and one entry per
//! medium named by its archive-local numeric key.

use crate::apkg_schema::{
    apkg_schema, card_insert_sql, col_conf_json, col_dconf_json, col_insert_sql, note_insert_sql,
};
use crate::clock::now_millis;
use crate::coljson::{decks_json, manifest_json, models_json};
use crate::deck::Deck;
use crate::error::Error;
use crate::snapshot::{build_snapshot, id_range_ok, notes_writable, snapshot_err_ok, Snapshot};
use crate::sqlio::{db_execute_batch, db_insert_card, db_insert_col, db_insert_note, db_open, db_serialize};
use crate::text::{dec_of, dec_string_u64};
use crate::ziparch::{zip_finish, zip_new, zip_start_file, zip_write_all};
use vstd::prelude::*;

verus! {

/// Where a medium's bytes come from: a filesystem path, read by the caller
/// at write time, or an in-memory buffer with an explicit logical filename.
#[derive(Clone, Debug)]
pub enum MediaFile {
    Path(String),
    Bytes(Vec<u8>, String),
}

/// The characters of `p` after its last slash; empty when `p` is empty or
/// ends in a slash.
pub open spec fn base_name_of(p: Seq<char>) -> Seq<char>
    decreases p.len(),
{
    if p.len() == 0 {
        Seq::empty()
    } else if p.last() == '/' {
        Seq::empty()
    } else {
        base_name_of(p.drop_last()) + seq![p.last()]
    }
}

/// The logical filename a medium contributes to the manifest: the base
/// filename of a path, or an in-memory medium's own name.
pub open spec fn media_name_of(m: MediaFile) -> Seq<char> {
    match m {
        MediaFile::Path(p) => base_name_of(p@),
        MediaFile::Bytes(b, n) => n@,
    }
}

/// A path-based medium must have a non-empty base filename.
pub open spec fn media_name_ok(m: MediaFile) -> bool {
    match m {
        MediaFile::Path(p) => base_name_of(p@).len() > 0,
        MediaFile::Bytes(b, n) => true,
    }
}

/// Every path-based medium of the package has a base filename.
pub open spec fn media_names_ok(media: Seq<MediaFile>) -> bool {
    forall|i: int| 0 <= i < media.len() ==> media_name_ok(#[trigger] media[i])
}

/// The bytes a medium contributes to the archive: the caller-supplied file
/// contents for a path-based medium, or an in-memory medium's own buffer.
pub open spec fn media_bytes_of(m: MediaFile, data: Vec<u8>) -> Seq<u8> {
    match m {
        MediaFile::Path(p) => data@,
        MediaFile::Bytes(b, n) => b@,
    }
}

/// The media entries of the archive, in order: one per medium, named by its
/// decimal index and carrying its bytes.
pub open spec fn pack_media_entries(media: Seq<MediaFile>, path_data: Seq<Vec<u8>>) -> Seq<
    (Seq<char>, Seq<u8>),
> {
    Seq::new(media.len(), |i: int| (dec_of(i as nat), media_bytes_of(media[i], path_data[i])))
}

/// The manifest names of the package's media, in order.
pub open spec fn spec_media_names(media: Seq<MediaFile>) -> Seq<Seq<char>> {
    media.map_values(|m: MediaFile| media_name_of(m))
}

/// The bytes of the archive's manifest entry: the UTF-8 encoding of the
/// manifest text for the package's media names.
pub open spec fn spec_manifest_bytes(media: Seq<MediaFile>) -> Seq<u8> {
    vstd::utf8::encode_utf8(crate::coljson::spec_manifest_json(spec_media_names(media)))
}

/// Extracts the base filename of a path: the characters after its last
/// slash.
pub fn base_name(path: &str) -> (r: String)
    ensures
        r@ == base_name_of(path@),
{
    let n = path.unicode_len();
    proof {
        assert(path@.subrange(0, n as int) =~= path@);
        assert(path@.subrange(n as int, n as int) =~= Seq::<char>::empty());
        assert(base_name_of(path@) + Seq::<char>::empty() =~= base_name_of(path@));
    }
    let mut i: usize = n;
    while i > 0
        invariant
            n == path@.len(),
            0 <= i <= n,
            base_name_of(path@) == base_name_of(path@.subrange(0, i as int)) + path@.subrange(
                i as int,
                n as int,
            ),
        ensures
            base_name_of(path@) == base_name_of(path@.subrange(0, i as int)) + path@.subrange(
                i as int,
                n as int,
            ),
            i == 0 || path@[i - 1] == '/',
        decreases i,
    {
        if path.get_char(i - 1) == '/' {
            break ;
        }
        proof {
            assert(path@.subrange(0, i as int).last() == path@[i - 1]);
            assert(path@.subrange(0, i as int).drop_last() =~= path@.subrange(0, i - 1));
            assert(base_name_of(path@.subrange(0, i as int)) + path@.subrange(i as int, n as int)
                =~= base_name_of(path@.subrange(0, i - 1)) + path@.subrange(i - 1, n as int));
        }
        i -= 1;
    }
    proof {
        if i == 0 {
            assert(path@.subrange(0, 0) =~= Seq::<char>::empty());
            assert(base_name_of(Seq::empty()) + path@.subrange(0, n as int) =~= path@.subrange(
                0,
                n as int,
            ));
        } else {
            assert(path@.subrange(0, i as int).last() == '/');
        }
        assert(base_name_of(path@) =~= path@.subrange(i as int, n as int));
    }
    path.substring_char(i, n).to_owned()
}

impl MediaFile {
    /// A medium read from a filesystem path.
    pub fn new_from_file(path: &str) -> (m: MediaFile)
        ensures
            m matches MediaFile::Path(p) && p@ == path@,
    {
        MediaFile::Path(path.to_owned())
    }

    /// A medium read from a filesystem path, by string.
    pub fn new_from_file_path(path: &str) -> (r: Result<MediaFile, Error>)
        ensures
            r matches Ok(m) && m matches MediaFile::Path(p) && p@ == path@,
    {
        Ok(MediaFile::Path(path.to_owned()))
    }

    /// A medium held in memory, with its logical filename.
    pub fn new_from_bytes(bytes: &[u8], name: &str) -> (m: MediaFile)
        ensures
            m matches MediaFile::Bytes(b, n) && b@ == bytes@ && n@ == name@,
    {
        MediaFile::Bytes(vstd::slice::slice_to_vec(bytes), name.to_owned())
    }
}

/// Computes the manifest name of every medium, failing on the first
/// path-based medium without a base filename.
pub(crate) fn media_entry_names(media: &Vec<MediaFile>) -> (r: Result<Vec<String>, Error>)
    ensures
        (r is Ok) <==> media_names_ok(media@),
        r matches Ok(v) ==> {
            &&& v@.len() == media@.len()
            &&& forall|i: int|
                0 <= i < media@.len() ==> (#[trigger] v@[i])@ == media_name_of(media@[i])
        },
        r matches Err(e) ==> e is MalformedMediaPath,
{
    let mut names: Vec<String> = Vec::new();
    let mut i: usize = 0;
    while i < media.len()
        invariant
            0 <= i <= media@.len(),
            names@.len() == i,
            forall|k: int| 0 <= k < i ==> media_name_ok(#[trigger] media@[k]),
            forall|k: int|
                0 <= k < i ==> (#[trigger] names@[k])@ == media_name_of(media@[k]),
        decreases media@.len() - i,
    {
        match &media[i] {
            MediaFile::Path(p) => {
                let name = base_name(p.as_str());
                if name.as_str().is_empty() {
                    assert(!media_name_ok(media@[i as int]));
                    return Err(Error::MalformedMediaPath(p.clone()));
                }
                names.push(name);
            },
            MediaFile::Bytes(b, n) => {
                names.push(n.clone());
            },
        }
        i += 1;
    }
    Ok(names)
}

/// Runs the snapshot through the embedded database: schema, configuration
/// row with the serialized catalogs, one statement per note and card row,
/// and a final serialization to the single-file byte form. Every statement
/// text and every bound value is fixed here and by the snapshot's own
/// contract; of the engine only the class of its errors is stated.
fn collection_db_bytes(s: &Snapshot) -> (r: Result<Vec<u8>, Error>)
    ensures
        r matches Err(e) ==> e is Database,
{
    let conn = match db_open() {
        Ok(c) => c,
        Err(e) => {
            return Err(e);
        },
    };
    match db_execute_batch(&conn, apkg_schema()) {
        Ok(()) => {},
        Err(e) => {
            return Err(e);
        },
    }
    let models_text = models_json(&s.models);
    let decks_text = decks_json(&s.decks);
    match db_insert_col(
        &conn,
        col_insert_sql(),
        col_conf_json(),
        models_text.as_str(),
        decks_text.as_str(),
        col_dconf_json(),
        "{}",
    ) {
        Ok(()) => {},
        Err(e) => {
            return Err(e);
        },
    }
    let mut i: usize = 0;
    while i < s.notes.len()
        decreases s.notes@.len() - i,
    {
        let row = &s.notes[i];
        let sfld: i64 = if row.sfld {
            1
        } else {
            0
        };
        match db_insert_note(
            &conn,
            note_insert_sql(),
            row.id,
            row.guid.as_str(),
            row.mid,
            row.mod_secs,
            row.tags.as_str(),
            row.flds.as_str(),
            sfld,
        ) {
            Ok(()) => {},
            Err(e) => {
                return Err(e);
            },
        }
        i += 1;
    }
    let mut i: usize = 0;
    while i < s.cards.len()
        decreases s.cards@.len() - i,
    {
        let row = &s.cards[i];
        match db_insert_card(
            &conn,
            card_insert_sql(),
            row.id,
            row.nid,
            row.did,
            row.ord,
            row.mod_secs,
            row.queue,
        ) {
            Ok(()) => {},
            Err(e) => {
                return Err(e);
            },
        }
        i += 1;
    }
    db_serialize(&conn)
}

/// The top-level distributable unit: decks plus media references, consumed
/// by one packing operation.
#[derive(Debug)]
pub struct Package {
    pub decks: Vec<Deck>,
    pub media_files: Vec<MediaFile>,
}

impl Package {
    /// Creates a package from `decks` and media referenced by filesystem
    /// path.
    pub fn new(decks: Vec<Deck>, media_files: Vec<&str>) -> (r: Result<Package, Error>)
        ensures
            r matches Ok(p) ==> {
                &&& p.decks == decks
                &&& p.media_files@.len() == media_files@.len()
                &&& forall|i: int|
                    0 <= i < media_files@.len() ==> ((#[trigger] p.media_files@[i]) matches MediaFile::Path(q)
                        && q@ == media_files@[i]@)
            },
            r is Ok,
    {
        let mut media: Vec<MediaFile> = Vec::new();
        let mut i: usize = 0;
        while i < media_files.len()
            invariant
                0 <= i <= media_files@.len(),
                media@.len() == i,
                forall|k: int|
                    0 <= k < i ==> ((#[trigger] media@[k]) matches MediaFile::Path(q) && q@
                        == media_files@[k]@),
            decreases media_files@.len() - i,
        {
            media.push(MediaFile::Path(media_files[i].to_owned()));
            i += 1;
        }
        Ok(Package { decks, media_files: media })
    }

    /// Creates a package from `decks` and media given directly, by path or
    /// as bytes from memory.
    pub fn new_from_memory(decks: Vec<Deck>, media_files: Vec<MediaFile>) -> (r: Result<
        Package,
        Error,
    >)
        ensures
            r matches Ok(p) ==> p.decks == decks && p.media_files == media_files,
            r is Ok,
    {
        Ok(Package { decks, media_files })
    }

    /// Packs the package into archive bytes, with every identifier and
    /// modification time derived from `timestamp_millis`. For each
    /// path-based medium, `path_data` supplies the file's bytes at the same
    /// index; entries under in-memory media are ignored.
    ///
    /// All validation runs before any database or archive work: an invalid
    /// note or media path is reported without touching either.
    pub fn pack_timestamp_millis(&self, path_data: &Vec<Vec<u8>>, timestamp_millis: u64) -> (r:
        Result<Vec<u8>, Error>)
        requires
            path_data@.len() == self.media_files@.len(),
        ensures
            r is Ok ==> {
                &&& notes_writable(self.decks@)
                &&& id_range_ok(self.decks@, timestamp_millis)
                &&& media_names_ok(self.media_files@)
            },
            !(notes_writable(self.decks@) && id_range_ok(self.decks@, timestamp_millis))
                ==> (r matches Err(e) && snapshot_err_ok(self.decks@, timestamp_millis, e)),
            (notes_writable(self.decks@) && id_range_ok(self.decks@, timestamp_millis)
                && !media_names_ok(self.media_files@)) ==> (r matches Err(e) && e
                is MalformedMediaPath),
            r matches Err(e) ==> ((notes_writable(self.decks@) && id_range_ok(
                self.decks@,
                timestamp_millis,
            ) && media_names_ok(self.media_files@)) ==> (e is Database || e is Zip)),
            r matches Ok(b) ==> exists|db: Seq<u8>|
                b@ == crate::ziparch::zip_bytes_of(
                    seq![
                        ("collection.anki2"@, db),
                        ("media"@, spec_manifest_bytes(self.media_files@)),
                    ] + pack_media_entries(self.media_files@, path_data@),
                ),
    {
        let snap = match build_snapshot(&self.decks, timestamp_millis) {
            Ok(s) => s,
            Err(e) => {
                return Err(e);
            },
        };
        let names = match media_entry_names(&self.media_files) {
            Ok(v) => v,
            Err(e) => {
                return Err(e);
            },
        };
        let db = match collection_db_bytes(&snap) {
            Ok(b) => b,
            Err(e) => {
                return Err(e);
            },
        };
        let mut w = zip_new();
        match zip_start_file(&mut w, "collection.anki2") {
            Ok(()) => {},
            Err(e) => {
                return Err(e);
            },
        }
        match zip_write_all(&mut w, db.as_slice()) {
            Ok(()) => {},
            Err(e) => {
                return Err(e);
            },
        }
        proof {
            assert(crate::ziparch::archive_entries(w) =~= seq![("collection.anki2"@, db@)]);
        }
        match zip_start_file(&mut w, "media") {
            Ok(()) => {},
            Err(e) => {
                return Err(e);
            },
        }
        let manifest = manifest_json(&names);
        let manifest_bytes = manifest.as_str().as_bytes();
        let ghost mb = manifest_bytes@;
        proof {
            assert(names.deep_view() =~= spec_media_names(self.media_files@));
            assert(mb == spec_manifest_bytes(self.media_files@));
        }
        match zip_write_all(&mut w, manifest_bytes) {
            Ok(()) => {},
            Err(e) => {
                return Err(e);
            },
        }
        let ghost head = seq![("collection.anki2"@, db@), ("media"@, mb)];
        proof {
            assert(crate::ziparch::archive_entries(w) =~= head);
            assert(head + pack_media_entries(self.media_files@, path_data@).subrange(0, 0)
                =~= head);
        }
        let mut i: usize = 0;
        while i < self.media_files.len()
            invariant
                path_data@.len() == self.media_files@.len(),
                notes_writable(self.decks@),
                id_range_ok(self.decks@, timestamp_millis),
                media_names_ok(self.media_files@),
                0 <= i <= self.media_files@.len(),
                crate::ziparch::archive_entries(w) == head + pack_media_entries(
                    self.media_files@,
                    path_data@,
                ).subrange(0, i as int),
            decreases self.media_files@.len() - i,
        {
            let key = dec_string_u64(i as u64);
            match zip_start_file(&mut w, key.as_str()) {
                Ok(()) => {},
                Err(e) => {
                    return Err(e);
                },
            }
            let outcome = match &self.media_files[i] {
                MediaFile::Path(p) => zip_write_all(&mut w, path_data[i].as_slice()),
                MediaFile::Bytes(b, n) => zip_write_all(&mut w, b.as_slice()),
            };
            match outcome {
                Ok(()) => {},
                Err(e) => {
                    return Err(e);
                },
            }
            proof {
                assert(crate::ziparch::archive_entries(w) =~= head + pack_media_entries(
                    self.media_files@,
                    path_data@,
                ).subrange(0, i + 1));
            }
            i += 1;
        }
        proof {
            assert(pack_media_entries(self.media_files@, path_data@).subrange(
                0,
                self.media_files@.len() as int,
            ) =~= pack_media_entries(self.media_files@, path_data@));
        }
        zip_finish(w)
    }

    /// Packs the package into archive bytes, seeding identifiers from the
    /// wall clock.
    pub fn pack_millis(&self, path_data: &Vec<Vec<u8>>) -> (r: Result<Vec<u8>, Error>)
        requires
            path_data@.len() == self.media_files@.len(),
        ensures
            r is Ok ==> notes_writable(self.decks@) && media_names_ok(self.media_files@),
            !notes_writable(self.decks@) ==> r is Err,
            r matches Err(e) ==> ((notes_writable(self.decks@) && media_names_ok(
                self.media_files@,
            )) ==> (e is Database || e is Zip || e is IdentifierOverflow)),
            r matches Ok(b) ==> exists|db: Seq<u8>|
                b@ == crate::ziparch::zip_bytes_of(
                    seq![
                        ("collection.anki2"@, db),
                        ("media"@, spec_manifest_bytes(self.media_files@)),
                    ] + pack_media_entries(self.media_files@, path_data@),
                ),
    {
        let ts = now_millis();
        self.pack_timestamp_millis(path_data, ts)
    }
}

} // verus!

//! The archive container: entries are written to, and read back from, a
//! deflate-compressed zip image held in memory.

use vstd::prelude::*;
use std::io::Cursor;
use std::io::Read;
use std::io::Write;
use crate::archive::{
    ArchiveEntry, PlanView, ReadEntry, RestorePlan, SourceTree, ends_with_slash, entries_well_named,
    lemma_nodes_entries_well_named, lemma_pack_unpack_round_trip, mirrors, nodes_entries, packed_entries, plan_pack,
    plan_unpack, restore_plan_of, restored_nodes, source_paths_ok, tree_model,
};

verus! {

/// A zip writer over an in-memory buffer, held opaquely; its entries are
/// known through `zip_written` and `zip_file_open`.
#[verifier::external_body]
pub struct ArchiveWriter {
    inner: zip::ZipWriter<Cursor<Vec<u8>>>,
}

#[verifier::external_type_specification]
#[verifier::external_body]
#[verifier::reject_recursive_types(R)]
pub struct ExZipArchive<R>(zip::ZipArchive<R>);

#[verifier::external_type_specification]
#[verifier::external_body]
#[verifier::reject_recursive_types(T)]
pub struct ExCursor<T>(std::io::Cursor<T>);

#[verifier::external_type_specification]
#[verifier::external_body]
pub struct ExZipError(zip::result::ZipError);

#[verifier::external_type_specification]
#[verifier::external_body]
pub struct ExIoError(std::io::Error);

/// Unix mode bits stored with every entry.
pub const ENTRY_MODE: u32 = 0o755;

/// The longest entry name, in characters: zip stores a name's length in 16
/// bits, and a character takes at most 4 bytes.
pub const MAX_NAME_CHARS: usize = 16383;

/// The most entries an archive is promised to be written with.
pub const MAX_ENTRIES: usize = 4096;

/// The most content bytes, over all entries, an archive is promised to be
/// written with: with the names, the image stays far below the 4 GiB from
/// which zip needs its 64-bit extensions.
pub const MAX_CONTENT: u64 = 1073741824;

/// Why packing or unpacking failed.
#[derive(Clone, Debug, PartialEq, Eq)]
pub enum ArchiveError {
    /// Writing the archive failed.
    Io(String),
    /// The bytes are not an archive that can be read.
    Corrupt(String),
}

/// Name for the entries a zip writer holds, in the order they were added:
/// each name with the content written to it.
pub uninterp spec fn zip_written(w: ArchiveWriter) -> Seq<(Seq<char>, Seq<u8>)>;

/// Name for whether the writer's last entry is a started file that takes content.
pub uninterp spec fn zip_file_open(w: ArchiveWriter) -> bool;

/// Name for what zip's reader finds in an image: each entry's name with its
/// content, by index; none when it cannot open the image.
pub uninterp spec fn zip_image(bytes: Seq<u8>) -> Option<Seq<(Seq<char>, Seq<u8>)>>;

/// Name for the entries of an opened zip archive, by index: name and content.
pub uninterp spec fn zip_listing(a: zip::ZipArchive<Cursor<Vec<u8>>>) -> Seq<(Seq<char>, Seq<u8>)>;

/// The name under which `zip::ZipWriter::add_directory` records a directory:
/// the name given, with `/` appended unless it ends with `/` or `\`.
pub open spec fn zip_directory_name(s: Seq<char>) -> Seq<char> {
    if s.len() > 0 && (s.last() == '/' || s.last() == '\\') {
        s
    } else {
        s.push('/')
    }
}

/// The total content of entries.
pub open spec fn content_total(es: Seq<(Seq<char>, Seq<u8>)>) -> nat
    decreases es.len(),
{
    if es.len() == 0 {
        0
    } else {
        content_total(es.drop_last()) + es.last().1.len()
    }
}

/// Whether the writer holds no entry named `name`.
pub open spec fn name_unused(es: Seq<(Seq<char>, Seq<u8>)>, name: Seq<char>) -> bool {
    forall|k: int| 0 <= k < es.len() ==> (#[trigger] es[k]).0 != name
}

/// Whether the writer is within the bounds under which writing succeeds.
pub open spec fn within_bounds(es: Seq<(Seq<char>, Seq<u8>)>, more_entries: nat, more_content: nat) -> bool {
    es.len() + more_entries <= MAX_ENTRIES && content_total(es) + more_content <= MAX_CONTENT
}

/// The entries with `data` appended to the content of the last one.
pub open spec fn with_content(es: Seq<(Seq<char>, Seq<u8>)>, data: Seq<u8>) -> Seq<(Seq<char>, Seq<u8>)> {
    if es.len() == 0 {
        es
    } else {
        es.drop_last().push((es.last().0, es.last().1 + data))
    }
}

/// Relies on `zip::ZipWriter::new` over an empty in-memory buffer: it holds no entry.
#[verifier::external_body]
fn new_zip_writer() -> (r: ArchiveWriter)
    ensures
        zip_written(r) == Seq::<(Seq<char>, Seq<u8>)>::empty(),
        !zip_file_open(r),
{
    ArchiveWriter { inner: zip::ZipWriter::new(Cursor::new(Vec::new())) }
}

/// Relies on `zip::ZipWriter::start_file`, deflate-compressed with the given
/// mode bits: on success the file, still empty, is the writer's last entry.
/// Writes to the in-memory buffer do not fail, so it fails only on a name
/// already used, or past the sizes at which zip needs its 64-bit extensions.
/// A name longer than 65535 bytes panics in zip, so names are bounded.
#[verifier::external_body]
fn zip_start_file(w: &mut ArchiveWriter, name: &str, mode: u32) -> (r: Result<(), zip::result::ZipError>)
    requires
        name@.len() <= MAX_NAME_CHARS,
    ensures
        r is Ok ==> zip_written(*final(w)) == zip_written(*old(w)).push((name@, Seq::<u8>::empty())),
        r is Ok ==> zip_file_open(*final(w)),
        name_unused(zip_written(*old(w)), name@) && within_bounds(zip_written(*old(w)), 1, 0) ==> r is Ok,
{
    let options: zip::write::FileOptions<'_, ()> = zip::write::FileOptions::default()
        .compression_method(zip::CompressionMethod::Deflated)
        .unix_permissions(mode);
    w.inner.start_file(name, options)
}

/// Relies on `zip::ZipWriter::add_directory`: on success the directory's
/// name, ending with `/`, is the writer's last entry, and no file is open.
/// It fails only as `start_file` does.
#[verifier::external_body]
fn zip_add_directory(w: &mut ArchiveWriter, name: &str, mode: u32) -> (r: Result<(), zip::result::ZipError>)
    requires
        name@.len() <= MAX_NAME_CHARS,
    ensures
        r is Ok ==> zip_written(*final(w)) == zip_written(*old(w)).push((zip_directory_name(name@), Seq::<u8>::empty())),
        r is Ok ==> !zip_file_open(*final(w)),
        name_unused(zip_written(*old(w)), zip_directory_name(name@)) && within_bounds(zip_written(*old(w)), 1, 0)
            ==> r is Ok,
{
    let options: zip::write::FileOptions<'_, ()> = zip::write::FileOptions::default().unix_permissions(mode);
    w.inner.add_directory(name, options)
}

/// Relies on the `std::io::Write` impl of `zip::ZipWriter`: on success the
/// bytes are appended to the started file's content. With a file started, it
/// fails only past the size at which zip needs its 64-bit extensions.
#[verifier::external_body]
fn zip_write_all(w: &mut ArchiveWriter, data: &[u8]) -> (r: Result<(), std::io::Error>)
    ensures
        r is Ok ==> zip_written(*final(w)) == with_content(zip_written(*old(w)), data@),
        r is Ok ==> zip_file_open(*final(w)) == zip_file_open(*old(w)),
        zip_file_open(*old(w)) && zip_written(*old(w)).len() > 0 && within_bounds(zip_written(*old(w)), 0, data@.len())
            ==> r is Ok,
{
    w.inner.write_all(data)
}

/// Relies on `zip::ZipWriter::finish`: writes the central directory and
/// hands back the image, from which zip's reader reads back the entries
/// written, names and contents. It fails only past the sizes at which zip
/// needs its 64-bit extensions.
#[verifier::external_body]
fn zip_finish(w: ArchiveWriter) -> (r: Result<Vec<u8>, zip::result::ZipError>)
    ensures
        r is Ok ==> zip_image(r->Ok_0@) == Some(zip_written(w)),
        within_bounds(zip_written(w), 0, 0) ==> r is Ok,
{
    w.inner.finish().map(|c| c.into_inner())
}

/// Relies on `zip::ZipArchive::new` over an in-memory image: it opens the
/// image exactly when the reader finds entries in it, and then lists them.
#[verifier::external_body]
fn open_zip(bytes: Vec<u8>) -> (r: Result<zip::ZipArchive<Cursor<Vec<u8>>>, zip::result::ZipError>)
    ensures
        r is Ok <==> zip_image(bytes@) is Some,
        r is Ok ==> zip_image(bytes@) == Some(zip_listing(r->Ok_0)),
{
    zip::ZipArchive::new(Cursor::new(bytes))
}

/// Relies on `zip::ZipArchive::len`: the number of entries.
#[verifier::external_body]
fn zip_len(a: &zip::ZipArchive<Cursor<Vec<u8>>>) -> (r: usize)
    ensures
        r == zip_listing(*a).len(),
{
    a.len()
}

/// Relies on `zip::ZipArchive::name_for_index`: the name of the entry at `i`,
/// if there is one.
#[verifier::external_body]
fn zip_name_at(a: &zip::ZipArchive<Cursor<Vec<u8>>>, i: usize) -> (r: Option<String>)
    ensures
        i < zip_listing(*a).len() ==> r is Some && r->0@ == zip_listing(*a)[i as int].0,
        i >= zip_listing(*a).len() ==> r is None,
{
    a.name_for_index(i).map(|s| s.to_string())
}

/// Relies on `zip::ZipArchive::by_index` and on the opened entry's
/// `enclosed_name`, `unix_mode` and `Read` impl, which borrow the archive
/// and are read here into plain values: the entry's accepted path, which
/// when there is one is its stored name itself; its mode bits; its content.
/// The listing stays as it was.
#[verifier::external_body]
fn zip_entry_at(a: &mut zip::ZipArchive<Cursor<Vec<u8>>>, i: usize) -> (r: Result<(Option<String>, Option<u32>, Vec<u8>), zip::result::ZipError>)
    ensures
        zip_listing(*final(a)) == zip_listing(*old(a)),
        match r {
            Ok((p, _, data)) => i < zip_listing(*old(a)).len() ==> {
                &&& data@ == zip_listing(*old(a))[i as int].1
                &&& (p is Some ==> p->0@ == zip_listing(*old(a))[i as int].0)
            },
            _ => true,
        },
{
    let mut f = a.by_index(i)?;
    let mut data = Vec::new();
    f.read_to_end(&mut data)?;
    Ok((f.enclosed_name().map(|p| p.to_string_lossy().into_owned()), f.unix_mode(), data))
}

/// Relies on the `Display` impl of `zip::result::ZipError`.
#[verifier::external_body]
fn zip_error_text(e: &zip::result::ZipError) -> (r: String) {
    e.to_string()
}

/// Relies on the `Display` impl of `std::io::Error`.
#[verifier::external_body]
fn io_error_text(e: &std::io::Error) -> (r: String) {
    e.to_string()
}

/// The name under which an entry is recorded by the writer.
pub open spec fn written_name(e: ArchiveEntry) -> Seq<char> {
    match e.data {
        Some(_) => e.name@,
        None => zip_directory_name(e.name@),
    }
}

/// The entry as the writer records it: its recorded name and its content (a
/// directory's is empty).
pub open spec fn written_entry(e: ArchiveEntry) -> (Seq<char>, Seq<u8>) {
    (written_name(e), match e.data {
        Some(b) => b@,
        None => Seq::empty(),
    })
}

/// The entries as the writer records them.
pub open spec fn written_entries(es: Seq<ArchiveEntry>) -> Seq<(Seq<char>, Seq<u8>)> {
    es.map_values(|e: ArchiveEntry| written_entry(e))
}

/// The modelled entries (name, `None` for a directory) as an image holds them.
pub open spec fn image_entries(p: Seq<(Seq<char>, Option<Seq<u8>>)>) -> Seq<(Seq<char>, Seq<u8>)> {
    p.map_values(|e: (Seq<char>, Option<Seq<u8>>)| match e.1 {
        Some(b) => (e.0, b),
        None => (zip_directory_name(e.0), Seq::<u8>::empty()),
    })
}

/// Whether every name fits in an entry.
pub open spec fn names_fit(es: Seq<(Seq<char>, Option<Seq<u8>>)>) -> bool {
    forall|i: int| 0 <= i < es.len() ==> (#[trigger] es[i]).0.len() <= MAX_NAME_CHARS
}

/// Whether no two entries share a name.
pub open spec fn names_distinct(ws: Seq<(Seq<char>, Seq<u8>)>) -> bool {
    forall|i: int, j: int| 0 <= i < j < ws.len() ==> (#[trigger] ws[i]).0 != (#[trigger] ws[j]).0
}

/// Whether entries can be written: names that fit, none twice, and within
/// the archive's bounds.
pub open spec fn writable(p: Seq<(Seq<char>, Option<Seq<u8>>)>) -> bool {
    names_fit(p) && names_distinct(image_entries(p)) && within_bounds(image_entries(p), 0, 0)
}

/// The model of an entry read back: its name and content.
pub open spec fn read_view(es: Seq<ReadEntry>) -> Seq<(Seq<char>, Seq<u8>)> {
    es.map_values(|e: ReadEntry| (e.name@, e.data@))
}

/// Whether each accepted path of the entries is the entry's name itself.
pub open spec fn enclosed_are_names(es: Seq<ReadEntry>) -> bool {
    forall|i: int| 0 <= i < es.len() && (#[trigger] es[i]).enclosed is Some ==> es[i].enclosed->0@ == es[i].name@
}

proof fn lemma_content_total_prefix(es: Seq<(Seq<char>, Seq<u8>)>, i: int)
    requires
        0 <= i <= es.len(),
    ensures
        content_total(es.take(i)) <= content_total(es),
    decreases es.len(),
{
    if i < es.len() {
        assert(es.drop_last().take(i) =~= es.take(i));
        lemma_content_total_prefix(es.drop_last(), i);
    } else {
        assert(es.take(i) =~= es);
    }
}

/// Writes the entries, in order, into a deflate-compressed zip image, from
/// which zip's reader reads back each entry's recorded name and content.
/// It succeeds when the names fit, none is recorded twice, and the archive
/// stays within its bounds; a name that does not fit is an error.
pub fn encode_archive(entries: &Vec<ArchiveEntry>) -> (r: Result<Vec<u8>, ArchiveError>)
    ensures
        r is Err ==> r->Err_0 is Io,
        r is Ok ==> zip_image(r->Ok_0@) == Some(written_entries(entries@)),
        writable(entries@.map_values(|e: ArchiveEntry| e@)) ==> r is Ok,
        !names_fit(entries@.map_values(|e: ArchiveEntry| e@)) ==> r is Err,
{
    let ghost pv = entries@.map_values(|e: ArchiveEntry| e@);
    let ghost all = written_entries(entries@);
    assert(image_entries(pv) =~= all);
    let mut k: usize = 0;
    while k < entries.len()
        invariant
            k <= entries@.len(),
            pv == entries@.map_values(|e: ArchiveEntry| e@),
            forall|m: int| 0 <= m < k ==> (#[trigger] pv[m]).0.len() <= MAX_NAME_CHARS,
        decreases entries@.len() - k,
    {
        if entries[k].name.as_str().unicode_len() > MAX_NAME_CHARS {
            assert(pv[k as int].0.len() > MAX_NAME_CHARS);
            return Err(ArchiveError::Io(String::from_str("entry name too long for an archive")));
        }
        k = k + 1;
    }
    let ghost good = writable(pv);
    let mut w = new_zip_writer();
    let mut i: usize = 0;
    while i < entries.len()
        invariant
            i <= entries@.len(),
            pv == entries@.map_values(|e: ArchiveEntry| e@),
            all == written_entries(entries@),
            image_entries(pv) == all,
            names_fit(pv),
            good == writable(pv),
            zip_written(w) == all.take(i as int),
        decreases entries@.len() - i,
    {
        let e = &entries[i];
        let ghost before = zip_written(w);
        proof {
            assert(pv[i as int].0 == e.name@);
            assert(all[i as int] == written_entry(*e));
            assert(all.take(i + 1) =~= before.push(all[i as int]));
            if good {
                lemma_content_total_prefix(all, i + 1);
                lemma_content_total_prefix(all, i as int);
                assert forall|m: int| 0 <= m < before.len() implies (#[trigger] before[m]).0 != all[i as int].0 by {
                    assert(before[m] == all[m]);
                }
            }
        }
        match &e.data {
            Some(bytes) => {
                if let Err(err) = zip_start_file(&mut w, e.name.as_str(), ENTRY_MODE) {
                    return Err(ArchiveError::Io(zip_error_text(&err)));
                }
                proof {
                    assert(before.push((e.name@, Seq::<u8>::empty())).drop_last() =~= before);
                    assert(content_total(before.push((e.name@, Seq::<u8>::empty()))) == content_total(before));
                    assert(content_total(all.take(i + 1)) == content_total(before) + bytes@.len()) by {
                        assert(all.take(i + 1).drop_last() =~= before);
                    }
                }
                if let Err(err) = zip_write_all(&mut w, bytes.as_slice()) {
                    return Err(ArchiveError::Io(io_error_text(&err)));
                }
                assert(zip_written(w) =~= all.take(i + 1));
            },
            None => {
                if let Err(err) = zip_add_directory(&mut w, e.name.as_str(), ENTRY_MODE) {
                    return Err(ArchiveError::Io(zip_error_text(&err)));
                }
                assert(zip_written(w) =~= all.take(i + 1));
            },
        }
        i = i + 1;
    }
    assert(all.take(entries@.len() as int) =~= all);
    match zip_finish(w) {
        Ok(bytes) => Ok(bytes),
        Err(err) => Err(ArchiveError::Io(zip_error_text(&err))),
    }
}

/// Reads back every entry of a zip image, in index order: names and
/// contents are what zip's reader finds in the image, and an entry's
/// accepted path, where there is one, is its stored name. An image the
/// reader cannot open is `Corrupt`; so is an entry that cannot be read.
pub fn read_archive(blob: Vec<u8>) -> (r: Result<Vec<ReadEntry>, ArchiveError>)
    ensures
        zip_image(blob@) is None ==> r is Err,
        r is Err ==> r->Err_0 is Corrupt,
        r is Ok ==> zip_image(blob@) == Some(read_view(r->Ok_0@)) && enclosed_are_names(r->Ok_0@),
{
    let ghost image = zip_image(blob@);
    let mut a = match open_zip(blob) {
        Ok(a) => a,
        Err(err) => return Err(ArchiveError::Corrupt(zip_error_text(&err))),
    };
    let ghost listing = zip_listing(a);
    let n = zip_len(&a);
    let mut out: Vec<ReadEntry> = Vec::new();
    let mut i: usize = 0;
    while i < n
        invariant
            i <= n,
            image == Some(listing),
            zip_listing(a) == listing,
            n == listing.len(),
            read_view(out@) == listing.take(i as int),
            enclosed_are_names(out@),
        decreases n - i,
    {
        let name = match zip_name_at(&a, i) {
            Some(s) => s,
            None => return Err(ArchiveError::Corrupt(String::from_str("entry index out of range"))),
        };
        let (enclosed, mode, data) = match zip_entry_at(&mut a, i) {
            Ok(parts) => parts,
            Err(err) => return Err(ArchiveError::Corrupt(zip_error_text(&err))),
        };
        let ghost before = out@;
        let ghost entry = listing[i as int];
        assert(name@ == entry.0);
        assert(data@ == entry.1);
        out.push(ReadEntry { name, enclosed, mode, data });
        assert(listing.take(i + 1) =~= listing.take(i as int).push(entry));
        assert(read_view(out@) =~= read_view(before).push(entry));
        assert forall|j: int| 0 <= j < out@.len() && (#[trigger] out@[j]).enclosed is Some
            implies out@[j].enclosed->0@ == out@[j].name@ by {
            if j < before.len() {
                assert(out@[j] == before[j]);
            }
        }
        i = i + 1;
    }
    assert(listing.take(n as int) =~= listing);
    Ok(out)
}

/// Packs a source into an archive image: the entries that `plan_pack`
/// gives, written in order, which zip's reader reads back. It succeeds when
/// those entries can be written.
pub fn pack(source: &SourceTree) -> (r: Result<Vec<u8>, ArchiveError>)
    ensures
        r is Err ==> r->Err_0 is Io,
        r is Ok ==> zip_image(r->Ok_0@) == Some(image_entries(packed_entries(*source))),
        writable(packed_entries(*source)) ==> r is Ok,
{
    let entries = plan_pack(source);
    proof {
        assert(written_entries(entries@) =~= image_entries(entries@.map_values(|e: ArchiveEntry| e@)));
    }
    encode_archive(&entries)
}

/// Reads an archive image and plans its restore, as `plan_unpack` does on
/// the entries zip's reader finds in it. An image the reader cannot open is
/// `Corrupt`.
pub fn unpack(blob: Vec<u8>) -> (r: Result<RestorePlan, ArchiveError>)
    ensures
        zip_image(blob@) is None ==> r is Err,
        r is Err ==> r->Err_0 is Corrupt,
        r is Ok ==> exists|es: Seq<ReadEntry>| {
            &&& r->Ok_0@ == restore_plan_of(es)
            &&& zip_image(blob@) == Some(read_view(es))
            &&& enclosed_are_names(es)
        },
{
    let entries = read_archive(blob)?;
    let plan = plan_unpack(&entries);
    assert(plan@ == restore_plan_of(entries@));
    Ok(plan)
}

/// Round trip through an archive image: reading back the image that packing
/// a source wrote gives the source again (see `lemma_pack_unpack_round_trip`
/// for what that means of a single file and of a directory tree), provided
/// zip accepts each entry's path as enclosed in the target. This holds of
/// every tree whose node paths are not the reserved name and do not end
/// with `/`.
pub proof fn lemma_image_round_trip(t: SourceTree, bytes: Seq<u8>, es: Seq<ReadEntry>)
    requires
        zip_image(bytes) == Some(image_entries(packed_entries(t))),
        zip_image(bytes) == Some(read_view(es)),
        enclosed_are_names(es),
        forall|i: int| 0 <= i < es.len() ==> (#[trigger] es[i]).enclosed is Some,
        source_paths_ok(t),
    ensures
        match t {
            SourceTree::File(b) => restore_plan_of(es) == PlanView::Single(b@),
            SourceTree::Directory(ns) => match restore_plan_of(es) {
                PlanView::Steps(st) => restored_nodes(st) == tree_model(ns@),
                PlanView::Single(_) => false,
            },
        },
{
    let p = packed_entries(t);
    let img = image_entries(p);
    assert(read_view(es) == img);
    if let SourceTree::Directory(ns) = t {
        lemma_nodes_entries_well_named(ns@);
    }
    assert(es.len() == p.len()) by {
        assert(read_view(es).len() == es.len());
    }
    assert forall|i: int| 0 <= i < es.len() implies {
        &&& (#[trigger] es[i]).name@ == p[i].0
        &&& es[i].enclosed is Some
        &&& es[i].enclosed->0@ == p[i].0
        &&& (p[i].1 is Some ==> es[i].data@ == p[i].1->0)
    } by {
        assert(read_view(es)[i] == img[i]);
        match t {
            SourceTree::File(b) => {},
            SourceTree::Directory(ns) => {
                assert(entries_well_named(nodes_entries(ns@)));
                assert(p[i].1 is None ==> ends_with_slash(p[i].0));
            },
        }
    }
    assert(mirrors(es, p));
    lemma_pack_unpack_round_trip(t, es);
}

} // verus!

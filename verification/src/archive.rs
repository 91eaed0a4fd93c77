//! Packing a walked directory tree into a deflate-compressed ZIP archive.

use vstd::prelude::*;
use std::io::Cursor;
use std::io::Write;
use zip::write::SimpleFileOptions;
use zip::result::ZipError;
use zip::{CompressionMethod, ZipWriter};
use crate::text::push_char;

verus! {

#[verifier::external_type_specification]
#[verifier::external_body]
pub struct ExZipError(ZipError);

#[verifier::external_type_specification]
#[verifier::external_body]
pub struct ExIoError(std::io::Error);

/// An in-memory ZIP writer. Verus does not accept a declaration of
/// `zip::ZipWriter`, whose parameter is bound by `std::io::Write + std::io::Seek`,
/// so the writer is held in this opaque struct.
#[verifier::external_body]
pub struct ZipBuilder {
    writer: ZipWriter<Cursor<Vec<u8>>>,
}

/// Per-entry archive options. Held opaquely for the same reason as `ZipBuilder`:
/// `zip::write::FileOptions` is bound by a sealed trait that Verus cannot declare.
#[verifier::external_body]
pub struct EntryOptions {
    options: SimpleFileOptions,
}

/// The default entry options.
///
/// Calls `SimpleFileOptions::default()`.
#[verifier::external_body]
fn default_entry_options() -> EntryOptions {
    EntryOptions { options: SimpleFileOptions::default() }
}

/// `options` with deflate compression selected.
///
/// Calls `FileOptions::compression_method` with `CompressionMethod::Deflated`.
#[verifier::external_body]
fn with_deflate(options: EntryOptions) -> EntryOptions {
    EntryOptions { options: options.options.compression_method(CompressionMethod::Deflated) }
}

/// What a ZIP writer holds so far, in the order the entries were added: each entry's
/// name, whether it was started as a file (and so takes data), and its data.
pub uninterp spec fn zip_contents(b: ZipBuilder) -> Seq<(Seq<char>, bool, Seq<u8>)>;

/// The entries that reading `archive` as a ZIP file lists, in central-directory order:
/// each entry's name and its decompressed data.
pub uninterp spec fn zip_listing(archive: Seq<u8>) -> Seq<(Seq<char>, Seq<u8>)>;

/// The entries of `c` by name and data.
pub open spec fn contents_listing(c: Seq<(Seq<char>, bool, Seq<u8>)>) -> Seq<(Seq<char>, Seq<u8>)> {
    c.map_values(|t: (Seq<char>, bool, Seq<u8>)| (t.0, t.2))
}

/// Whether some entry of `c` is named `name`.
pub open spec fn has_entry(c: Seq<(Seq<char>, bool, Seq<u8>)>, name: Seq<char>) -> bool {
    exists|i: int| 0 <= i < c.len() && (#[trigger] c[i]).0 == name
}

/// The characters of the names and the bytes of the data of `c`, together.
pub open spec fn contents_size(c: Seq<(Seq<char>, bool, Seq<u8>)>) -> nat
    decreases c.len(),
{
    if c.len() == 0 { 0 } else { contents_size(c.drop_last()) + c.last().0.len() + c.last().2.len() }
}

/// The bound below which an archive stays far from the 4 GiB limits of a ZIP file
/// written without the large-file option: 1 GiB of names and data.
pub const ZIP_SIZE_LIMIT: u64 = 1_073_741_824;

/// The most entries an archive is packed with here.
pub const ZIP_ENTRY_LIMIT: u64 = 65_535;

/// The longest entry name (in characters) that keeps an entry's local header under the
/// 64 KiB that the ZIP format allows.
pub const ZIP_NAME_LIMIT: u64 = 16_000;

/// The name a directory entry gets: `name` with a `/` appended, unless it already ends
/// in `/` or `\`.
pub open spec fn dir_entry_name(name: Seq<char>) -> Seq<char> {
    if name.len() > 0 && (name.last() == '/' || name.last() == '\\') { name } else { name.push('/') }
}

/// A new archive writer over an empty in-memory buffer.
///
/// Calls `zip::ZipWriter::new` on a `std::io::Cursor` over an empty `Vec`; the writer
/// holds no entries yet.
#[verifier::external_body]
fn zip_builder_new() -> (res: ZipBuilder)
    ensures
        zip_contents(res) == Seq::<(Seq<char>, bool, Seq<u8>)>::empty(),
{
    ZipBuilder { writer: ZipWriter::new(Cursor::new(Vec::new())) }
}

/// Adds a directory entry named `name`, handing the writer back on success.
///
/// Calls `ZipWriter::add_directory`, which appends a slash to the name unless it ends
/// in `/` or `\\` and starts an entry with no data that takes none. The crate refuses a
/// name that an entry already has and an entry whose local header would reach 64 KiB;
/// over an in-memory buffer and within the size and count limits above, nothing else.
#[verifier::external_body]
fn zip_add_directory(b: ZipBuilder, name: &str, options: &EntryOptions) -> (res: Result<ZipBuilder, ZipError>)
    ensures
        res matches Ok(nb) ==> zip_contents(nb) == zip_contents(b).push((dir_entry_name(name@), false, Seq::<u8>::empty())),
        !has_entry(zip_contents(b), dir_entry_name(name@)) && name@.len() <= ZIP_NAME_LIMIT
            && zip_contents(b).len() < ZIP_ENTRY_LIMIT
            && contents_size(zip_contents(b)) + dir_entry_name(name@).len() <= ZIP_SIZE_LIMIT ==> res is Ok,
{
    let mut w = b.writer;
    match w.add_directory(name, options.options) {
        Ok(()) => Ok(ZipBuilder { writer: w }),
        Err(e) => Err(e),
    }
}

/// Starts a file entry named `name`, handing the writer back on success.
///
/// Calls `ZipWriter::start_file`, which starts an entry under exactly that name, with no
/// data yet. The crate refuses a name that an entry already has and an entry whose local
/// header would reach 64 KiB; over an in-memory buffer and within the size and count
/// limits above, nothing else.
#[verifier::external_body]
fn zip_start_file(b: ZipBuilder, name: &str, options: &EntryOptions) -> (res: Result<ZipBuilder, ZipError>)
    ensures
        res matches Ok(nb) ==> zip_contents(nb) == zip_contents(b).push((name@, true, Seq::<u8>::empty())),
        !has_entry(zip_contents(b), name@) && name@.len() <= ZIP_NAME_LIMIT
            && zip_contents(b).len() < ZIP_ENTRY_LIMIT
            && contents_size(zip_contents(b)) + name@.len() <= ZIP_SIZE_LIMIT ==> res is Ok,
{
    let mut w = b.writer;
    match w.start_file(name, options.options) {
        Ok(()) => Ok(ZipBuilder { writer: w }),
        Err(e) => Err(e),
    }
}

/// Writes `data` into the file entry that was started last, handing the writer back on
/// success.
///
/// Calls `std::io::Write::write_all` on the `ZipWriter`. Writing no bytes changes
/// nothing; writing some needs a file entry started last and appends them to its data.
/// The crate refuses data when no file entry was started last and data reaching 4 GiB
/// in one entry; over an in-memory buffer, nothing else.
#[verifier::external_body]
fn zip_write_all(b: ZipBuilder, data: &[u8]) -> (res: Result<ZipBuilder, std::io::Error>)
    ensures
        res matches Ok(nb) ==> if data@.len() == 0 {
            zip_contents(nb) == zip_contents(b)
        } else {
            zip_contents(b).len() > 0 && zip_contents(nb) == zip_contents(b).drop_last().push(
                (zip_contents(b).last().0, zip_contents(b).last().1, zip_contents(b).last().2 + data@))
        },
        data@.len() == 0 || (zip_contents(b).len() > 0 && zip_contents(b).last().1
            && contents_size(zip_contents(b)) + data@.len() <= ZIP_SIZE_LIMIT) ==> res is Ok,
{
    let mut w = b.writer;
    match w.write_all(data) {
        Ok(()) => Ok(ZipBuilder { writer: w }),
        Err(e) => Err(e),
    }
}

/// Finishes the archive and returns its bytes.
///
/// Calls `ZipWriter::finish` and unwraps the in-memory buffer from its `Cursor`. Reading
/// the bytes back lists the entries the writer held, in order, with their data. Over an
/// in-memory buffer and within the size and count limits above, finishing succeeds. The
/// bytes themselves are not named: they also depend on the platform the crate is built
/// for (with no `system` option set, each entry's "version made by" field records
/// whether the build targets Windows).
#[verifier::external_body]
fn zip_finish(b: ZipBuilder) -> (res: Result<Vec<u8>, ZipError>)
    ensures
        res matches Ok(bytes) ==> zip_listing(bytes@) == contents_listing(zip_contents(b)),
        zip_contents(b).len() <= ZIP_ENTRY_LIMIT && contents_size(zip_contents(b)) <= ZIP_SIZE_LIMIT ==> res is Ok,
{
    match b.writer.finish() {
        Ok(cursor) => Ok(cursor.into_inner()),
        Err(e) => Err(e),
    }
}

/// The message of a ZIP error.
///
/// Formats the error with its `Display` implementation.
#[verifier::external_body]
fn zip_error_message(e: &ZipError) -> String {
    format!("{e}")
}

/// The message of an I/O error.
///
/// Formats the error with its `Display` implementation.
#[verifier::external_body]
fn io_error_message(e: &std::io::Error) -> String {
    format!("{e}")
}

/// One entry of a walked directory tree: its path relative to the root as the
/// operating system spells it, whether it is a directory, and a file's contents.
pub struct TreeEntry {
    pub relative_path: String,
    pub is_dir: bool,
    pub contents: Vec<u8>,
}

/// Why packing a directory tree failed.
pub enum ArchiveError {
    /// The archive rejected the entry with this (normalised) name.
    Entry { name: String, detail: String },
    /// Finalising the archive failed.
    Finish { detail: String },
}

/// `s` with every backslash replaced by a forward slash.
pub open spec fn slashes_spec(s: Seq<char>) -> Seq<char> {
    s.map_values(|c: char| if c == '\\' { '/' } else { c })
}

/// Normalising separators touches only backslashes: the name is as long as the path,
/// each backslash becomes a forward slash, and every other character stays as it is.
pub proof fn lemma_slashes_only_replace_backslashes(path: Seq<char>)
    ensures
        slashes_spec(path).len() == path.len(),
        forall|i: int| 0 <= i < path.len() && path[i] == '\\' ==> #[trigger] slashes_spec(path)[i] == '/',
        forall|i: int| 0 <= i < path.len() && path[i] != '\\' ==> #[trigger] slashes_spec(path)[i] == path[i],
{
}

/// The archive name of an entry: its relative path with `/` as the only separator.
pub fn entry_name(relative_path: &str) -> (res: String)
    ensures
        res@ == slashes_spec(relative_path@),
        res@.len() == relative_path@.len(),
        forall|i: int| 0 <= i < relative_path@.len() ==> (#[trigger] res@[i]) == (
            if relative_path@[i] == '\\' { '/' } else { relative_path@[i] }),
{
    let mut res = String::new();
    for c in it: relative_path.chars()
        invariant
            it.seq() == relative_path@,
            res@ == slashes_spec(relative_path@.take(it.index() as int)),
    {
        if c == '\\' {
            push_char(&mut res, '/');
        } else {
            push_char(&mut res, c);
        }
        proof {
            assert(res@ =~= slashes_spec(relative_path@.take(it.index() as int + 1)));
        }
    }
    assert(relative_path@.take(relative_path@.len() as int) =~= relative_path@);
    proof { lemma_slashes_only_replace_backslashes(relative_path@); }
    res
}

/// The entry that `e` becomes in the archive: a directory under its slash-normalised
/// path with a trailing `/` and no data, a file under its slash-normalised path with its
/// contents.
pub open spec fn tree_item(e: TreeEntry) -> (Seq<char>, Seq<u8>) {
    if e.is_dir {
        (dir_entry_name(slashes_spec(e.relative_path@)), Seq::empty())
    } else {
        (slashes_spec(e.relative_path@), e.contents@)
    }
}

/// The archive entries that the walked `entries` become, in order.
pub open spec fn tree_listing(entries: Seq<TreeEntry>) -> Seq<(Seq<char>, Seq<u8>)> {
    entries.map_values(|e: TreeEntry| tree_item(e))
}

/// The writer contents that packing `entries` builds, in order.
pub open spec fn tree_contents(entries: Seq<TreeEntry>) -> Seq<(Seq<char>, bool, Seq<u8>)> {
    entries.map_values(|e: TreeEntry| (tree_item(e).0, !e.is_dir, tree_item(e).1))
}

/// Whether `entries` can be packed: their archive names differ pairwise, no path is
/// longer than the name limit, there are fewer entries than the entry limit, and their
/// names and data together stay within the size limit.
pub open spec fn tree_packs(entries: Seq<TreeEntry>) -> bool {
    &&& forall|i: int, j: int| 0 <= i < j < entries.len()
        ==> #[trigger] tree_item(entries[i]).0 != #[trigger] tree_item(entries[j]).0
    &&& forall|i: int| 0 <= i < entries.len() ==> (#[trigger] entries[i]).relative_path@.len() <= ZIP_NAME_LIMIT
    &&& entries.len() < ZIP_ENTRY_LIMIT
    &&& contents_size(tree_contents(entries)) <= ZIP_SIZE_LIMIT
}

proof fn lemma_size_prefix(c: Seq<(Seq<char>, bool, Seq<u8>)>, i: int)
    requires
        0 <= i <= c.len(),
    ensures
        contents_size(c.take(i)) <= contents_size(c),
    decreases c.len() - i,
{
    if i < c.len() {
        lemma_size_prefix(c, i + 1);
        assert(c.take(i + 1).drop_last() =~= c.take(i));
    } else {
        assert(c.take(i) =~= c);
    }
}

/// Pack `entries`, in order, into a ZIP archive: each directory as a directory entry
/// and each file, deflate-compressed, with its contents. Reading the archive back lists
/// exactly those entries, and packing succeeds whenever the entries can be packed.
pub fn zip_tree(entries: &Vec<TreeEntry>) -> (res: Result<Vec<u8>, ArchiveError>)
    ensures
        res matches Ok(bytes) ==> zip_listing(bytes@) == tree_listing(entries@),
        tree_packs(entries@) ==> res is Ok,
        res matches Err(ArchiveError::Entry { name, .. }) ==> exists|i: int|
            0 <= i < entries@.len() && name@ == slashes_spec(#[trigger] entries@[i].relative_path@),
{
    let options = with_deflate(default_entry_options());
    let mut builder = zip_builder_new();
    let ghost all = tree_contents(entries@);
    let mut i: usize = 0;
    assert(tree_contents(entries@.take(0)) =~= Seq::<(Seq<char>, bool, Seq<u8>)>::empty());
    while i < entries.len()
        invariant
            i <= entries.len(),
            all == tree_contents(entries@),
            zip_contents(builder) == tree_contents(entries@.take(i as int)),
            all.take(i as int) == tree_contents(entries@.take(i as int)),
        decreases entries.len() - i,
    {
        let entry = &entries[i];
        let name = entry_name(entry.relative_path.as_str());
        let ghost prefix = zip_contents(builder);
        let ghost item = (tree_item(entries@[i as int]).0, !entries@[i as int].is_dir, tree_item(entries@[i as int]).1);
        proof {
            assert(tree_contents(entries@.take(i as int + 1)) =~= prefix.push(item));
            assert(all.take(i as int + 1) =~= tree_contents(entries@.take(i as int + 1)));
            if tree_packs(entries@) {
                lemma_size_prefix(all, i as int + 1);
                assert(all.take(i as int + 1).drop_last() =~= prefix);
                assert forall|k: int| 0 <= k < prefix.len() implies (#[trigger] prefix[k]).0 != item.0 by {
                    assert(prefix[k] == all[k]);
                    assert(tree_item(entries@[k]).0 != tree_item(entries@[i as int]).0);
                }
            }
        }
        if entry.is_dir {
            builder = match zip_add_directory(builder, name.as_str(), &options) {
                Ok(b) => b,
                Err(e) => {
                    let detail = zip_error_message(&e);
                    return Err(ArchiveError::Entry { name, detail });
                },
            };
        } else {
            builder = match zip_start_file(builder, name.as_str(), &options) {
                Ok(b) => b,
                Err(e) => {
                    let detail = zip_error_message(&e);
                    return Err(ArchiveError::Entry { name, detail });
                },
            };
            let ghost started = zip_contents(builder);
            proof {
                assert(started.drop_last() =~= prefix);
            }
            builder = match zip_write_all(builder, entry.contents.as_slice()) {
                Ok(b) => b,
                Err(e) => {
                    let detail = io_error_message(&e);
                    return Err(ArchiveError::Entry { name, detail });
                },
            };
            proof {
                if entry.contents@.len() > 0 {
                    assert(started.last().2 + entry.contents@ =~= entry.contents@);
                }
            }
        }
        i = i + 1;
    }
    assert(entries@.take(entries@.len() as int) =~= entries@);
    assert(contents_listing(tree_contents(entries@)) =~= tree_listing(entries@));
    match zip_finish(builder) {
        Ok(bytes) => Ok(bytes),
        Err(e) => Err(ArchiveError::Finish { detail: zip_error_message(&e) }),
    }
}

} // verus!

use vstd::prelude::*;
use std::io::Cursor;
use zip::result::ZipError;
use zip::ZipArchive;
use crate::extract::{entry_views, ArchiveEntry, EntryView, ExtractError};

verus! {

#[verifier::external_type_specification]
#[verifier::external_body]
#[verifier::reject_recursive_types(R)]
pub struct ExZipArchive<R>(ZipArchive<R>);

#[verifier::external_type_specification]
#[verifier::external_body]
#[verifier::reject_recursive_types(T)]
pub struct ExCursor<T>(Cursor<T>);

#[verifier::external_type_specification]
#[verifier::external_body]
pub struct ExZipError(ZipError);

/// Whether zip opens the bytes as an archive.
pub uninterp spec fn zip_opens(bytes: Seq<u8>) -> bool;

/// The number of entries zip lists in the archive held in `bytes`.
pub uninterp spec fn zip_count(bytes: Seq<u8>) -> nat;

/// Whether zip reads entry `i` of the archive held in `bytes` to its end,
/// without a password.
pub uninterp spec fn zip_entry_readable(bytes: Seq<u8>, i: int) -> bool;

/// Entry `i` of the archive held in `bytes`: its stored name, the relative
/// path zip makes of it on a machine whose path separator is `sep`, and its
/// decompressed bytes.
pub uninterp spec fn zip_entry(bytes: Seq<u8>, i: int, sep: char) -> EntryView;

/// The bytes an opened archive was read from.
pub uninterp spec fn archive_source(a: ZipArchive<Cursor<Vec<u8>>>) -> Seq<u8>;

/// The path separator of the machine an opened archive was read on.
pub uninterp spec fn archive_sep(a: ZipArchive<Cursor<Vec<u8>>>) -> char;

/// zip opens the bytes and reads every entry.
pub open spec fn zip_readable(bytes: Seq<u8>) -> bool {
    zip_opens(bytes) && forall|i: int| 0 <= i < zip_count(bytes) ==> #[trigger] zip_entry_readable(bytes, i)
}

/// The entries of the archive held in `bytes`, in archive order, as read on a
/// machine whose path separator is `sep`.
pub open spec fn zip_entries(bytes: Seq<u8>, sep: char) -> Seq<EntryView> {
    Seq::new(zip_count(bytes), |i: int| zip_entry(bytes, i, sep))
}

/// Relies on zip::ZipArchive::new, over the bytes in memory: whether it
/// opens depends on the bytes alone. Also hands back
/// std::path::MAIN_SEPARATOR, the separator zip's entry paths use.
#[verifier::external_body]
fn open_archive(bytes: Vec<u8>) -> (r: Result<(ZipArchive<Cursor<Vec<u8>>>, char), ZipError>)
    ensures
        r is Ok <==> zip_opens(bytes@),
        r matches Ok((a, sep)) ==> {
            &&& archive_source(a) == bytes@
            &&& archive_sep(a) == sep
            &&& (sep == '/' || sep == '\\')
        },
{
    ZipArchive::new(Cursor::new(bytes)).map(|a| (a, std::path::MAIN_SEPARATOR))
}

/// Relies on zip::ZipArchive::len: the number of entries.
#[verifier::external_body]
fn archive_len(a: &ZipArchive<Cursor<Vec<u8>>>) -> (r: usize)
    ensures
        r == zip_count(archive_source(*a)),
{
    a.len()
}

/// Relies on zip::ZipArchive::by_index_decrypt with an empty password, which
/// hands a password error back as a value, and on the entry's `Read` impl,
/// `name` and `mangled_name`: entry `i` read to its end, or nothing when
/// either step fails. Reading moves only the reader's position.
#[verifier::external_body]
fn read_entry(a: &mut ZipArchive<Cursor<Vec<u8>>>, i: usize) -> (r: Option<ArchiveEntry>)
    requires
        i < zip_count(archive_source(*old(a))),
    ensures
        archive_source(*final(a)) == archive_source(*old(a)),
        archive_sep(*final(a)) == archive_sep(*old(a)),
        r is Some <==> zip_entry_readable(archive_source(*old(a)), i as int),
        r matches Some(e) ==> e@ == zip_entry(archive_source(*old(a)), i as int, archive_sep(*old(a))),
{
    let mut f = a.by_index_decrypt(i, b"").ok()?.ok()?;
    let mut data: Vec<u8> = Vec::new();
    std::io::Read::read_to_end(&mut f, &mut data).ok()?;
    let name = f.name().to_string();
    let sanitized = f.mangled_name().to_string_lossy().into_owned();
    Some(ArchiveEntry { name, sanitized, data })
}

/// Reads every entry of the zip archive held in `bytes`, in archive order,
/// with the path separator its entry paths use.
pub fn read_archive(bytes: Vec<u8>) -> (r: Result<(Vec<ArchiveEntry>, char), ExtractError>)
    ensures
        r is Ok <==> zip_readable(bytes@),
        r matches Ok((es, sep)) ==> {
            &&& (sep == '/' || sep == '\\')
            &&& entry_views(es@) == zip_entries(bytes@, sep)
        },
        r matches Err(e) ==> e is UnreadableArchive,
{
    let ghost src = bytes@;
    let (mut a, sep) = match open_archive(bytes) {
        Ok(x) => x,
        Err(_) => return Err(ExtractError::UnreadableArchive),
    };
    let n = archive_len(&a);
    let mut es: Vec<ArchiveEntry> = Vec::new();
    let mut i: usize = 0;
    while i < n
        invariant
            src == bytes@,
            archive_source(a) == src,
            archive_sep(a) == sep,
            zip_opens(src),
            n == zip_count(src),
            i <= n,
            es@.len() == i,
            forall|k: int| 0 <= k < i ==> #[trigger] zip_entry_readable(src, k),
            forall|k: int| 0 <= k < i ==> (#[trigger] es@[k])@ == zip_entry(src, k, sep),
        decreases n - i,
    {
        let e = match read_entry(&mut a, i) {
            Some(e) => e,
            None => {
                assert(!zip_entry_readable(src, i as int));
                return Err(ExtractError::UnreadableArchive);
            },
        };
        es.push(e);
        i = i + 1;
    }
    assert(entry_views(es@) =~= zip_entries(src, sep));
    Ok((es, sep))
}

} // verus!

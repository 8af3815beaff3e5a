//! Finding a tool's executable inside its downloaded release archive.
//!
//! The archive formats themselves are read by the `zip`, `tar` and `flate2`
//! crates; this module decides which entry is the executable and what goes
//! wrong when none is.

use std::io::Read;

use vstd::prelude::*;
use vstd::string::StringExecFns;

use crate::binary::entry_matches;
use crate::error::{BeamsError, ErrorModel};
use crate::parser::opt_seq;

verus! {

/// The file name of an archive entry is `entry` or `entry.exe`.
pub open spec fn names_entry(name: Option<Seq<char>>, entry: Seq<char>) -> bool {
    name matches Some(n) && (n == entry || n == entry + ".exe"@)
}

// ---------------------------------------------------------------------------
// zip
// ---------------------------------------------------------------------------
/// The number of entries `zip` finds in the archive `bytes`, or the text of
/// the error it reports opening it.
pub uninterp spec fn zip_entry_count(bytes: Seq<u8>) -> Result<nat, Seq<char>>;

/// The file name of entry `i` of the zip archive `bytes` (the last component
/// of its enclosed name, when that exists and is UTF-8), or the text of the
/// error `zip` reports getting at it.
pub uninterp spec fn zip_entry_name(bytes: Seq<u8>, i: nat) -> Result<Option<Seq<char>>, Seq<char>>;

/// What reading one archive entry to its end gives.
pub enum EntryRead {
    /// The entry's decompressed content.
    Data(Seq<u8>),
    /// The archive library refused to open the entry; its error's text.
    Refused(Seq<char>),
    /// Reading the entry's content failed.
    Failed,
}

/// What reading entry `i` of the zip archive `bytes` to its end gives.
pub uninterp spec fn zip_entry_read(bytes: Seq<u8>, i: nat) -> EntryRead;

/// Why reading an archive entry failed.
pub enum EntryReadError {
    /// The archive library refused the entry; its error's text.
    Archive(String),
    /// Reading the entry's content failed.
    Io(std::io::Error),
}

/// Calls `zip::ZipArchive::new` on `bytes` (through `std::io::Cursor`) and
/// `ZipArchive::len`. Claimed: the result, or the error's `Display` text, is a
/// function of `bytes` alone, named by [`zip_entry_count`].
#[verifier::external_body]
fn zip_count(bytes: &[u8]) -> (r: Result<usize, String>)
    ensures
        match r {
            Ok(n) => zip_entry_count(bytes@) == Ok::<nat, Seq<char>>(n as nat),
            Err(m) => zip_entry_count(bytes@) == Err::<nat, Seq<char>>(m@),
        },
{
    match zip::ZipArchive::new(std::io::Cursor::new(bytes)) {
        Ok(archive) => Ok(archive.len()),
        Err(e) => Err(e.to_string()),
    }
}

/// Calls `zip::ZipArchive::new` on `bytes`, `ZipArchive::by_index(i)` and
/// `ZipFile::enclosed_name`, keeping the name's last component when it is
/// UTF-8. Claimed: the result, or the error's `Display` text, is a function of
/// `bytes` and `i` alone, named by [`zip_entry_name`].
#[verifier::external_body]
fn zip_name(bytes: &[u8], i: usize) -> (r: Result<Option<String>, String>)
    ensures
        match r {
            Ok(n) => zip_entry_name(bytes@, i as nat) == Ok::<Option<Seq<char>>, Seq<char>>(opt_seq(n)),
            Err(m) => zip_entry_name(bytes@, i as nat) == Err::<Option<Seq<char>>, Seq<char>>(m@),
        },
{
    let mut archive = match zip::ZipArchive::new(std::io::Cursor::new(bytes)) {
        Ok(archive) => archive,
        Err(e) => return Err(e.to_string()),
    };
    let name = match archive.by_index(i) {
        Ok(file) => file.enclosed_name(),
        Err(e) => return Err(e.to_string()),
    };
    Ok(name.as_deref().and_then(|p| p.file_name()).and_then(|n| n.to_str()).map(|n| n.to_string()))
}

/// Calls `zip::ZipArchive::new` on `bytes`, `ZipArchive::by_index(i)` and
/// reads the entry to its end (`std::io::Read::read_to_end`). Claimed: the
/// outcome (the data read, the text of the error `zip` reports, or a failed
/// read) is a function of the in-memory `bytes` and `i` alone, named by
/// [`zip_entry_read`].
#[verifier::external_body]
fn zip_read(bytes: &[u8], i: usize) -> (r: Result<Vec<u8>, EntryReadError>)
    ensures
        match r {
            Ok(data) => zip_entry_read(bytes@, i as nat) == EntryRead::Data(data@),
            Err(EntryReadError::Archive(m)) => zip_entry_read(bytes@, i as nat)
                == EntryRead::Refused(m@),
            Err(EntryReadError::Io(_)) => zip_entry_read(bytes@, i as nat) is Failed,
        },
{
    let mut archive = match zip::ZipArchive::new(std::io::Cursor::new(bytes)) {
        Ok(archive) => archive,
        Err(e) => return Err(EntryReadError::Archive(e.to_string())),
    };
    let mut file = match archive.by_index(i) {
        Ok(file) => file,
        Err(e) => return Err(EntryReadError::Archive(e.to_string())),
    };
    let mut data = Vec::new();
    match file.read_to_end(&mut data) {
        Ok(_) => Ok(data),
        Err(e) => Err(EntryReadError::Io(e)),
    }
}

/// Scanning entries `i..count` of a zip archive for `entry`: the index of the
/// first one named `entry` or `entry.exe`, or the error that stops the scan.
pub open spec fn zip_find_from(bytes: Seq<u8>, entry: Seq<char>, count: nat, i: nat) -> Result<
    nat,
    ErrorModel,
>
    decreases count - i,
{
    if i >= count {
        Err(ErrorModel::Download(entry + " not found in the downloaded zip"@))
    } else {
        match zip_entry_name(bytes, i) {
            Err(m) => Err(ErrorModel::Download(m)),
            Ok(name) => if names_entry(name, entry) {
                Ok(i)
            } else {
                zip_find_from(bytes, entry, count, i + 1)
            },
        }
    }
}

/// The index of the entry named `entry` or `entry.exe` in the zip archive
/// `bytes` (the first such), or the error that prevents finding it.
pub open spec fn spec_zip_entry_index(bytes: Seq<u8>, entry: Seq<char>) -> Result<nat, ErrorModel> {
    match zip_entry_count(bytes) {
        Err(m) => Err(ErrorModel::Download(m)),
        Ok(n) => zip_find_from(bytes, entry, n, 0),
    }
}

/// The outcome of extracting `entry` (or `entry.exe`) from the zip archive
/// `bytes`: the first such entry's content when it reads, else the error.
pub open spec fn spec_extract_from_zip(bytes: Seq<u8>, entry: Seq<char>) -> Result<
    Seq<u8>,
    ErrorModel,
> {
    match spec_zip_entry_index(bytes, entry) {
        Err(e) => Err(e),
        Ok(i) => match zip_entry_read(bytes, i) {
            EntryRead::Data(d) => Ok(d),
            EntryRead::Refused(m) => Err(ErrorModel::Download(m)),
            EntryRead::Failed => Err(ErrorModel::Io),
        },
    }
}

/// Entry `j` of the zip archive `bytes` has a readable name other than
/// `entry` and `entry.exe`.
pub open spec fn zip_passes_over(bytes: Seq<u8>, entry: Seq<char>, j: nat) -> bool {
    zip_entry_name(bytes, j) matches Ok(n) && !names_entry(n, entry)
}

proof fn lemma_zip_find_from(bytes: Seq<u8>, entry: Seq<char>, count: nat, i: nat)
    ensures
        zip_find_from(bytes, entry, count, i) matches Ok(k) ==> {
            &&& i <= k < count
            &&& zip_entry_name(bytes, k) matches Ok(n) && names_entry(n, entry)
            &&& forall|j: nat| i <= j < k ==> #[trigger] zip_passes_over(bytes, entry, j)
        },
        (forall|j: nat| i <= j < count ==> #[trigger] zip_passes_over(bytes, entry, j))
            ==> zip_find_from(bytes, entry, count, i) == Err::<nat, ErrorModel>(
            ErrorModel::Download(entry + " not found in the downloaded zip"@),
        ),
    decreases count - i,
{
    if i < count {
        lemma_zip_find_from(bytes, entry, count, i + 1);
        if zip_entry_name(bytes, i) matches Ok(n) && !names_entry(n, entry) {
            assert(zip_passes_over(bytes, entry, i));
        }
        if forall|j: nat| i <= j < count ==> #[trigger] zip_passes_over(bytes, entry, j) {
            assert(zip_passes_over(bytes, entry, i));
            assert(forall|j: nat| i + 1 <= j < count ==> #[trigger] zip_passes_over(bytes, entry, j));
        }
    }
}

/// What is extracted from a zip archive is the content of its first entry
/// named `entry` or `entry.exe`: every entry before it has a readable name
/// that is neither. And an archive whose entries all have readable names,
/// none of them `entry` or `entry.exe`, gives the not-found error.
pub proof fn law_zip_extracts_the_first_matching_entry(bytes: Seq<u8>, entry: Seq<char>)
    ensures
        spec_extract_from_zip(bytes, entry) matches Ok(d) ==> exists|k: nat|
            {
                &&& zip_entry_count(bytes) matches Ok(n) && k < n
                &&& zip_entry_name(bytes, k) matches Ok(name) && names_entry(name, entry)
                &&& #[trigger] zip_entry_read(bytes, k) == EntryRead::Data(d)
                &&& forall|j: nat| j < k ==> #[trigger] zip_passes_over(bytes, entry, j)
            },
        zip_entry_count(bytes) matches Ok(n) && (forall|j: nat|
            j < n ==> #[trigger] zip_passes_over(bytes, entry, j)) ==> spec_extract_from_zip(
            bytes,
            entry,
        ) == Err::<Seq<u8>, ErrorModel>(
            ErrorModel::Download(entry + " not found in the downloaded zip"@),
        ),
{
    if let Ok(n) = zip_entry_count(bytes) {
        lemma_zip_find_from(bytes, entry, n, 0);
        if let Ok(k) = zip_find_from(bytes, entry, n, 0) {
            if zip_entry_read(bytes, k) is Data {
                assert(zip_entry_read(bytes, k) == EntryRead::Data(
                    spec_extract_from_zip(bytes, entry)->Ok_0,
                ));
            }
        }
    }
}

/// A byte result by its views.
pub open spec fn bytes_result(r: Result<Vec<u8>, BeamsError>) -> Result<Seq<u8>, ErrorModel> {
    match r {
        Ok(d) => Ok(d@),
        Err(e) => Err(e@),
    }
}

/// Extract the entry named `entry` (or `entry.exe`) from a zip archive: its
/// content, or the error.
pub fn extract_from_zip(bytes: &[u8], entry: &str) -> (r: Result<Vec<u8>, BeamsError>)
    ensures
        bytes_result(r) == spec_extract_from_zip(bytes@, entry@),
{
    let count = match zip_count(bytes) {
        Ok(n) => n,
        Err(m) => return Err(BeamsError::Download(m)),
    };
    let mut i: usize = 0;
    while i < count
        invariant
            i <= count,
            zip_entry_count(bytes@) == Ok::<nat, Seq<char>>(count as nat),
            spec_zip_entry_index(bytes@, entry@) == zip_find_from(
                bytes@,
                entry@,
                count as nat,
                i as nat,
            ),
        decreases count - i,
    {
        let name = match zip_name(bytes, i) {
            Ok(n) => n,
            Err(m) => return Err(BeamsError::Download(m)),
        };
        let matches = match &name {
            Some(n) => entry_matches(Some(n.as_str()), entry),
            None => entry_matches(None, entry),
        };
        if matches {
            return match zip_read(bytes, i) {
                Ok(data) => Ok(data),
                Err(EntryReadError::Archive(m)) => Err(BeamsError::Download(m)),
                Err(EntryReadError::Io(e)) => Err(BeamsError::Io(e)),
            };
        }
        i = i + 1;
    }
    let mut msg = entry.to_owned();
    msg.append(" not found in the downloaded zip");
    Err(BeamsError::Download(msg))
}

// ---------------------------------------------------------------------------
// gzip-compressed tarballs
// ---------------------------------------------------------------------------
/// What walking a gzip-compressed tarball finds at one position.
pub enum TarSlot {
    /// The archive has no entry here.
    End,
    /// Reading the archive failed before or at this entry.
    Failed,
    /// An entry, with the last component of its path when that is UTF-8.
    Entry(Option<Seq<char>>),
}

/// What `tar` (over `flate2`'s gzip decoder) finds at position `i` of the
/// tarball `bytes`.
pub uninterp spec fn tar_slot(bytes: Seq<u8>, i: nat) -> TarSlot;

/// What reading entry `i` of the gzip-compressed tarball `bytes` to its end
/// gives: its content, or `None` when reading fails.
pub uninterp spec fn tar_entry_read(bytes: Seq<u8>, i: nat) -> Option<Seq<u8>>;

/// Opens `bytes` with `tar::Archive::new(flate2::read::GzDecoder::new(..))`,
/// walks `Archive::entries` to position `i` and reads the entry's path
/// (`Entry::path`), keeping its last component when it is UTF-8. Claimed: what
/// is found is a function of `bytes` and `i` alone, named by [`tar_slot`].
#[verifier::external_body]
fn tar_entry(bytes: &[u8], i: usize) -> (r: Option<Result<Option<String>, std::io::Error>>)
    ensures
        match r {
            None => tar_slot(bytes@, i as nat) is End,
            Some(Err(_)) => tar_slot(bytes@, i as nat) is Failed,
            Some(Ok(n)) => tar_slot(bytes@, i as nat) == TarSlot::Entry(opt_seq(n)),
        },
{
    let mut archive = tar::Archive::new(flate2::read::GzDecoder::new(bytes));
    let entries = match archive.entries() {
        Ok(entries) => entries,
        Err(e) => return Some(Err(e)),
    };
    let found = match entries.skip(i).next()? {
        Ok(e) => e.path().map(|p| p.file_name().and_then(|n| n.to_str()).map(|n| n.to_string())),
        Err(e) => Err(e),
    };
    Some(found)
}

/// Opens `bytes` as [`tar_entry`] does, walks to entry `i` and reads it to its
/// end (`std::io::Read::read_to_end`). Claimed: whether the read succeeds, and
/// what it reads, is a function of the in-memory `bytes` and `i` alone, named
/// by [`tar_entry_read`].
#[verifier::external_body]
fn tar_read(bytes: &[u8], i: usize) -> (r: Result<Vec<u8>, std::io::Error>)
    ensures
        match r {
            Ok(data) => tar_entry_read(bytes@, i as nat) == Some(data@),
            Err(_) => tar_entry_read(bytes@, i as nat) is None,
        },
{
    let mut archive = tar::Archive::new(flate2::read::GzDecoder::new(bytes));
    let mut entry = match archive.entries()?.skip(i).next() {
        Some(entry) => entry?,
        None => return Err(std::io::Error::from(std::io::ErrorKind::UnexpectedEof)),
    };
    let mut data = Vec::new();
    entry.read_to_end(&mut data)?;
    Ok(data)
}

/// Walking a tarball from position `i` on, looking for `entry`: the position
/// of the first entry named `entry` or `entry.exe`, `Err(None)` when reading
/// fails first, `Err(Some(..))` when the archive ends first.
pub open spec fn tar_find_from(bytes: Seq<u8>, entry: Seq<char>, i: nat) -> Result<
    nat,
    Option<ErrorModel>,
>
    decreases usize::MAX - i,
{
    if i >= usize::MAX {
        Err(Some(ErrorModel::Download(entry + " not found in the downloaded archive"@)))
    } else {
        match tar_slot(bytes, i) {
            TarSlot::End => Err(
                Some(ErrorModel::Download(entry + " not found in the downloaded archive"@)),
            ),
            TarSlot::Failed => Err(None),
            TarSlot::Entry(name) => if names_entry(name, entry) {
                Ok(i)
            } else {
                tar_find_from(bytes, entry, i + 1)
            },
        }
    }
}

/// The outcome of extracting `entry` (or `entry.exe`) from the gzip tarball
/// `bytes`: the first such entry's content when it reads, else the error; a
/// failure to read the archive is an I/O error.
pub open spec fn spec_extract_from_tgz(bytes: Seq<u8>, entry: Seq<char>) -> Result<
    Seq<u8>,
    ErrorModel,
> {
    match tar_find_from(bytes, entry, 0) {
        Err(Some(e)) => Err(e),
        Err(None) => Err(ErrorModel::Io),
        Ok(i) => match tar_entry_read(bytes, i) {
            Some(d) => Ok(d),
            None => Err(ErrorModel::Io),
        },
    }
}

/// Position `j` of the tarball `bytes` holds an entry whose name is neither
/// `entry` nor `entry.exe`.
pub open spec fn tar_passes_over(bytes: Seq<u8>, entry: Seq<char>, j: nat) -> bool {
    tar_slot(bytes, j) matches TarSlot::Entry(n) && !names_entry(n, entry)
}

proof fn lemma_tar_find_from(bytes: Seq<u8>, entry: Seq<char>, i: nat)
    ensures
        tar_find_from(bytes, entry, i) matches Ok(k) ==> {
            &&& i <= k
            &&& tar_slot(bytes, k) matches TarSlot::Entry(n) && names_entry(n, entry)
            &&& forall|j: nat| i <= j < k ==> #[trigger] tar_passes_over(bytes, entry, j)
        },
    decreases usize::MAX - i,
{
    if i < usize::MAX {
        lemma_tar_find_from(bytes, entry, i + 1);
        if tar_slot(bytes, i) matches TarSlot::Entry(n) && !names_entry(n, entry) {
            assert(tar_passes_over(bytes, entry, i));
        }
    }
}

/// What is extracted from a gzip tarball is the content of its first entry
/// named `entry` or `entry.exe`: every entry before it is named otherwise.
pub proof fn law_tgz_extracts_the_first_matching_entry(bytes: Seq<u8>, entry: Seq<char>)
    ensures
        spec_extract_from_tgz(bytes, entry) matches Ok(d) ==> exists|k: nat|
            {
                &&& tar_slot(bytes, k) matches TarSlot::Entry(name) && names_entry(name, entry)
                &&& #[trigger] tar_entry_read(bytes, k) == Some(d)
                &&& forall|j: nat| j < k ==> #[trigger] tar_passes_over(bytes, entry, j)
            },
{
    lemma_tar_find_from(bytes, entry, 0);
    if let Ok(k) = tar_find_from(bytes, entry, 0) {
        if tar_entry_read(bytes, k) is Some {
            assert(tar_entry_read(bytes, k) == Some(spec_extract_from_tgz(bytes, entry)->Ok_0));
        }
    }
}

/// Extract the entry named `entry` (or `entry.exe`) from a gzip tarball: its
/// content, or the error. A failure to read the archive is an I/O error.
pub fn extract_from_tgz(bytes: &[u8], entry: &str) -> (r: Result<Vec<u8>, BeamsError>)
    ensures
        bytes_result(r) == spec_extract_from_tgz(bytes@, entry@),
{
    let mut i: usize = 0;
    while i < usize::MAX
        invariant
            tar_find_from(bytes@, entry@, 0) == tar_find_from(bytes@, entry@, i as nat),
        ensures
            tar_find_from(bytes@, entry@, 0) == Err::<nat, Option<ErrorModel>>(
                Some(ErrorModel::Download(entry@ + " not found in the downloaded archive"@)),
            ),
        decreases usize::MAX - i,
    {
        let name = match tar_entry(bytes, i) {
            None => break,
            Some(Err(e)) => return Err(BeamsError::Io(e)),
            Some(Ok(n)) => n,
        };
        let matches = match &name {
            Some(n) => entry_matches(Some(n.as_str()), entry),
            None => entry_matches(None, entry),
        };
        if matches {
            return match tar_read(bytes, i) {
                Ok(data) => Ok(data),
                Err(e) => Err(BeamsError::Io(e)),
            };
        }
        i = i + 1;
    }
    let mut msg = entry.to_owned();
    msg.append(" not found in the downloaded archive");
    Err(BeamsError::Download(msg))
}

} // verus!

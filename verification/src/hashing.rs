//! Content digests of the files that a run left in its output directory.

use crate::decimal::is_digit;
use crate::string_map::StringMap;
use sha2::Digest;
use vstd::prelude::*;
use vstd::string::StringExecFns;

verus! {

/// The SHA-256 digest of `data`, written as hexadecimal text.
pub uninterp spec fn sha256_hex(data: Seq<u8>) -> Seq<char>;

/// `c` is a hexadecimal digit in lower case.
pub open spec fn is_lower_hex(c: char) -> bool {
    is_digit(c) || 97 <= c as u32 <= 102
}

/// `s` has the shape of a SHA-256 digest in hexadecimal: 64 lower-case
/// hexadecimal digits.
pub open spec fn is_digest_text(s: Seq<char>) -> bool {
    s.len() == 64 && forall|i: int| 0 <= i < s.len() ==> is_lower_hex(#[trigger] s[i])
}

/// Calls `sha2::Sha256::digest` on `data` and formats the 32 bytes that it
/// returns with `{:x}`. The contract names the result [`sha256_hex`] and
/// claims its shape: two lower-case hexadecimal digits per byte. That the
/// text is the SHA-256 digest of `data` rests on the `sha2` crate.
#[verifier::external_body]
fn sha256_hex_of(data: &Vec<u8>) -> (out: String)
    ensures
        out@ == sha256_hex(data@),
        is_digest_text(out@),
{
    format!("{:x}", sha2::Sha256::digest(data))
}

/// What the scan of the output directory found under one name.
#[derive(Debug, Clone, PartialEq, Eq)]
pub enum EntryKind {
    /// A regular file, with its full content.
    File(Vec<u8>),
    /// A regular file that could not be read, with the reason.
    Unreadable(String),
    /// A subdirectory, or anything else that is not a regular file.
    NotAFile,
}

/// One immediate entry of the output directory.
#[derive(Debug, Clone, PartialEq, Eq)]
pub struct OutputEntry {
    /// The entry's name, relative to the output directory.
    pub name: String,
    pub kind: EntryKind,
}

/// Why the files of the output directory could not be hashed.
#[derive(Debug, Clone, PartialEq, Eq)]
pub enum HashError {
    /// The file of this name could not be read.
    Unreadable { name: String, reason: String },
}

impl HashError {
    /// The one-line diagnostic for this error: the file and the reason.
    pub open spec fn message_text(self) -> Seq<char> {
        match self {
            HashError::Unreadable { name, reason } => "Cannot hash "@ + name@ + ": "@ + reason@,
        }
    }

    /// The one-line diagnostic for this error.
    pub fn message(&self) -> (out: String)
        ensures
            out@ == self.message_text(),
    {
        match self {
            HashError::Unreadable { name, reason } => {
                let mut out = String::from_str("Cannot hash ");
                out.append(name.as_str());
                out.append(": ");
                out.append(reason.as_str());
                out
            },
        }
    }
}

/// Whether the entry is a regular file that could not be read.
pub open spec fn is_unreadable(entry: OutputEntry) -> bool {
    entry.kind is Unreadable
}

/// Whether any of the entries is a regular file that could not be read.
pub open spec fn any_unreadable(entries: Seq<OutputEntry>) -> bool {
    exists|i: int| 0 <= i < entries.len() && is_unreadable(#[trigger] entries[i])
}

/// The digests of the regular files among `entries`, by name. Entries that
/// are no regular files leave no trace; of two files of one name the later
/// counts.
pub open spec fn hashes_of(entries: Seq<OutputEntry>) -> Map<Seq<char>, Seq<char>>
    decreases entries.len(),
{
    if entries.len() == 0 {
        Map::empty()
    } else {
        let rest = hashes_of(entries.drop_last());
        match entries.last().kind {
            EntryKind::File(content) => rest.insert(entries.last().name@, sha256_hex(content@)),
            _ => rest,
        }
    }
}

/// The names of the regular files among `entries` that could be read.
pub open spec fn file_names(entries: Seq<OutputEntry>) -> Set<Seq<char>> {
    Set::new(
        |name: Seq<char>|
            exists|i: int|
                0 <= i < entries.len() && (#[trigger] entries[i]).kind is File && entries[i].name@
                    == name,
    )
}

/// Exactly the regular files have a digest.
pub proof fn lemma_hashes_cover_files(entries: Seq<OutputEntry>)
    ensures
        hashes_of(entries).dom() == file_names(entries),
    decreases entries.len(),
{
    if entries.len() == 0 {
        assert(hashes_of(entries).dom() =~= file_names(entries));
    } else {
        let front = entries.drop_last();
        lemma_hashes_cover_files(front);
        assert forall|name: Seq<char>|
            hashes_of(entries).dom().contains(name) == file_names(entries).contains(name) by {
            if file_names(entries).contains(name) {
                let i = choose|i: int|
                    0 <= i < entries.len() && (#[trigger] entries[i]).kind is File
                        && entries[i].name@ == name;
                if i < front.len() {
                    assert(front[i] == entries[i]);
                    assert(file_names(front).contains(name));
                }
            }
            if hashes_of(entries).dom().contains(name) {
                if hashes_of(front).dom().contains(name) {
                    let i = choose|i: int|
                        0 <= i < front.len() && (#[trigger] front[i]).kind is File && front[i].name@
                            == name;
                    assert(entries[i] == front[i]);
                } else {
                    assert(entries[entries.len() - 1].kind is File);
                }
            }
        }
        assert(hashes_of(entries).dom() =~= file_names(entries));
    }
}

/// A file whose name no later file shares is recorded with the digest of
/// its own content.
pub proof fn lemma_hash_of_file(entries: Seq<OutputEntry>, i: int)
    requires
        0 <= i < entries.len(),
        entries[i].kind is File,
        forall|j: int|
            i < j < entries.len() && entries[j].kind is File ==> entries[j].name@
                != entries[i].name@,
    ensures
        hashes_of(entries).dom().contains(entries[i].name@),
        hashes_of(entries)[entries[i].name@] == sha256_hex(entries[i].kind->File_0@),
    decreases entries.len(),
{
    if i < entries.len() - 1 {
        let front = entries.drop_last();
        assert(front[i] == entries[i]);
        lemma_hash_of_file(front, i);
    }
}

/// Files of the same content are recorded with the same digest, whatever
/// their names.
pub proof fn lemma_same_content_same_digest(entries: Seq<OutputEntry>, i: int, j: int)
    requires
        0 <= i < entries.len(),
        0 <= j < entries.len(),
        entries[i].kind is File,
        entries[j].kind is File,
        entries[i].kind->File_0@ == entries[j].kind->File_0@,
        forall|k: int|
            i < k < entries.len() && entries[k].kind is File ==> entries[k].name@
                != entries[i].name@,
        forall|k: int|
            j < k < entries.len() && entries[k].kind is File ==> entries[k].name@
                != entries[j].name@,
    ensures
        hashes_of(entries)[entries[i].name@] == hashes_of(entries)[entries[j].name@],
{
    lemma_hash_of_file(entries, i);
    lemma_hash_of_file(entries, j);
}

/// The digest of a file's content, as 64 lower-case hexadecimal digits.
pub fn calculate_file_hash(content: &Vec<u8>) -> (out: String)
    ensures
        out@ == sha256_hex(content@),
        is_digest_text(out@),
{
    sha256_hex_of(content)
}

/// Every value of `hashes` has the shape of a digest.
pub open spec fn all_digests(hashes: Map<Seq<char>, Seq<char>>) -> bool {
    forall|name: Seq<char>| hashes.dom().contains(name) ==> is_digest_text(#[trigger] hashes[name])
}

/// Whether `i` is the place of the first regular file among `entries` that
/// could not be read.
pub open spec fn is_first_unreadable(entries: Seq<OutputEntry>, i: int) -> bool {
    &&& 0 <= i < entries.len()
    &&& is_unreadable(entries[i])
    &&& forall|j: int| 0 <= j < i ==> !is_unreadable(#[trigger] entries[j])
}

/// Whether `error` names the first regular file among `entries` that could
/// not be read, with the reason given for it.
pub open spec fn is_hash_failure(entries: Seq<OutputEntry>, error: HashError) -> bool {
    exists|i: int|
        {
            &&& #[trigger] is_first_unreadable(entries, i)
            &&& error matches HashError::Unreadable { name, reason }
            &&& name@ == entries[i].name@
            &&& reason@ == entries[i].kind->Unreadable_0@
        }
}

/// The digests of the regular files among the immediate entries of the
/// output directory, by name, each as 64 lower-case hexadecimal digits.
/// Subdirectories are passed over. If any file could not be read there is
/// no map at all: the error names the first such file.
pub fn get_file_hashes(entries: &Vec<OutputEntry>) -> (out: Result<StringMap, HashError>)
    ensures
        match out {
            Ok(hashes) => {
                &&& !any_unreadable(entries@)
                &&& hashes@ == hashes_of(entries@)
                &&& all_digests(hashes@)
            },
            Err(error) => any_unreadable(entries@) && is_hash_failure(entries@, error),
        },
{
    let mut hashes = StringMap::new();
    let mut i: usize = 0;
    while i < entries.len()
        invariant
            i <= entries.len(),
            hashes@ == hashes_of(entries@.take(i as int)),
            all_digests(hashes@),
            forall|j: int| 0 <= j < i ==> !is_unreadable(#[trigger] entries@[j]),
        decreases entries.len() - i,
    {
        assert(entries@.take(i + 1).drop_last() =~= entries@.take(i as int));
        match &entries[i].kind {
            EntryKind::File(content) => {
                let digest = calculate_file_hash(content);
                hashes.insert(entries[i].name.clone(), digest);
            },
            EntryKind::Unreadable(reason) => {
                assert(is_first_unreadable(entries@, i as int));
                return Err(
                    HashError::Unreadable { name: entries[i].name.clone(), reason: reason.clone() },
                );
            },
            EntryKind::NotAFile => {},
        }
        i += 1;
    }
    assert(entries@.take(entries.len() as int) =~= entries@);
    Ok(hashes)
}

} // verus!

//! The folder of a workspace: the one that it already has, or a new one with a
//! hash of the path of the workspace in its name.

use crate::fresh::is_small_hex;
use crate::model::{opt_str, opt_text};
use crate::qoder::Qoder;
use crate::text::{ascii_lowercase, joined, lowered, strip_prefix};
use vstd::prelude::*;
use vstd::utf8::encode_utf8;

verus! {

// ---------------------------------------------------------------------------
// The hash of a workspace
// ---------------------------------------------------------------------------

/// The SHA-256 digest of the bytes.
pub uninterp spec fn sha256_digest(data: Seq<u8>) -> Seq<u8>;

/// `sha2::Sha256::digest`: the bytes alone decide their digest, which is 32
/// bytes long.
#[verifier::external_body]
fn sha256(data: &[u8]) -> (digest: Vec<u8>)
    ensures
        digest@ == sha256_digest(data@),
        digest@.len() == 32,
{
    <sha2::Sha256 as sha2::Digest>::digest(data).to_vec()
}

/// A hexadecimal digit.
pub open spec fn hex_digit(value: int) -> char {
    if value < 10 {
        ('0' as u8 + value) as char
    } else {
        ('a' as u8 + value - 10) as char
    }
}

/// The bytes as small hexadecimal digits, two for each.
pub open spec fn hex_text(bytes: Seq<u8>) -> Seq<char> {
    Seq::new(
        2 * bytes.len(),
        |i: int|
            if i % 2 == 0 {
                hex_digit(bytes[i / 2] as int / 16)
            } else {
                hex_digit(bytes[i / 2] as int % 16)
            },
    )
}

/// How many bytes of a digest a hash shows.
pub const HASH_BYTES: usize = 4;

/// The hash of a workspace: the first bytes of the digest of its path in small
/// letters.
pub open spec fn hash_of(path: Seq<char>) -> Seq<char> {
    hex_text(sha256_digest(encode_utf8(lowered(path))).take(HASH_BYTES as int))
}

/// A hexadecimal digit.
fn digit(value: u8) -> (c: char)
    requires
        value < 16,
    ensures
        c == hex_digit(value as int),
{
    if value < 10 {
        (48 + value) as char
    } else {
        (97 + (value - 10)) as char
    }
}

/// The first bytes of a digest, as many as a hash shows, as hexadecimal digits.
pub fn short_hex(digest: &Vec<u8>) -> (text: String)
    requires
        digest@.len() >= HASH_BYTES,
    ensures
        text@ == hex_text(digest@.take(HASH_BYTES as int)),
{
    let ghost all = hex_text(digest@.take(HASH_BYTES as int));
    let mut text = String::new();
    let mut at: usize = 0;
    assert(text@ =~= all.take(0));
    while at < HASH_BYTES
        invariant
            at <= HASH_BYTES <= digest@.len(),
            all == hex_text(digest@.take(HASH_BYTES as int)),
            text@ == all.take(2 * at as int),
        decreases HASH_BYTES - at,
    {
        let byte: u8 = digest[at];
        let ghost before = text@;
        text.push(digit(byte / 16));
        text.push(digit(byte % 16));
        proof {
            let k = 2 * at as int;
            assert(k / 2 == at && k % 2 == 0 && (k + 1) / 2 == at && (k + 1) % 2 == 1);
            assert(text@ =~= all.take(k + 2));
        }
        at += 1;
    }
    assert(all.take(2 * at as int) =~= all);
    text
}

/// Hexadecimal digits are small hexadecimal digits.
proof fn lemma_hex_text(bytes: Seq<u8>)
    ensures
        forall|i: int|
            0 <= i < hex_text(bytes).len() ==> is_small_hex(#[trigger] hex_text(bytes)[i]),
{
}

/// The hash of the workspace at `path`: eight small hexadecimal digits.
pub fn workspace_hash(path: &str) -> (hash: String)
    ensures
        hash@ == hash_of(path@),
        hash@.len() == 8,
        forall|i: int| 0 <= i < 8 ==> is_small_hex(#[trigger] hash@[i]),
{
    let low = ascii_lowercase(path);
    let digest = sha256(low.as_str().as_bytes());
    proof {
        lemma_hex_text(digest@.take(HASH_BYTES as int));
    }
    short_hex(&digest)
}

/// The case of ASCII letters in the path of a workspace makes no difference to
/// its hash.
pub proof fn law_hash_ignores_case(path: Seq<char>, other: Seq<char>)
    requires
        lowered(path) == lowered(other),
    ensures
        hash_of(path) == hash_of(other),
{
}

// ---------------------------------------------------------------------------
// The folder of a workspace
// ---------------------------------------------------------------------------

/// An entry of the directory of the projects: whether it is a directory, its
/// name, if it is text, and when it was last changed, in nanoseconds since the
/// epoch, if that is known.
#[derive(Debug, PartialEq)]
pub struct FolderEntry {
    pub is_dir: bool,
    pub name: Option<String>,
    pub modified: Option<i128>,
}

/// The name of the workspace at the path `workspace`: the last name of that
/// path, `basename`, if it has one that is text, and that is not empty.
pub open spec fn workspace_name(
    workspace: Option<Seq<char>>,
    basename: Option<Seq<char>>,
) -> Option<Seq<char>> {
    match basename {
        Some(name) => if workspace is Some && name.len() > 0 {
            Some(name)
        } else {
            None
        },
        None => None,
    }
}

/// The entry is a folder of the workspace called `name`: a directory that is
/// named so, with a hyphen and whatever after it.
pub open spec fn is_folder_of(entry: FolderEntry, name: Seq<char>) -> bool {
    entry.is_dir && (entry.name matches Some(text) && name.push('-').is_prefix_of(text@))
}

/// When an entry was last changed; at the epoch, where that is not known.
pub open spec fn changed_at(entry: FolderEntry) -> int {
    match entry.modified {
        Some(nanos) => nanos as int,
        None => 0,
    }
}

/// The entry at `i` is, of the folders of the workspace called `name`, the one
/// changed last, and the first of those changed at that time.
pub open spec fn is_newest(entries: Seq<FolderEntry>, name: Seq<char>, i: int) -> bool {
    &&& 0 <= i < entries.len()
    &&& is_folder_of(entries[i], name)
    &&& forall|j: int|
        0 <= j < entries.len() && is_folder_of(#[trigger] entries[j], name) ==> changed_at(
            entries[j],
        ) <= changed_at(entries[i]) && (j < i ==> changed_at(entries[j]) < changed_at(entries[i]))
}

/// The workspace called `name` has a folder among the entries.
pub open spec fn has_folder(entries: Seq<FolderEntry>, name: Seq<char>) -> bool {
    exists|i: int| 0 <= i < entries.len() && is_folder_of(#[trigger] entries[i], name)
}

/// `folder` is the folder of a workspace, given the entries of the directory of
/// the projects, if that could be read: the newest of the folders that it has;
/// where it has none, its name, a hyphen and its hash; and none, where the
/// workspace has no name.
pub open spec fn is_project_folder(
    folder: Option<Seq<char>>,
    workspace: Option<Seq<char>>,
    basename: Option<Seq<char>>,
    entries: Option<Seq<FolderEntry>>,
) -> bool {
    match workspace_name(workspace, basename) {
        None => folder is None,
        Some(name) => if entries is Some && has_folder(entries.unwrap(), name) {
            exists|i: int| #[trigger]
                is_newest(entries.unwrap(), name, i) && folder == Some(
                    entries.unwrap()[i].name.unwrap()@,
                )
        } else {
            folder == Some(name.push('-') + hash_of(workspace.unwrap()))
        },
    }
}

/// One folder of a workspace at most is the newest, so that what is found in the
/// directory of the projects settles which folder a workspace has.
pub proof fn law_newest_folder_is_one(entries: Seq<FolderEntry>, name: Seq<char>, i: int, j: int)
    requires
        is_newest(entries, name, i),
        is_newest(entries, name, j),
    ensures
        i == j,
{
    assert(is_folder_of(entries[i], name) && is_folder_of(entries[j], name));
}

/// The folder of a workspace begins with the name of the workspace and a hyphen.
pub proof fn law_project_folder_is_named_after_workspace(
    folder: Seq<char>,
    workspace: Option<Seq<char>>,
    basename: Option<Seq<char>>,
    entries: Option<Seq<FolderEntry>>,
)
    requires
        is_project_folder(Some(folder), workspace, basename, entries),
    ensures
        workspace_name(workspace, basename) is Some,
        workspace_name(workspace, basename).unwrap().push('-').is_prefix_of(folder),
{
    let name = workspace_name(workspace, basename).unwrap();
    if entries is Some && has_folder(entries.unwrap(), name) {
        let all = entries.unwrap();
        let i = choose|i: int| #[trigger]
            is_newest(all, name, i) && Some(folder) == Some(all[i].name.unwrap()@);
        assert(is_folder_of(all[i], name));
    } else {
        assert(folder.take(name.push('-').len() as int) =~= name.push('-'));
    }
}

/// What the entries are, if the directory could be read.
pub open spec fn opt_entries(entries: Option<&Vec<FolderEntry>>) -> Option<Seq<FolderEntry>> {
    match entries {
        Some(list) => Some(list@),
        None => None,
    }
}

/// Where the newest folder of the workspace called `name` stands among the
/// entries; `prefix` is that name and a hyphen.
fn newest_folder(entries: &Vec<FolderEntry>, prefix: &str, Ghost(name): Ghost<Seq<char>>) -> (found:
    Option<usize>)
    requires
        prefix@ == name.push('-'),
    ensures
        found is Some == has_folder(entries@, name),
        found matches Some(i) ==> is_newest(entries@, name, i as int),
{
    let mut best: Option<usize> = None;
    let mut latest: i128 = 0;
    let mut at: usize = 0;
    while at < entries.len()
        invariant
            at <= entries@.len(),
            prefix@ == name.push('-'),
            best is None ==> forall|j: int|
                0 <= j < at ==> !is_folder_of(#[trigger] entries@[j], name),
            best matches Some(i) ==> {
                &&& i < at
                &&& is_folder_of(entries@[i as int], name)
                &&& latest == changed_at(entries@[i as int])
                &&& forall|j: int|
                    0 <= j < at && is_folder_of(#[trigger] entries@[j], name) ==> changed_at(
                        entries@[j],
                    ) <= latest && (j < i ==> changed_at(entries@[j]) < latest)
            },
        decreases entries@.len() - at,
    {
        let entry = &entries[at];
        if let Some(text) = &entry.name {
            if entry.is_dir && strip_prefix(text.as_str(), prefix).is_some() {
                let changed: i128 = match entry.modified {
                    Some(nanos) => nanos,
                    None => 0,
                };
                match best {
                    Some(_) if latest >= changed => {},
                    _ => {
                        best = Some(at);
                        latest = changed;
                    },
                }
            }
        }
        at += 1;
    }
    best
}

impl Qoder {
    /// The folder of the workspace at the path `workspace`. `basename` is the last
    /// name of that path, if it has one that is text; `entries` are those of the
    /// directory of the projects, if that could be read.
    pub fn project_folder_for(
        workspace: Option<&str>,
        basename: Option<&str>,
        entries: Option<&Vec<FolderEntry>>,
    ) -> (folder: Option<String>)
        ensures
            is_project_folder(
                opt_text(folder),
                opt_str(workspace),
                opt_str(basename),
                opt_entries(entries),
            ),
            folder matches Some(text) ==> (entries matches Some(list) && has_folder(
                list@,
                basename.unwrap()@,
            )) || text@.len() == basename.unwrap()@.len() + 9,
    {
        let (path, basename) = match (workspace, basename) {
            (Some(path), Some(name)) if !name.is_empty() => (path, name),
            _ => return None,
        };
        let prefix = joined(basename, "-");
        proof {
            reveal_strlit("-");
            assert(prefix@ =~= basename@.push('-'));
        }
        if let Some(list) = entries {
            if let Some(i) = newest_folder(list, prefix.as_str(), Ghost(basename@)) {
                assert(is_newest(list@, basename@, i as int));
                if let Some(name) = &list[i].name {
                    return Some(name.clone());
                }
            }
        }
        let hash = workspace_hash(path);
        Some(joined(prefix.as_str(), hash.as_str()))
    }
}

} // verus!

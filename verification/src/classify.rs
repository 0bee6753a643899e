//! Classification of a discovered file: whether it is scanned at all, and
//! how its content is to be read.

use vstd::prelude::*;
use vstd::string::*;

verus! {

/// A file larger than this many bytes is read whole rather than streamed.
pub const LARGE_FILE_THRESHOLD: u64 = 1048576;

/// The number of leading bytes that are looked at for a NUL byte.
pub const BINARY_CHECK_BYTES: usize = 512;

/// The most files that are scanned side by side, where the caller names no
/// other limit.
pub const MAX_CONCURRENT_SCANS: usize = 10;

/// What is done with a discovered file.
#[derive(Debug, Clone, Copy, PartialEq, Eq, Structural)]
pub enum Classification {
    /// Scanned, its lines streamed.
    Normal,
    /// Scanned, its content read whole.
    Large,
    /// Left out: a NUL byte stands among its leading bytes.
    Binary,
    /// Left out: it could not be read.
    Skipped,
}

impl Classification {
    /// Whether a file of this class is scanned.
    pub open spec fn scanned(self) -> bool {
        self == Classification::Normal || self == Classification::Large
    }

    /// Whether a file of this class is scanned.
    pub fn is_scanned(&self) -> (r: bool)
        ensures
            r == self.scanned(),
    {
        match self {
            Classification::Normal => true,
            Classification::Large => true,
            Classification::Binary => false,
            Classification::Skipped => false,
        }
    }
}

/// Whether a NUL byte stands among the first 512 of the bytes.
pub open spec fn has_nul_in_prefix(bytes: Seq<u8>) -> bool {
    exists|i: int| 0 <= i < bytes.len() && i < BINARY_CHECK_BYTES && #[trigger] bytes[i] == 0u8
}

/// The class of a file of `size` bytes, given its leading bytes, or `None`
/// where it could not be read. An unreadable file is skipped; a NUL byte
/// among the first 512 bytes makes the file binary; of the others, those
/// above the threshold are large and the rest normal.
pub open spec fn classification_of(size: u64, sniff: Option<Seq<u8>>) -> Classification {
    match sniff {
        None => Classification::Skipped,
        Some(bytes) => if has_nul_in_prefix(bytes) {
            Classification::Binary
        } else if size > LARGE_FILE_THRESHOLD {
            Classification::Large
        } else {
            Classification::Normal
        },
    }
}

/// Whether the leading bytes of a file mark it as binary.
pub fn is_binary_prefix(bytes: &[u8]) -> (r: bool)
    ensures
        r == has_nul_in_prefix(bytes@),
{
    let mut i: usize = 0;
    while i < bytes.len() && i < BINARY_CHECK_BYTES
        invariant
            i <= bytes.len(),
            i <= BINARY_CHECK_BYTES,
            forall|k: int| 0 <= k < i ==> bytes@[k] != 0u8,
        decreases bytes.len() - i,
    {
        if bytes[i] == 0 {
            return true;
        }
        i += 1;
    }
    false
}

/// Classifies a file of `size` bytes from its leading bytes, or from the
/// fact that it could not be read.
pub fn classify(size: u64, sniff: Option<&[u8]>) -> (class: Classification)
    ensures
        class == classification_of(
            size,
            match sniff {
                Some(bytes) => Some(bytes@),
                None => None,
            },
        ),
{
    match sniff {
        None => Classification::Skipped,
        Some(bytes) => {
            if is_binary_prefix(bytes) {
                Classification::Binary
            } else if size > LARGE_FILE_THRESHOLD {
                Classification::Large
            } else {
                Classification::Normal
            }
        },
    }
}

/// One discovered file with its class. The class is settled when the task
/// is made and cannot be changed afterwards.
#[derive(Debug)]
pub struct FileTask {
    path: String,
    size: u64,
    classification: Classification,
}

impl FileTask {
    /// The file's path.
    pub closed spec fn spec_path(&self) -> Seq<char> {
        self.path@
    }

    /// The file's size in bytes.
    pub closed spec fn spec_size(&self) -> u64 {
        self.size
    }

    /// The file's class.
    pub closed spec fn spec_classification(&self) -> Classification {
        self.classification
    }

    /// The task for a discovered file, classified from its size and its
    /// leading bytes.
    pub fn new(path: String, size: u64, sniff: Option<&[u8]>) -> (task: FileTask)
        ensures
            task.spec_path() == path@,
            task.spec_size() == size,
            task.spec_classification() == classification_of(
                size,
                match sniff {
                    Some(bytes) => Some(bytes@),
                    None => None,
                },
            ),
    {
        FileTask { path, size, classification: classify(size, sniff) }
    }

    /// The file's path.
    pub fn path(&self) -> (path: &String)
        ensures
            path@ == self.spec_path(),
    {
        &self.path
    }

    /// The file's size in bytes.
    pub fn size(&self) -> (size: u64)
        ensures
            size == self.spec_size(),
    {
        self.size
    }

    /// The file's class.
    pub fn classification(&self) -> (class: Classification)
        ensures
            class == self.spec_classification(),
    {
        self.classification
    }
}

} // verus!

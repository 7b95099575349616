//! Directory sizes from the entries of a walk below the directory.
use vstd::prelude::*;

verus! {

/// One entry found below a directory: whether it is a regular file, and its
/// length in bytes when its metadata could be read.
#[derive(Clone, Copy, Debug, PartialEq, Eq, Structural)]
pub struct SizeEntry {
    pub is_file: bool,
    pub len: Option<u64>,
}

/// Why a directory's size could not be given.
#[derive(Clone, Copy, Debug, PartialEq, Eq, Structural)]
pub enum SizeError {
    /// The regular file at this index of the entry list has no readable length.
    Unreadable { index: usize },
    /// The total does not fit in 64 bits.
    Overflow,
}

/// What an entry adds to its directory's size: a regular file its length,
/// anything else nothing.
pub open spec fn entry_bytes(e: SizeEntry) -> int {
    if e.is_file {
        match e.len {
            Some(n) => n as int,
            None => 0,
        }
    } else {
        0
    }
}

/// The sum of the lengths of the regular files among `s`.
pub open spec fn file_bytes(s: Seq<SizeEntry>) -> int
    decreases s.len(),
{
    if s.len() == 0 {
        0
    } else {
        file_bytes(s.drop_last()) + entry_bytes(s.last())
    }
}

pub open spec fn unreadable(e: SizeEntry) -> bool {
    e.is_file && e.len.is_none()
}

/// `i` is the first regular file of `s` whose length is unknown.
pub open spec fn first_unreadable(s: Seq<SizeEntry>, i: int) -> bool {
    &&& 0 <= i < s.len()
    &&& unreadable(s[i])
    &&& forall|k: int| 0 <= k < i ==> !#[trigger] unreadable(s[k])
}

pub open spec fn all_readable(s: Seq<SizeEntry>) -> bool {
    forall|k: int| 0 <= k < s.len() ==> !#[trigger] unreadable(s[k])
}

proof fn lemma_file_bytes_nonneg(s: Seq<SizeEntry>)
    ensures
        file_bytes(s) >= 0,
    decreases s.len(),
{
    if s.len() > 0 {
        lemma_file_bytes_nonneg(s.drop_last());
    }
}

/// The size of a directory: the sum of the lengths of the regular files
/// among the entries below it.
///
/// A regular file whose length is unknown makes the whole size unknown; the
/// first such file is named.
pub fn calculate_dir_size(entries: &Vec<SizeEntry>) -> (r: Result<u64, SizeError>)
    ensures
        match r {
            Ok(n) => all_readable(entries@) && n == file_bytes(entries@),
            Err(SizeError::Unreadable { index }) => first_unreadable(entries@, index as int),
            Err(SizeError::Overflow) => all_readable(entries@) && file_bytes(entries@) > u64::MAX,
        },
{
    let mut i: usize = 0;
    while i < entries.len()
        invariant
            i <= entries.len(),
            forall|k: int| 0 <= k < i ==> !#[trigger] unreadable(entries@[k]),
        decreases entries.len() - i,
    {
        let e = entries[i];
        if e.is_file && e.len.is_none() {
            return Err(SizeError::Unreadable { index: i });
        }
        i = i + 1;
    }
    let mut total: u64 = 0;
    let mut j: usize = 0;
    while j < entries.len()
        invariant
            j <= entries.len(),
            all_readable(entries@),
            total == file_bytes(entries@.subrange(0, j as int)),
        decreases entries.len() - j,
    {
        let e = entries[j];
        assert(entries@.subrange(0, j + 1).drop_last() =~= entries@.subrange(0, j as int));
        if e.is_file {
            if let Some(n) = e.len {
                if n > u64::MAX - total {
                    proof {
                        lemma_file_bytes_nonneg(entries@.subrange(0, j + 1));
                        lemma_file_bytes_grows(entries@, j + 1);
                    }
                    return Err(SizeError::Overflow);
                }
                total = total + n;
            }
        }
        j = j + 1;
    }
    assert(entries@.subrange(0, entries.len() as int) =~= entries@);
    Ok(total)
}

/// A longer list holds at least the bytes of its prefix.
proof fn lemma_file_bytes_grows(s: Seq<SizeEntry>, j: int)
    requires
        0 <= j <= s.len(),
    ensures
        file_bytes(s.subrange(0, j)) <= file_bytes(s),
    decreases s.len() - j,
{
    if j < s.len() {
        lemma_file_bytes_grows(s, j + 1);
        assert(s.subrange(0, j + 1).drop_last() =~= s.subrange(0, j));
    } else {
        assert(s.subrange(0, j) =~= s);
    }
}

/// The bytes counted for an informational total: a size that could not be
/// computed counts as zero.
pub open spec fn known_bytes(s: Seq<Option<u64>>) -> int
    decreases s.len(),
{
    if s.len() == 0 {
        0
    } else {
        known_bytes(s.drop_last()) + match s.last() {
            Some(n) => n as int,
            None => 0,
        }
    }
}

/// The total of the directory sizes that could be computed, saturating at
/// the largest 64-bit value.
pub fn estimate_total(sizes: &Vec<Option<u64>>) -> (r: u64)
    ensures
        r == if known_bytes(sizes@) > u64::MAX { u64::MAX as int } else { known_bytes(sizes@) },
{
    let mut total: u64 = 0;
    let mut saturated = false;
    let mut j: usize = 0;
    while j < sizes.len()
        invariant
            j <= sizes.len(),
            saturated ==> total == u64::MAX,
            saturated ==> known_bytes(sizes@.subrange(0, j as int)) > u64::MAX,
            !saturated ==> total == known_bytes(sizes@.subrange(0, j as int)),
        decreases sizes.len() - j,
    {
        assert(sizes@.subrange(0, j + 1).drop_last() =~= sizes@.subrange(0, j as int));
        let n: u64 = match sizes[j] {
            Some(n) => n,
            None => 0,
        };
        if n > u64::MAX - total {
            total = u64::MAX;
            saturated = true;
        } else {
            total = total + n;
        }
        j = j + 1;
    }
    assert(sizes@.subrange(0, sizes.len() as int) =~= sizes@);
    total
}

} // verus!

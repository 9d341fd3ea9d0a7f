use vstd::prelude::*;

use crate::error::Error as BaseError;
use crate::error::Result;

verus! {

/// The failure of a listing that found the directory but no file in it.
#[derive(Debug, Clone, Copy, PartialEq, Eq, Structural)]
pub enum Error {
    NoFilesFound,
}

/// What the file system said of an entry's type.
#[derive(Debug, Clone, Copy, PartialEq, Eq, Structural)]
pub enum EntryKind {
    /// A plain file.
    RegularFile,
    /// A directory, a symbolic link, a device, a socket, ...
    NotRegularFile,
    /// The type could not be determined.
    Undetermined,
}

/// One entry of a directory enumeration, as the file system reported it.
#[derive(Debug)]
pub enum RawEntry {
    /// The entry could not be read.
    Unreadable,
    /// The entry was read; `name` is its base name, or `None` where that
    /// name is not valid text.
    Read { kind: EntryKind, name: Option<String> },
}

/// The name under which an entry is listed: the base name of a readable
/// regular file whose name is text, and nothing for any other entry.
pub open spec fn file_name_of(e: RawEntry) -> Option<Seq<char>> {
    match e {
        RawEntry::Read { kind: EntryKind::RegularFile, name: Some(n) } => Some(n@),
        _ => None,
    }
}

/// The names that one entry contributes to a listing: none or one.
pub open spec fn entry_names(e: RawEntry) -> Seq<Seq<char>> {
    match file_name_of(e) {
        Some(n) => seq![n],
        None => seq![],
    }
}

/// The names of the files among `entries`, in enumeration order.
pub open spec fn file_names(entries: Seq<RawEntry>) -> Seq<Seq<char>>
    decreases entries.len(),
{
    if entries.len() == 0 {
        seq![]
    } else {
        file_names(entries.drop_last()) + entry_names(entries.last())
    }
}

/// The text values of a list of names.
pub open spec fn name_views(names: Seq<String>) -> Seq<Seq<char>> {
    names.map_values(|s: String| s@)
}

/// The names of a concatenation of enumerations are those of the first
/// followed by those of the second.
pub proof fn lemma_file_names_concat(a: Seq<RawEntry>, b: Seq<RawEntry>)
    ensures
        file_names(a + b) == file_names(a) + file_names(b),
    decreases b.len(),
{
    if b.len() == 0 {
        assert(a + b == a);
        assert(file_names(b) == Seq::<Seq<char>>::empty());
        assert(file_names(a) + file_names(b) == file_names(a));
    } else {
        lemma_file_names_concat(a, b.drop_last());
        assert((a + b).drop_last() == a + b.drop_last());
        assert((a + b).last() == b.last());
        assert(file_names(a + b) == file_names(a) + file_names(b.drop_last()) + entry_names(
            b.last(),
        ));
        assert(file_names(a) + file_names(b) == file_names(a) + file_names(b.drop_last())
            + entry_names(b.last()));
    }
}

/// A name is listed exactly when some entry is a readable regular file that
/// bears it: subdirectories and other non-regular entries never are.
pub proof fn lemma_listed_iff_regular_file(entries: Seq<RawEntry>, n: Seq<char>)
    ensures
        file_names(entries).contains(n) <==> exists|j: int|
            0 <= j < entries.len() && #[trigger] file_name_of(entries[j]) == Some(n),
    decreases entries.len(),
{
    if entries.len() > 0 {
        let rest = entries.drop_last();
        lemma_listed_iff_regular_file(rest, n);
        let last_names = entry_names(entries.last());
        assert(file_names(entries) == file_names(rest) + last_names);
        if file_names(entries).contains(n) {
            let k = choose|k: int| 0 <= k < file_names(entries).len() && file_names(entries)[k] == n;
            if k < file_names(rest).len() {
                assert(file_names(rest)[k] == n);
            } else {
                assert(file_name_of(entries[entries.len() - 1]) == Some(n));
            }
        }
        if exists|j: int| 0 <= j < entries.len() && #[trigger] file_name_of(entries[j]) == Some(n) {
            let j = choose|j: int| 0 <= j < entries.len() && #[trigger] file_name_of(entries[j]) == Some(n);
            if j < entries.len() - 1 {
                assert(rest[j] == entries[j]);
                let k = choose|k: int| 0 <= k < file_names(rest).len() && file_names(rest)[k] == n;
                assert(file_names(entries)[k] == n);
            } else {
                assert(file_names(entries)[file_names(rest).len() as int] == n);
            }
        }
    }
}

/// A listing is empty exactly when no entry is a readable regular file
/// named in text: an empty directory, or one of subdirectories only, lists
/// nothing.
pub proof fn lemma_empty_iff_no_regular_file(entries: Seq<RawEntry>)
    ensures
        file_names(entries).len() == 0 <==> forall|j: int|
            0 <= j < entries.len() ==> #[trigger] file_name_of(entries[j]) is None,
{
    if file_names(entries).len() > 0 {
        let n = file_names(entries)[0];
        assert(file_names(entries).contains(n));
        lemma_listed_iff_regular_file(entries, n);
    } else {
        assert forall|j: int| 0 <= j < entries.len() implies #[trigger] file_name_of(
            entries[j],
        ) is None by {
            if let Some(n) = file_name_of(entries[j]) {
                lemma_listed_iff_regular_file(entries, n);
            }
        }
    }
}

/// The same entries enumerated in another order list the same names, each
/// as often, in some order.
pub proof fn lemma_order_independent(a: Seq<RawEntry>, b: Seq<RawEntry>)
    requires
        a.to_multiset() == b.to_multiset(),
    ensures
        file_names(a).to_multiset() == file_names(b).to_multiset(),
    decreases a.len(),
{
    broadcast use vstd::seq_lib::group_to_multiset_ensures;

    if a.len() == 0 {
        assert(a.to_multiset().len() == a.len());
        assert(b.to_multiset().len() == b.len());
        assert(b.len() == 0);
        assert(file_names(a) == file_names(b));
    } else {
        let x = a.last();
        let a1 = a.drop_last();
        assert(a == a1.push(x));
        assert(b.to_multiset().count(x) > 0);
        assert(b.contains(x));
        let k = choose|k: int| 0 <= k < b.len() && b[k] == x;
        let b0 = b.subrange(0, k);
        let b2 = b.subrange(k + 1, b.len() as int);
        let b1 = b.remove(k);
        assert(b1 == b0 + b2);
        assert(b == b0 + seq![x] + b2);
        assert(a1.to_multiset() == b1.to_multiset());
        lemma_order_independent(a1, b1);
        lemma_file_names_concat(b0, b2);
        lemma_file_names_concat(b0, seq![x]);
        lemma_file_names_concat(b0 + seq![x], b2);
        assert(seq![x].drop_last() == Seq::<RawEntry>::empty());
        assert(file_names(Seq::<RawEntry>::empty()) == Seq::<Seq<char>>::empty());
        assert(Seq::<Seq<char>>::empty() + entry_names(x) == entry_names(x));
        assert(file_names(seq![x]) == entry_names(x));
        assert(file_names(a) == file_names(a1) + entry_names(x));
        assert(file_names(b) == file_names(b0) + entry_names(x) + file_names(b2));
        assert(file_names(b1) == file_names(b0) + file_names(b2));
        let m0 = file_names(b0).to_multiset();
        let m2 = file_names(b2).to_multiset();
        let mx = entry_names(x).to_multiset();
        vstd::seq_lib::lemma_multiset_commutative(file_names(b0), file_names(b2));
        vstd::seq_lib::lemma_multiset_commutative(file_names(a1), entry_names(x));
        vstd::seq_lib::lemma_multiset_commutative(file_names(b0), entry_names(x));
        vstd::seq_lib::lemma_multiset_commutative(file_names(b0) + entry_names(x), file_names(b2));
        assert(file_names(a1).to_multiset() == m0.add(m2));
        assert(file_names(a).to_multiset() == m0.add(m2).add(mx));
        assert(file_names(b).to_multiset() == m0.add(mx).add(m2));
        assert(m0.add(m2).add(mx) =~= m0.add(mx).add(m2));
    }
}

/// Lists the regular files of a directory from the outcome of enumerating
/// it: the enumeration's own failure is passed on as an I/O error, entries
/// that are unreadable, not regular files or not named in text are left
/// out, and a listing left empty fails with `NoFilesFound`.
pub fn list_files(listing: core::result::Result<Vec<RawEntry>, std::io::Error>) -> (r: Result<
    Vec<String>,
>)
    ensures
        match listing {
            Err(e) => r == Err::<Vec<String>, BaseError>(BaseError::Io(e)),
            Ok(entries) => if file_names(entries@).len() == 0 {
                r == Err::<Vec<String>, BaseError>(BaseError::Fs(Error::NoFilesFound))
            } else {
                r matches Ok(names) && name_views(names@) == file_names(entries@)
            },
        },
{
    let entries = match listing {
        Err(e) => {
            return Err(BaseError::Io(e));
        },
        Ok(entries) => entries,
    };
    let mut files: Vec<String> = Vec::new();
    let mut i: usize = 0;
    while i < entries.len()
        invariant
            i <= entries.len(),
            name_views(files@) == file_names(entries@.subrange(0, i as int)),
        decreases entries.len() - i,
    {
        assert(entries@.subrange(0, i + 1).drop_last() == entries@.subrange(0, i as int));
        match &entries[i] {
            RawEntry::Read { kind: EntryKind::RegularFile, name: Some(n) } => {
                files.push(n.clone());
            },
            _ => {},
        }
        assert(name_views(files@) == file_names(entries@.subrange(0, i + 1)));
        i = i + 1;
    }
    assert(entries@.subrange(0, entries.len() as int) == entries@);
    if files.len() == 0 {
        return Err(BaseError::Fs(Error::NoFilesFound));
    }
    Ok(files)
}

} // verus!

//! The directory layout: a root holds term directories, a term directory holds
//! college directories, a college directory holds data files.
use crate::error::CustomError;
use crate::names::{
    get_file_name, has_file_name, is_college_dir_name, is_college_dir_name_text,
    is_data_file_name, is_data_file_name_text, is_term_dir_name, is_term_dir_name_text,
    last_component, name_end, name_start,
};
use vstd::prelude::*;

verus! {

/// One entry of a directory listing.
#[derive(Clone, Debug)]
pub struct EntryInfo {
    /// The entry's own name.
    pub name: String,
    /// The entry's full path.
    pub path: String,
    /// Whether the entry is a directory.
    pub is_dir: bool,
}

pub open spec fn is_term_entry(e: EntryInfo) -> bool {
    e.is_dir && is_term_dir_name(e.name@)
}

pub open spec fn is_college_entry(e: EntryInfo) -> bool {
    e.is_dir && is_college_dir_name(e.name@)
}

pub open spec fn is_data_file_entry(e: EntryInfo) -> bool {
    !e.is_dir && is_data_file_name(e.name@)
}

/// The paths of the term directories among `entries`, in listing order.
pub open spec fn term_dir_paths(entries: Seq<EntryInfo>) -> Seq<Seq<char>>
    decreases entries.len(),
{
    if entries.len() == 0 {
        seq![]
    } else {
        let rest = term_dir_paths(entries.drop_last());
        if is_term_entry(entries.last()) {
            rest.push(entries.last().path@)
        } else {
            rest
        }
    }
}

/// The paths of the data files among `entries`, in listing order.
pub open spec fn data_file_paths(entries: Seq<EntryInfo>) -> Seq<Seq<char>>
    decreases entries.len(),
{
    if entries.len() == 0 {
        seq![]
    } else {
        let rest = data_file_paths(entries.drop_last());
        if is_data_file_entry(entries.last()) {
            rest.push(entries.last().path@)
        } else {
            rest
        }
    }
}

/// The error that a bad entry under a term directory gives.
pub open spec fn college_entry_error(e: EntryInfo, err: CustomError) -> bool {
    if !e.is_dir {
        err matches CustomError::EntryNotADirectory(p) && p@ == e.path@
    } else {
        err matches CustomError::InvalidCollegeDirectory(p) && p@ == e.path@
    }
}

/// The term directories under the chosen root, given whether the root is a
/// directory and its listing; what they hold is not looked at.
pub fn select_term_dirs(root: &str, root_is_dir: bool, entries: &Vec<EntryInfo>) -> (r: Result<
    Vec<String>,
    CustomError,
>)
    ensures
        !root_is_dir ==> (r matches Err(CustomError::NotADirectory(p)) && p@ == root@),
        root_is_dir && term_dir_paths(entries@).len() == 0 ==> (r matches Err(
            CustomError::NoTermDirectories,
        )),
        root_is_dir && term_dir_paths(entries@).len() > 0 ==> (r matches Ok(paths)
            && paths.deep_view() == term_dir_paths(entries@)),
{
    if !root_is_dir {
        return Err(CustomError::NotADirectory(String::from_str(root)));
    }
    let mut paths: Vec<String> = Vec::new();
    let mut i: usize = 0;
    while i < entries.len()
        invariant
            i <= entries@.len(),
            paths.deep_view() == term_dir_paths(entries@.subrange(0, i as int)),
        decreases entries@.len() - i,
    {
        let e = &entries[i];
        proof {
            assert(entries@.subrange(0, i + 1).drop_last() =~= entries@.subrange(0, i as int));
        }
        if e.is_dir && is_term_dir_name_text(e.name.as_str()) {
            paths.push(e.path.clone());
            proof {
                assert(paths.deep_view() =~= term_dir_paths(entries@.subrange(0, i + 1)));
            }
        }
        i = i + 1;
    }
    proof {
        assert(entries@.subrange(0, i as int) =~= entries@);
    }
    if paths.len() == 0 {
        return Err(CustomError::NoTermDirectories);
    }
    Ok(paths)
}

/// Every entry of a term directory's listing is a college directory.
pub open spec fn all_college_entries(s: Seq<EntryInfo>) -> bool {
    forall|i: int| 0 <= i < s.len() ==> is_college_entry(#[trigger] s[i])
}

/// Entry `k` is the first entry of `s` that is no college directory.
pub open spec fn first_bad_entry(s: Seq<EntryInfo>, k: int) -> bool {
    0 <= k < s.len() && !is_college_entry(s[k]) && forall|j: int| 0 <= j < k ==> is_college_entry(#[trigger] s[j])
}

pub open spec fn listings_model(v: Seq<Vec<EntryInfo>>) -> Seq<Seq<EntryInfo>> {
    v.map_values(|l: Vec<EntryInfo>| l@)
}

/// Checks the chosen root: it must be a directory holding at least one term
/// directory, and every entry of every term directory must be a college
/// directory. `term_listings` holds the listing of each term directory, in the
/// order of the root's listing. The result is the term directories' paths, or
/// the error of the first offending entry, term directory by term directory
/// and entry by entry.
pub fn judge_data_path(
    root: &str,
    root_is_dir: bool,
    entries: &Vec<EntryInfo>,
    term_listings: &Vec<Vec<EntryInfo>>,
) -> (r: Result<Vec<String>, CustomError>)
    requires
        term_listings@.len() == term_dir_paths(entries@).len(),
    ensures
        !root_is_dir ==> (r matches Err(CustomError::NotADirectory(p)) && p@ == root@),
        root_is_dir && term_dir_paths(entries@).len() == 0 ==> (r matches Err(
            CustomError::NoTermDirectories,
        )),
        root_is_dir && term_dir_paths(entries@).len() > 0 ==> (r is Ok <==> forall|t: int|
            0 <= t < term_listings@.len() ==> all_college_entries(#[trigger] term_listings@[t]@)),
        r matches Ok(paths) ==> paths.deep_view() == term_dir_paths(entries@),
        root_is_dir ==> forall|t: int, k: int|
            0 <= t < term_listings@.len() && (forall|u: int|
                0 <= u < t ==> all_college_entries(#[trigger] term_listings@[u]@)) && #[trigger] first_bad_entry(term_listings@[t]@, k) ==> (r matches Err(err) && college_entry_error(term_listings@[t]@[k], err)),
        r matches Err(err) ==> (root_is_dir && term_dir_paths(entries@).len() > 0 ==> exists|
            t: int,
            k: int,
        |
            0 <= t < term_listings@.len() && (forall|u: int|
                0 <= u < t ==> all_college_entries(#[trigger] term_listings@[u]@)) && #[trigger] first_bad_entry(term_listings@[t]@, k) && college_entry_error(term_listings@[t]@[k], err)),
{
    let paths = select_term_dirs(root, root_is_dir, entries)?;
    let mut t: usize = 0;
    while t < term_listings.len()
        invariant
            root_is_dir,
            term_listings@.len() == term_dir_paths(entries@).len(),
            term_dir_paths(entries@).len() > 0,
            paths.deep_view() == term_dir_paths(entries@),
            t <= term_listings@.len(),
            forall|u: int| 0 <= u < t ==> all_college_entries(#[trigger] term_listings@[u]@),
        decreases term_listings@.len() - t,
    {
        match check_term_dir(&term_listings[t]) {
            Ok(()) => {},
            Err(err) => {
                proof {
                    let s = term_listings@[t as int]@;
                    let k = choose|k: int|
                        0 <= k < s.len() && !is_college_entry(#[trigger] s[k]) && (forall|j: int|
                            0 <= j < k ==> is_college_entry(#[trigger] s[j])) && college_entry_error(
                            s[k],
                            err,
                        );
                    assert(first_bad_entry(s, k));
                    assert forall|t2: int, k2: int|
                        0 <= t2 < term_listings@.len() && (forall|u: int|
                            0 <= u < t2 ==> all_college_entries(#[trigger] term_listings@[u]@))
                            && #[trigger] first_bad_entry(term_listings@[t2]@, k2)
                        implies college_entry_error(term_listings@[t2]@[k2], err) by {
                        if t2 < t {
                            assert(all_college_entries(term_listings@[t2]@));
                        } else if t2 > t {
                            assert(all_college_entries(term_listings@[t as int]@));
                            assert(!is_college_entry(s[k]));
                        } else {
                            if k2 < k {
                                assert(is_college_entry(s[k2]));
                            } else if k2 > k {
                                assert(is_college_entry(s[k]));
                            }
                        }
                    }
                }
                return Err(err);
            },
        }
        t = t + 1;
    }
    proof {
        assert forall|t2: int, k2: int|
            0 <= t2 < term_listings@.len() && (forall|u: int|
                0 <= u < t2 ==> all_college_entries(#[trigger] term_listings@[u]@))
                && #[trigger] first_bad_entry(term_listings@[t2]@, k2) implies false by {
            assert(all_college_entries(term_listings@[t2]@));
            assert(is_college_entry(term_listings@[t2]@[k2]));
        }
    }
    Ok(paths)
}

/// Checks the listing of one term directory: every entry must be a college directory.
pub fn check_term_dir(entries: &Vec<EntryInfo>) -> (r: Result<(), CustomError>)
    ensures
        r is Ok <==> forall|i: int| 0 <= i < entries@.len() ==> is_college_entry(#[trigger] entries@[i]),
        forall|k: int|
            0 <= k < entries@.len() && !is_college_entry(#[trigger] entries@[k]) && (forall|j: int|
                0 <= j < k ==> is_college_entry(#[trigger] entries@[j])) ==> (r matches Err(err)
                && college_entry_error(entries@[k], err)),
        r matches Err(err) ==> exists|k: int|
            0 <= k < entries@.len() && !is_college_entry(#[trigger] entries@[k]) && (forall|j: int|
                0 <= j < k ==> is_college_entry(#[trigger] entries@[j])) && college_entry_error(
                entries@[k],
                err,
            ),
{
    let mut i: usize = 0;
    while i < entries.len()
        invariant
            i <= entries@.len(),
            forall|j: int| 0 <= j < i ==> is_college_entry(#[trigger] entries@[j]),
        decreases entries@.len() - i,
    {
        let e = &entries[i];
        if !e.is_dir {
            let err = CustomError::EntryNotADirectory(e.path.clone());
            assert(college_entry_error(entries@[i as int], err));
            return Err(err);
        }
        if !is_college_dir_name_text(e.name.as_str()) {
            let err = CustomError::InvalidCollegeDirectory(e.path.clone());
            assert(college_entry_error(entries@[i as int], err));
            return Err(err);
        }
        i = i + 1;
    }
    Ok(())
}

/// The paths of the data files in one college directory's listing; other
/// entries are not part of the dataset and are passed over.
pub fn collect_csv_files(entries: &Vec<EntryInfo>) -> (r: Vec<String>)
    ensures
        r.deep_view() == data_file_paths(entries@),
{
    let mut paths: Vec<String> = Vec::new();
    let mut i: usize = 0;
    while i < entries.len()
        invariant
            i <= entries@.len(),
            paths.deep_view() == data_file_paths(entries@.subrange(0, i as int)),
        decreases entries@.len() - i,
    {
        let e = &entries[i];
        proof {
            assert(entries@.subrange(0, i + 1).drop_last() =~= entries@.subrange(0, i as int));
        }
        if !e.is_dir && is_data_file_name_text(e.name.as_str()) {
            paths.push(e.path.clone());
            proof {
                assert(paths.deep_view() =~= data_file_paths(entries@.subrange(0, i + 1)));
            }
        }
        i = i + 1;
    }
    proof {
        assert(entries@.subrange(0, i as int) =~= entries@);
    }
    paths
}

/// The path of the directory that holds `s`.
pub open spec fn parent_of(s: Seq<char>) -> Seq<char> {
    s.subrange(0, name_start(s, name_end(s, s.len() as int)))
}

/// Checks that the last component of `file_path` is a term directory name.
pub fn verify_file_name(file_path: &str) -> (r: Result<(), CustomError>)
    ensures
        !has_file_name(file_path@) ==> (r matches Err(CustomError::IllegalFileError(p)) && p@
            == file_path@),
        has_file_name(file_path@) ==> (r is Ok <==> is_term_dir_name(last_component(file_path@))),
        has_file_name(file_path@) && !is_term_dir_name(last_component(file_path@)) ==> (r matches Err(
            CustomError::UnexpectedFileError(f),
        ) && f@ == last_component(file_path@)),
{
    let file_name = get_file_name(file_path)?;
    if !is_term_dir_name_text(file_name.as_str()) {
        return Err(CustomError::UnexpectedFileError(file_name));
    }
    Ok(())
}

} // verus!

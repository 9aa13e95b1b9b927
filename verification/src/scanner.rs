//! Finding the folders that take up more than a tenth of the directory they are in.

use std::collections::HashMap;
use std::path::PathBuf;

use vstd::prelude::*;
use vstd::seq_lib::*;

verus! {

broadcast use vstd::std_specs::hash::group_hash_axioms;

/// `std::path::PathBuf::clone`: the copy is the same path.
pub assume_specification[ <PathBuf as Clone>::clone ](path: &PathBuf) -> (r: PathBuf)
    ensures
        r == *path,
;

/// The directories for application data.
#[derive(Clone, Copy, PartialEq, Eq, Structural, Debug)]
pub enum AppDataCategory {
    Local,
    Roaming,
}

/// A large folder.
#[derive(Debug)]
pub struct ScanResult {
    pub path: PathBuf,
    pub name: String,
    pub size_bytes: u64,
    pub category: AppDataCategory,
    /// The size of all folders in the same directory.
    pub parent_total_size: u64,
}

impl Clone for ScanResult {
    fn clone(&self) -> (r: ScanResult)
        ensures
            r == *self,
    {
        ScanResult {
            path: self.path.clone(),
            name: self.name.clone(),
            size_bytes: self.size_bytes,
            category: self.category,
            parent_total_size: self.parent_total_size,
        }
    }
}

/// A folder and its size.
#[derive(Debug)]
pub struct FolderSize {
    pub path: PathBuf,
    pub name: String,
    pub category: AppDataCategory,
    /// A number for the directory the folder is in: the same for the same directory.
    pub parent: u64,
    pub size: u64,
}

/// What is kept of a folder from one scan to the next.
#[derive(Debug)]
pub struct CacheEntry {
    pub path: PathBuf,
    pub size: u64,
    /// When the folder was last changed, in seconds.
    pub modified_time: u64,
}

/// What a walk through a folder tells of an entry.
#[derive(Clone, Copy, PartialEq, Eq, Structural, Debug)]
pub struct EntryMeta {
    pub is_file: bool,
    pub len: u64,
}

/// The scan for large folders.
pub struct Scanner;

/// The size of all files among the entries.
pub open spec fn files_size(entries: Seq<EntryMeta>) -> nat
    decreases entries.len(),
{
    if entries.len() == 0 {
        0
    } else {
        files_size(entries.drop_last()) + if entries.last().is_file {
            entries.last().len as nat
        } else {
            0
        }
    }
}

/// The size of all folders in a directory.
pub open spec fn root_total(folders: Seq<FolderSize>, parent: u64) -> nat
    decreases folders.len(),
{
    if folders.len() == 0 {
        0
    } else {
        root_total(folders.drop_last(), parent) + if folders.last().parent == parent {
            folders.last().size as nat
        } else {
            0
        }
    }
}

/// Whether a folder takes up more than a tenth of its directory.
pub open spec fn is_large(folders: Seq<FolderSize>, folder: FolderSize) -> bool {
    10 * folder.size > root_total(folders, folder.parent)
}

/// The test for large folders among `folders`.
pub open spec fn large_among(folders: Seq<FolderSize>) -> spec_fn(FolderSize) -> bool {
    |folder: FolderSize| is_large(folders, folder)
}

/// What a scan tells of each of `folders`.
pub open spec fn result_among(folders: Seq<FolderSize>) -> spec_fn(FolderSize) -> ScanResult {
    |folder: FolderSize|
        ScanResult {
            path: folder.path,
            name: folder.name,
            size_bytes: folder.size,
            category: folder.category,
            parent_total_size: root_total(folders, folder.parent) as u64,
        }
}

/// The large folders, in the order in which they were found.
pub open spec fn large_folders(folders: Seq<FolderSize>) -> Seq<ScanResult> {
    folders.filter(large_among(folders)).map_values(result_among(folders))
}

/// A list in descending order with one more result, before all results of the same size.
pub open spec fn insert_by_size(sorted: Seq<ScanResult>, result: ScanResult) -> Seq<ScanResult>
    decreases sorted.len(),
{
    if sorted.len() == 0 || result.size_bytes >= sorted[0].size_bytes {
        seq![result] + sorted
    } else {
        seq![sorted[0]] + insert_by_size(sorted.drop_first(), result)
    }
}

/// The results from the largest to the smallest; those of the same size in the order they
/// had.
pub open spec fn by_size(results: Seq<ScanResult>) -> Seq<ScanResult>
    decreases results.len(),
{
    if results.len() == 0 {
        Seq::empty()
    } else {
        insert_by_size(by_size(results.drop_first()), results[0])
    }
}

/// Whether the sizes in each directory can be added up.
pub open spec fn totals_fit(folders: Seq<FolderSize>) -> bool {
    forall|i: int|
        0 <= i < folders.len() ==> root_total(folders, (#[trigger] folders[i]).parent) <= u64::MAX
}

/// The size of a folder by the last scan, if it is known and the folder has not been changed
/// since.
pub open spec fn kept_size(cached: Option<(u64, u64)>, modified: u64) -> Option<u64> {
    match cached {
        Some((size, time)) => if time == modified {
            Some(size)
        } else {
            None
        },
        None => None,
    }
}

/// Whether a path counts as a link, by what its metadata say, if they can be read.
pub open spec fn counts_as_link(is_symlink: Option<bool>) -> bool {
    is_symlink == Some(true)
}

/// Whether an entry of the scanned directory is looked at: a directory that is no link.
pub open spec fn is_looked_at(is_dir: bool, is_link: bool) -> bool {
    is_dir && !is_link
}

/// What is kept of the results until the next scan.
pub open spec fn cache_of(results: Seq<ScanResult>, modified: Seq<u64>) -> Seq<CacheEntry> {
    Seq::new(
        results.len(),
        |i: int|
            CacheEntry {
                path: results[i].path,
                size: results[i].size_bytes,
                modified_time: modified[i],
            },
    )
}

proof fn lemma_total_grows(folders: Seq<FolderSize>, parent: u64, n: int)
    requires
        0 <= n <= folders.len(),
    ensures
        root_total(folders.take(n), parent) <= root_total(folders, parent),
    decreases folders.len(),
{
    if n == folders.len() {
        assert(folders.take(n) =~= folders);
    } else {
        lemma_total_grows(folders.drop_last(), parent, n);
        assert(folders.drop_last().take(n) =~= folders.take(n));
    }
}

proof fn lemma_insert_position(sorted: Seq<ScanResult>, result: ScanResult, at: int)
    requires
        0 <= at <= sorted.len(),
        forall|i: int| 0 <= i < at ==> (#[trigger] sorted[i]).size_bytes > result.size_bytes,
        at < sorted.len() ==> sorted[at].size_bytes <= result.size_bytes,
    ensures
        insert_by_size(sorted, result) == sorted.insert(at, result),
    decreases sorted.len(),
{
    if at == 0 {
        assert(seq![result] + sorted =~= sorted.insert(0, result));
    } else {
        let rest = sorted.drop_first();
        assert forall|i: int| 0 <= i < at - 1 implies (#[trigger] rest[i]).size_bytes
            > result.size_bytes by {
            assert(rest[i] == sorted[i + 1]);
        }
        lemma_insert_position(rest, result, at - 1);
        assert(sorted[0].size_bytes > result.size_bytes);
        assert(seq![sorted[0]] + rest.insert(at - 1, result) =~= sorted.insert(at, result));
    }
}

impl Scanner {
    /// The size of a folder: that of all files below it.
    pub fn get_dir_size(entries: &Vec<EntryMeta>) -> (r: u64)
        requires
            files_size(entries@) <= u64::MAX,
        ensures
            r == files_size(entries@),
    {
        let mut total: u64 = 0;
        let mut i: usize = 0;
        assert(entries@.take(0) =~= Seq::empty());
        while i < entries.len()
            invariant
                i <= entries@.len(),
                total == files_size(entries@.take(i as int)),
                files_size(entries@) <= u64::MAX,
            decreases entries@.len() - i,
        {
            proof {
                lemma_size_grows(entries@, i + 1);
                assert(entries@.take(i + 1).drop_last() =~= entries@.take(i as int));
            }
            if entries[i].is_file {
                total = total + entries[i].len;
            }
            i += 1;
        }
        assert(entries@.take(i as int) =~= entries@);
        total
    }

    /// Whether a path is a link, by what its metadata say; where they cannot be read it counts
    /// as none.
    pub fn is_symlink_or_junction(is_symlink: Option<bool>) -> (r: bool)
        ensures
            r == counts_as_link(is_symlink),
    {
        match is_symlink {
            Some(yes) => yes,
            None => false,
        }
    }

    /// Whether an entry of the scanned directory is looked at: a directory that is no link.
    pub fn is_target(is_dir: bool, is_link: bool) -> (r: bool)
        ensures
            r == is_looked_at(is_dir, is_link),
    {
        is_dir && !is_link
    }

    /// The size of a folder by the last scan, if it is known and the folder has not been
    /// changed since. `cached` is the size and the time of change that were kept, `modified`
    /// the time of change now.
    pub fn cached_size(cached: Option<(u64, u64)>, modified: u64) -> (r: Option<u64>)
        ensures
            r == kept_size(cached, modified),
    {
        match cached {
            Some((size, time)) => {
                if time == modified {
                    Some(size)
                } else {
                    None
                }
            },
            None => None,
        }
    }

    fn totals(folders: &Vec<FolderSize>) -> (r: HashMap<u64, u64>)
        requires
            totals_fit(folders@),
        ensures
            forall|i: int|
                0 <= i < folders@.len() ==> {
                    let parent = (#[trigger] folders@[i]).parent;
                    r@.contains_key(parent) && r@[parent] == root_total(folders@, parent)
                },
    {
        let mut r: HashMap<u64, u64> = HashMap::new();
        let mut i: usize = 0;
        assert(folders@.take(0) =~= Seq::empty());
        while i < folders.len()
            invariant
                i <= folders@.len(),
                totals_fit(folders@),
                forall|p: u64|
                    r@.contains_key(p) ==> #[trigger] r@[p] == root_total(
                        folders@.take(i as int),
                        p,
                    ),
                forall|p: u64|
                    !#[trigger] r@.contains_key(p) ==> root_total(folders@.take(i as int), p) == 0,
                forall|k: int| 0 <= k < i ==> r@.contains_key((#[trigger] folders@[k]).parent),
            decreases folders@.len() - i,
        {
            let parent: u64 = folders[i].parent;
            let so_far: u64 = match r.get(&parent) {
                Some(sum) => *sum,
                None => 0,
            };
            proof {
                assert(folders@.take(i + 1).drop_last() =~= folders@.take(i as int));
                assert(folders@[i as int].parent == parent);
                lemma_total_grows(folders@, parent, i + 1);
            }
            let ghost before = r@;
            r.insert(parent, so_far + folders[i].size);
            assert forall|p: u64| r@.contains_key(p) implies #[trigger] r@[p] == root_total(
                folders@.take(i + 1),
                p,
            ) by {
                if p != parent {
                    assert(before.contains_key(p) && before[p] == r@[p]);
                }
            }
            assert forall|p: u64| !#[trigger] r@.contains_key(p) implies root_total(
                folders@.take(i + 1),
                p,
            ) == 0 by {
                assert(!before.contains_key(p));
            }
            i += 1;
        }
        assert(folders@.take(i as int) =~= folders@);
        r
    }

    fn sort_by_size(results: Vec<ScanResult>) -> (r: Vec<ScanResult>)
        ensures
            r@ == by_size(results@),
    {
        let ghost all = results@;
        let mut left = results;
        let mut sorted: Vec<ScanResult> = Vec::new();
        assert(all.skip(all.len() as int) =~= Seq::empty());
        while left.len() > 0
            invariant
                left@.len() <= all.len(),
                left@ == all.take(left@.len() as int),
                sorted@ == by_size(all.skip(left@.len() as int)),
            decreases left@.len(),
        {
            let ghost n = left@.len() as int;
            if let Some(result) = left.pop() {
                proof {
                    assert(result == all[n - 1]);
                    assert(left@ =~= all.take(n - 1));
                    assert(all.skip(n - 1).drop_first() =~= all.skip(n));
                }
                let mut at: usize = 0;
                while at < sorted.len() && sorted[at].size_bytes > result.size_bytes
                    invariant
                        at <= sorted@.len(),
                        forall|i: int|
                            0 <= i < at ==> (#[trigger] sorted@[i]).size_bytes > result.size_bytes,
                    decreases sorted@.len() - at,
                {
                    at += 1;
                }
                proof {
                    lemma_insert_position(sorted@, result, at as int);
                }
                sorted.insert(at, result);
            }
        }
        assert(all.skip(0) =~= all);
        sorted
    }

    /// The large folders among `folders`, from the largest to the smallest.
    pub fn scan_large_folders(folders: Vec<FolderSize>) -> (r: Vec<ScanResult>)
        requires
            totals_fit(folders@),
        ensures
            r@ == by_size(large_folders(folders@)),
    {
        let ghost all = folders@;
        let ghost large = large_among(all);
        let ghost shown = result_among(all);
        let totals = Scanner::totals(&folders);
        let mut found: Vec<ScanResult> = Vec::new();
        proof {
            reveal(Seq::filter);
            assert(all.take(0).filter(large).map_values(shown) =~= Seq::empty());
        }
        for folder in it: folders
            invariant
                it.seq() == all,
                large == large_among(all),
                shown == result_among(all),
                totals_fit(all),
                forall|i: int|
                    0 <= i < all.len() ==> {
                        let parent = (#[trigger] all[i]).parent;
                        totals@.contains_key(parent) && totals@[parent] == root_total(all, parent)
                    },
                found@ == all.take(it.index()).filter(large).map_values(shown),
        {
            let ghost i = it.index();
            let total: u64 = match totals.get(&folder.parent) {
                Some(total) => *total,
                None => 0,
            };
            proof {
                reveal(Seq::filter);
                assert(all[i] == folder);
                assert(totals@.contains_key(folder.parent));
                assert(total == root_total(all, folder.parent));
                assert(all.take(i + 1).drop_last() =~= all.take(i));
                assert(all.take(i + 1).last() == folder);
            }
            let threshold: u64 = total / 10;
            if folder.size > threshold {
                let ghost before = found@;
                let ghost kept = all.take(i).filter(large);
                assert(large(folder));
                found.push(
                    ScanResult {
                        path: folder.path,
                        name: folder.name,
                        size_bytes: folder.size,
                        category: folder.category,
                        parent_total_size: total,
                    },
                );
                assert(kept.push(folder).map_values(shown) =~= kept.map_values(shown).push(
                    shown(folder),
                ));
            } else {
                assert(!large(folder));
            }
        }
        assert(all.take(all.len() as int) =~= all);
        Scanner::sort_by_size(found)
    }

    /// What is kept of the results until the next scan; `modified` are the times at which
    /// their folders were last changed.
    pub fn save_cache(results: &Vec<ScanResult>, modified: &Vec<u64>) -> (r: Vec<CacheEntry>)
        requires
            modified@.len() == results@.len(),
        ensures
            r@ == cache_of(results@, modified@),
    {
        let mut r: Vec<CacheEntry> = Vec::new();
        let mut i: usize = 0;
        while i < results.len()
            invariant
                i == r@.len(),
                i <= results@.len(),
                modified@.len() == results@.len(),
                r@ == cache_of(results@, modified@).take(i as int),
            decreases results@.len() - i,
        {
            r.push(
                CacheEntry {
                    path: results[i].path.clone(),
                    size: results[i].size_bytes,
                    modified_time: modified[i],
                },
            );
            i += 1;
            assert(r@ =~= cache_of(results@, modified@).take(i as int));
        }
        assert(r@ =~= cache_of(results@, modified@));
        r
    }
}

proof fn lemma_size_grows(entries: Seq<EntryMeta>, n: int)
    requires
        0 <= n <= entries.len(),
    ensures
        files_size(entries.take(n)) <= files_size(entries),
    decreases entries.len(),
{
    if n == entries.len() {
        assert(entries.take(n) =~= entries);
    } else {
        lemma_size_grows(entries.drop_last(), n);
        assert(entries.drop_last().take(n) =~= entries.take(n));
    }
}

/// The results come from the largest to the smallest.
pub proof fn law_results_descend(results: Seq<ScanResult>)
    ensures
        forall|i: int, j: int|
            0 <= i <= j < by_size(results).len() ==> (#[trigger] by_size(results)[i]).size_bytes
                >= (#[trigger] by_size(results)[j]).size_bytes,
    decreases results.len(),
{
    if results.len() > 0 {
        law_results_descend(results.drop_first());
        lemma_insert_descends(by_size(results.drop_first()), results[0]);
    }
}

spec fn descends(s: Seq<ScanResult>) -> bool {
    forall|i: int, j: int|
        0 <= i <= j < s.len() ==> (#[trigger] s[i]).size_bytes >= (#[trigger] s[j]).size_bytes
}

proof fn lemma_insert_descends(sorted: Seq<ScanResult>, result: ScanResult)
    requires
        descends(sorted),
    ensures
        descends(insert_by_size(sorted, result)),
        forall|i: int|
            0 <= i < insert_by_size(sorted, result).len() ==> (#[trigger] insert_by_size(
                sorted,
                result,
            )[i]) == result || sorted.contains(insert_by_size(sorted, result)[i]),
    decreases sorted.len(),
{
    let whole = insert_by_size(sorted, result);
    if sorted.len() == 0 || result.size_bytes >= sorted[0].size_bytes {
        assert forall|i: int| 0 <= i < whole.len() implies (#[trigger] whole[i]) == result
            || sorted.contains(whole[i]) by {
            if i > 0 {
                assert(whole[i] == sorted[i - 1]);
            }
        }
        assert forall|i: int, j: int| 0 <= i <= j < whole.len() implies (
        #[trigger] whole[i]).size_bytes >= (#[trigger] whole[j]).size_bytes by {
            if i > 0 {
                assert(whole[i] == sorted[i - 1] && whole[j] == sorted[j - 1]);
            } else if j > 0 {
                assert(whole[j] == sorted[j - 1]);
                assert(sorted[0].size_bytes >= sorted[j - 1].size_bytes);
            }
        }
    } else {
        let rest = sorted.drop_first();
        assert forall|i: int, j: int| 0 <= i <= j < rest.len() implies (
        #[trigger] rest[i]).size_bytes >= (#[trigger] rest[j]).size_bytes by {
            assert(rest[i] == sorted[i + 1] && rest[j] == sorted[j + 1]);
        }
        lemma_insert_descends(rest, result);
        let tail = insert_by_size(rest, result);
        assert forall|i: int| 0 <= i < whole.len() implies (#[trigger] whole[i]) == result
            || sorted.contains(whole[i]) by {
            if i == 0 {
                assert(whole[0] == sorted[0]);
            } else {
                assert(whole[i] == tail[i - 1]);
                if tail[i - 1] != result {
                    let k = choose|k: int| 0 <= k < rest.len() && rest[k] == tail[i - 1];
                    assert(sorted[k + 1] == tail[i - 1]);
                }
            }
        }
        assert forall|i: int, j: int| 0 <= i <= j < whole.len() implies (
        #[trigger] whole[i]).size_bytes >= (#[trigger] whole[j]).size_bytes by {
            if i > 0 {
                assert(whole[i] == tail[i - 1] && whole[j] == tail[j - 1]);
            } else if j > 0 {
                assert(whole[j] == tail[j - 1]);
                if whole[j] != result {
                    let k = choose|k: int| 0 <= k < sorted.len() && sorted[k] == whole[j];
                    assert(sorted[0].size_bytes >= sorted[k].size_bytes);
                }
            }
        }
    }
}

/// Sorting loses nothing and adds nothing.
pub proof fn law_results_are_kept(results: Seq<ScanResult>)
    ensures
        by_size(results).to_multiset() == results.to_multiset(),
        by_size(results).len() == results.len(),
    decreases results.len(),
{
    broadcast use group_to_multiset_ensures;

    if results.len() > 0 {
        let rest = results.drop_first();
        law_results_are_kept(rest);
        lemma_insert_keeps(by_size(rest), results[0]);
        assert(results =~= rest.insert(0, results[0]));
        assert(rest.insert(0, results[0]).to_multiset() =~= rest.to_multiset().insert(results[0]));
    } else {
        assert(by_size(results) =~= results);
    }
}

spec fn insert_place(sorted: Seq<ScanResult>, result: ScanResult) -> int
    decreases sorted.len(),
{
    if sorted.len() == 0 || result.size_bytes >= sorted[0].size_bytes {
        0
    } else {
        1 + insert_place(sorted.drop_first(), result)
    }
}

proof fn lemma_insert_place(sorted: Seq<ScanResult>, result: ScanResult)
    ensures
        0 <= insert_place(sorted, result) <= sorted.len(),
        insert_by_size(sorted, result) == sorted.insert(insert_place(sorted, result), result),
        forall|i: int|
            0 <= i < insert_place(sorted, result) ==> (#[trigger] sorted[i]).size_bytes
                > result.size_bytes,
    decreases sorted.len(),
{
    if sorted.len() == 0 || result.size_bytes >= sorted[0].size_bytes {
        assert(seq![result] + sorted =~= sorted.insert(0, result));
    } else {
        let rest = sorted.drop_first();
        let at = insert_place(rest, result);
        lemma_insert_place(rest, result);
        assert(seq![sorted[0]] + rest.insert(at, result) =~= sorted.insert(at + 1, result));
        assert forall|i: int| 0 <= i < at + 1 implies (#[trigger] sorted[i]).size_bytes
            > result.size_bytes by {
            if i > 0 {
                assert(sorted[i] == rest[i - 1]);
            }
        }
    }
}

proof fn lemma_insert_keeps(sorted: Seq<ScanResult>, result: ScanResult)
    ensures
        insert_by_size(sorted, result).to_multiset() == sorted.to_multiset().insert(result),
        insert_by_size(sorted, result).len() == sorted.len() + 1,
{
    broadcast use group_to_multiset_ensures;

    lemma_insert_place(sorted, result);
}

/// The test for results of the given size.
pub open spec fn of_size(size: u64) -> spec_fn(ScanResult) -> bool {
    |result: ScanResult| result.size_bytes == size
}

/// Results of the same size stay in the order in which they were found.
pub proof fn law_equal_results_keep_order(results: Seq<ScanResult>, size: u64)
    ensures
        by_size(results).filter(of_size(size)) == results.filter(of_size(size)),
    decreases results.len(),
{
    reveal(Seq::filter);
    if results.len() > 0 {
        let rest = results.drop_first();
        let sorted = by_size(rest);
        let result = results[0];
        let same = of_size(size);
        law_equal_results_keep_order(rest, size);
        lemma_insert_place(sorted, result);
        let at = insert_place(sorted, result);
        let front = sorted.take(at);
        let back = sorted.skip(at);
        assert(sorted =~= front + back);
        assert(sorted.insert(at, result) =~= front + (seq![result] + back));
        Seq::filter_distributes_over_add(front, back, same);
        Seq::filter_distributes_over_add(front, seq![result] + back, same);
        Seq::filter_distributes_over_add(seq![result], back, same);
        assert(results =~= seq![result] + rest);
        Seq::filter_distributes_over_add(seq![result], rest, same);
        assert(seq![result].drop_last() =~= Seq::empty());
        if result.size_bytes == size {
            assert forall|i: int| 0 <= i < front.len() implies !same(#[trigger] front[i]) by {
                assert(front[i] == sorted[i]);
            }
            lemma_none_filtered(front, same);
            assert(front.filter(same) + (seq![result].filter(same) + back.filter(same))
                =~= seq![result].filter(same) + (front.filter(same) + back.filter(same)));
        } else {
            lemma_none_filtered(seq![result], same);
            assert(front.filter(same) + (seq![result].filter(same) + back.filter(same))
                =~= front.filter(same) + back.filter(same));
            assert(seq![result].filter(same) + rest.filter(same) =~= rest.filter(same));
        }
    } else {
        assert(by_size(results) =~= results);
    }
}

proof fn lemma_none_filtered(s: Seq<ScanResult>, test: spec_fn(ScanResult) -> bool)
    requires
        forall|i: int| 0 <= i < s.len() ==> !test(#[trigger] s[i]),
    ensures
        s.filter(test) == Seq::<ScanResult>::empty(),
    decreases s.len(),
{
    reveal(Seq::filter);
    if s.len() > 0 {
        assert forall|i: int| 0 <= i < s.drop_last().len() implies !test(
            #[trigger] s.drop_last()[i],
        ) by {
            assert(s.drop_last()[i] == s[i]);
        }
        lemma_none_filtered(s.drop_last(), test);
        assert(!test(s[s.len() - 1]));
    } else {
        assert(s.filter(test) =~= Seq::empty());
    }
}

/// A folder that takes up more than a tenth of its directory is among the results.
pub proof fn law_large_folder_is_found(folders: Seq<FolderSize>, i: int)
    requires
        0 <= i < folders.len(),
        is_large(folders, folders[i]),
    ensures
        by_size(large_folders(folders)).contains(result_among(folders)(folders[i])),
{
    broadcast use {group_to_multiset_ensures, group_filter_ensures};

    let large = large_among(folders);
    let shown = result_among(folders);
    let kept = folders.filter(large);
    let found = large_folders(folders);
    law_results_are_kept(found);
    assert(large(folders[i]));
    assert(kept.contains(folders[i]));
    let k = choose|k: int| 0 <= k < kept.len() && kept[k] == folders[i];
    assert(found[k] == shown(folders[i]));
    assert(found.contains(shown(folders[i])));
    assert(found.to_multiset().count(shown(folders[i])) > 0);
}

/// Every result is a folder that takes up more than a tenth of its directory.
pub proof fn law_result_is_large_folder(folders: Seq<FolderSize>, k: int) -> (j: int)
    requires
        0 <= k < by_size(large_folders(folders)).len(),
    ensures
        0 <= j < folders.len(),
        is_large(folders, folders[j]),
        by_size(large_folders(folders))[k] == result_among(folders)(folders[j]),
{
    broadcast use {group_to_multiset_ensures, group_filter_ensures};

    let large = large_among(folders);
    let kept = folders.filter(large);
    let found = large_folders(folders);
    let sorted = by_size(found);
    law_results_are_kept(found);
    assert(sorted.contains(sorted[k]));
    assert(sorted.to_multiset().count(sorted[k]) > 0);
    assert(found.contains(sorted[k]));
    let m = choose|m: int| 0 <= m < found.len() && found[m] == sorted[k];
    assert(found[m] == result_among(folders)(kept[m]));
    assert(large(kept[m]));
    assert(kept.contains(kept[m]));
    folders.lemma_filter_contains_rev(large, kept[m]);
    choose|j: int| 0 <= j < folders.len() && folders[j] == kept[m]
}

/// The test for large folders in one directory.
pub open spec fn large_in(folders: Seq<FolderSize>, parent: u64) -> spec_fn(FolderSize) -> bool {
    |folder: FolderSize| folder.parent == parent && is_large(folders, folder)
}

/// At most nine folders of one directory are large.
pub proof fn law_at_most_nine_per_directory(folders: Seq<FolderSize>, parent: u64)
    ensures
        folders.filter(large_in(folders, parent)).len() <= 9,
{
    lemma_large_share(folders, folders, parent);
    let n = folders.filter(large_in(folders, parent)).len();
    let total = root_total(folders, parent);
    if n >= 10 {
        assert(n * (total + 1) >= 10 * (total + 1)) by (nonlinear_arith)
            requires
                n >= 10,
        ;
    }
}

proof fn lemma_large_share(folders: Seq<FolderSize>, part: Seq<FolderSize>, parent: u64)
    ensures
        10 * root_total(part, parent) >= part.filter(large_in(folders, parent)).len() * (
        root_total(folders, parent) + 1),
    decreases part.len(),
{
    reveal(Seq::filter);
    let test = large_in(folders, parent);
    let total = root_total(folders, parent);
    if part.len() > 0 {
        lemma_large_share(folders, part.drop_last(), parent);
        let n = part.drop_last().filter(test).len();
        assert((n + 1) * (total + 1) == n * (total + 1) + (total + 1)) by (nonlinear_arith);
        if test(part.last()) {
            assert(part.filter(test).len() == n + 1);
        } else {
            assert(part.filter(test).len() == n);
        }
    } else {
        assert(part.filter(test).len() == 0);
        assert(0 * (total + 1) == 0) by (nonlinear_arith);
    }
}

/// A folder that a scan has found has the same size in the next scan without being measured,
/// if it has not been changed meanwhile; if it has been, it is measured anew.
pub proof fn law_unchanged_folder_keeps_size(
    results: Seq<ScanResult>,
    modified: Seq<u64>,
    i: int,
    now: u64,
)
    requires
        0 <= i < results.len(),
        modified.len() == results.len(),
    ensures
        cache_of(results, modified)[i].path == results[i].path,
        kept_size(
            Some(
                (
                    cache_of(results, modified)[i].size,
                    cache_of(results, modified)[i].modified_time,
                ),
            ),
            now,
        ) == if now == modified[i] {
            Some(results[i].size_bytes)
        } else {
            None
        },
{
}

/// Whether no two folders have the same path.
pub open spec fn folder_paths_differ(folders: Seq<FolderSize>) -> bool {
    forall|i: int, j: int|
        0 <= i < j < folders.len() ==> (#[trigger] folders[i]).path != (#[trigger] folders[j]).path
}

/// Whether no two results have the same path.
pub open spec fn result_paths_differ(results: Seq<ScanResult>) -> bool {
    forall|i: int, j: int|
        0 <= i < j < results.len() ==> (#[trigger] results[i]).path != (#[trigger] results[j]).path
}

proof fn lemma_filtered_paths_differ(
    folders: Seq<FolderSize>,
    test: spec_fn(FolderSize) -> bool,
)
    requires
        folder_paths_differ(folders),
    ensures
        folder_paths_differ(folders.filter(test)),
    decreases folders.len(),
{
    reveal(Seq::filter);
    if folders.len() > 0 {
        let shorter = folders.drop_last();
        let last = folders.last();
        assert forall|i: int, j: int| 0 <= i < j < shorter.len() implies (
        #[trigger] shorter[i]).path != (#[trigger] shorter[j]).path by {
            assert(shorter[i] == folders[i] && shorter[j] == folders[j]);
        }
        lemma_filtered_paths_differ(shorter, test);
        let kept = shorter.filter(test);
        if test(last) {
            let whole = kept.push(last);
            assert forall|i: int, j: int| 0 <= i < j < whole.len() implies (
            #[trigger] whole[i]).path != (#[trigger] whole[j]).path by {
                assert(whole[i] == kept[i]);
                if j < kept.len() {
                    assert(whole[j] == kept[j]);
                } else {
                    assert(kept.contains(kept[i]));
                    shorter.lemma_filter_contains_rev(test, kept[i]);
                    let k = choose|k: int| 0 <= k < shorter.len() && shorter[k] == kept[i];
                    assert(folders[k].path != folders[folders.len() - 1].path);
                }
            }
        }
    }
}

proof fn lemma_sorted_paths_differ(results: Seq<ScanResult>)
    requires
        result_paths_differ(results),
    ensures
        result_paths_differ(by_size(results)),
    decreases results.len(),
{
    broadcast use group_to_multiset_ensures;

    if results.len() > 0 {
        let rest = results.drop_first();
        let sorted = by_size(rest);
        let result = results[0];
        let at = insert_place(sorted, result);
        let whole = sorted.insert(at, result);
        assert forall|i: int, j: int| 0 <= i < j < rest.len() implies (#[trigger] rest[i]).path
            != (#[trigger] rest[j]).path by {
            assert(rest[i] == results[i + 1] && rest[j] == results[j + 1]);
        }
        lemma_sorted_paths_differ(rest);
        lemma_insert_place(sorted, result);
        law_results_are_kept(rest);
        assert forall|k: int| 0 <= k < sorted.len() implies (#[trigger] sorted[k]).path
            != result.path by {
            assert(sorted.contains(sorted[k]));
            assert(sorted.to_multiset().count(sorted[k]) > 0);
            assert(rest.contains(sorted[k]));
            let m = choose|m: int| 0 <= m < rest.len() && rest[m] == sorted[k];
            assert(results[m + 1] == sorted[k]);
            assert(results[0].path != results[m + 1].path);
        }
        assert forall|i: int, j: int| 0 <= i < j < whole.len() implies (#[trigger] whole[i]).path
            != (#[trigger] whole[j]).path by {
            let a = if i < at {
                i
            } else {
                i - 1
            };
            let b = if j < at {
                j
            } else {
                j - 1
            };
            if i == at {
                assert(whole[j] == sorted[b]);
            } else if j == at {
                assert(whole[i] == sorted[a]);
            } else {
                assert(whole[i] == sorted[a] && whole[j] == sorted[b]);
            }
        }
    }
}

/// No folder is listed twice: where the folders have paths of their own, so have the results.
pub proof fn law_result_paths_differ(folders: Seq<FolderSize>)
    requires
        folder_paths_differ(folders),
    ensures
        result_paths_differ(by_size(large_folders(folders))),
{
    let kept = folders.filter(large_among(folders));
    let found = large_folders(folders);
    lemma_filtered_paths_differ(folders, large_among(folders));
    assert forall|i: int, j: int| 0 <= i < j < found.len() implies (#[trigger] found[i]).path
        != (#[trigger] found[j]).path by {
        assert(found[i].path == kept[i].path && found[j].path == kept[j].path);
    }
    lemma_sorted_paths_differ(found);
}

proof fn lemma_part_of_total(folders: Seq<FolderSize>, i: int)
    requires
        0 <= i < folders.len(),
    ensures
        folders[i].size <= root_total(folders, folders[i].parent),
    decreases folders.len(),
{
    if i < folders.len() - 1 {
        lemma_part_of_total(folders.drop_last(), i);
    }
}

proof fn lemma_filter_shrinks_total(
    folders: Seq<FolderSize>,
    test: spec_fn(FolderSize) -> bool,
    parent: u64,
)
    ensures
        root_total(folders.filter(test), parent) <= root_total(folders, parent),
    decreases folders.len(),
{
    reveal(Seq::filter);
    if folders.len() > 0 {
        let shorter = folders.drop_last();
        lemma_filter_shrinks_total(shorter, test, parent);
        if test(folders.last()) {
            assert(shorter.filter(test).push(folders.last()).drop_last() =~= shorter.filter(test));
        }
    }
}

/// The sizes of the results stay within the total of their directory: that of each alone,
/// which is the total that is told with it, and that of all large folders of one directory
/// together.
pub proof fn law_results_stay_within_total(folders: Seq<FolderSize>, k: int, parent: u64)
    requires
        totals_fit(folders),
        0 <= k < by_size(large_folders(folders)).len(),
    ensures
        by_size(large_folders(folders))[k].size_bytes <= by_size(
            large_folders(folders),
        )[k].parent_total_size,
        root_total(folders.filter(large_among(folders)), parent) <= root_total(folders, parent),
{
    let j = law_result_is_large_folder(folders, k);
    lemma_part_of_total(folders, j);
    lemma_filter_shrinks_total(folders, large_among(folders), parent);
}

/// The test for results that are folders of one directory.
pub open spec fn from_directory(folders: Seq<FolderSize>, parent: u64) -> spec_fn(
    ScanResult,
) -> bool {
    |result: ScanResult|
        exists|j: int|
            0 <= j < folders.len() && (#[trigger] folders[j]).parent == parent && folders[j].path
                == result.path
}

/// How many of the results meet a test.
pub open spec fn count_of(results: Seq<ScanResult>, test: spec_fn(ScanResult) -> bool) -> nat
    decreases results.len(),
{
    if results.len() == 0 {
        0
    } else {
        count_of(results.drop_first(), test) + if test(results[0]) {
            1nat
        } else {
            0nat
        }
    }
}

/// The size of the results that meet a test.
pub open spec fn size_of(results: Seq<ScanResult>, test: spec_fn(ScanResult) -> bool) -> nat
    decreases results.len(),
{
    if results.len() == 0 {
        0
    } else {
        size_of(results.drop_first(), test) + if test(results[0]) {
            results[0].size_bytes as nat
        } else {
            0nat
        }
    }
}

proof fn lemma_insert_counts(
    sorted: Seq<ScanResult>,
    result: ScanResult,
    test: spec_fn(ScanResult) -> bool,
)
    ensures
        count_of(insert_by_size(sorted, result), test) == count_of(sorted, test) + if test(
            result,
        ) {
            1nat
        } else {
            0nat
        },
        size_of(insert_by_size(sorted, result), test) == size_of(sorted, test) + if test(result) {
            result.size_bytes as nat
        } else {
            0nat
        },
    decreases sorted.len(),
{
    if sorted.len() == 0 || result.size_bytes >= sorted[0].size_bytes {
        assert((seq![result] + sorted).drop_first() =~= sorted);
    } else {
        let rest = sorted.drop_first();
        let whole = seq![sorted[0]] + insert_by_size(rest, result);
        lemma_insert_counts(rest, result, test);
        assert(whole.drop_first() =~= insert_by_size(rest, result));
        assert(whole[0] == sorted[0]);
    }
}

proof fn lemma_sort_counts(results: Seq<ScanResult>, test: spec_fn(ScanResult) -> bool)
    ensures
        count_of(by_size(results), test) == count_of(results, test),
        size_of(by_size(results), test) == size_of(results, test),
    decreases results.len(),
{
    if results.len() > 0 {
        let rest = results.drop_first();
        lemma_sort_counts(rest, test);
        lemma_insert_counts(by_size(rest), results[0], test);
    }
}

proof fn lemma_total_from_first(folders: Seq<FolderSize>, parent: u64)
    requires
        folders.len() > 0,
    ensures
        root_total(folders, parent) == root_total(folders.drop_first(), parent) + if folders[0].parent
            == parent {
            folders[0].size as nat
        } else {
            0
        },
    decreases folders.len(),
{
    if folders.len() > 1 {
        lemma_total_from_first(folders.drop_last(), parent);
        assert(folders.drop_last().drop_first() =~= folders.drop_first().drop_last());
    } else {
        assert(folders.drop_last() =~= Seq::empty());
        assert(folders.drop_first() =~= Seq::empty());
        assert(root_total(folders.drop_last(), parent) == 0);
    }
}

proof fn lemma_results_share(folders: Seq<FolderSize>, part: Seq<FolderSize>, parent: u64)
    requires
        folder_paths_differ(folders),
        forall|i: int|
            0 <= i < part.len() ==> folders.contains(#[trigger] part[i]) && is_large(
                folders,
                part[i],
            ),
    ensures
        ({
            let shown = part.map_values(result_among(folders));
            let test = from_directory(folders, parent);
            &&& size_of(shown, test) == root_total(part, parent)
            &&& count_of(shown, test) * (root_total(folders, parent) + 1) <= 10 * root_total(
                part,
                parent,
            )
        }),
    decreases part.len(),
{
    let shown = part.map_values(result_among(folders));
    let test = from_directory(folders, parent);
    let total = root_total(folders, parent);
    if part.len() > 0 {
        let rest = part.drop_first();
        let first = part[0];
        assert forall|i: int| 0 <= i < rest.len() implies folders.contains(#[trigger] rest[i])
            && is_large(folders, rest[i]) by {
            assert(rest[i] == part[i + 1]);
        }
        lemma_results_share(folders, rest, parent);
        lemma_total_from_first(part, parent);
        assert(shown.drop_first() =~= rest.map_values(result_among(folders)));
        assert(shown[0] == result_among(folders)(first));
        assert(folders.contains(first));
        let at = choose|at: int| 0 <= at < folders.len() && folders[at] == first;
        assert(test(shown[0]) <==> first.parent == parent) by {
            if first.parent == parent {
                assert(folders[at].path == shown[0].path);
            }
            if test(shown[0]) {
                let j = choose|j: int|
                    0 <= j < folders.len() && (#[trigger] folders[j]).parent == parent
                        && folders[j].path == shown[0].path;
                assert(j == at) by {
                    if j < at {
                        assert(folders[j].path != folders[at].path);
                    } else if at < j {
                        assert(folders[at].path != folders[j].path);
                    }
                }
            }
        }
        let n = count_of(shown.drop_first(), test);
        assert((n + 1) * (total + 1) == n * (total + 1) + (total + 1)) by (nonlinear_arith);
    } else {
        assert(0 * (total + 1) == 0) by (nonlinear_arith);
    }
}

/// Of one directory at most nine folders are among the results, and together they are no
/// larger than all folders of the directory.
pub proof fn law_results_of_one_directory(folders: Seq<FolderSize>, parent: u64)
    requires
        folder_paths_differ(folders),
    ensures
        count_of(by_size(large_folders(folders)), from_directory(folders, parent)) <= 9,
        size_of(by_size(large_folders(folders)), from_directory(folders, parent)) <= root_total(
            folders,
            parent,
        ),
{
    broadcast use group_filter_ensures;

    let large = large_among(folders);
    let kept = folders.filter(large);
    let test = from_directory(folders, parent);
    let total = root_total(folders, parent);
    assert forall|i: int| 0 <= i < kept.len() implies folders.contains(#[trigger] kept[i])
        && is_large(folders, kept[i]) by {
        assert(large(kept[i]));
        assert(kept.contains(kept[i]));
        folders.lemma_filter_contains_rev(large, kept[i]);
    }
    lemma_results_share(folders, kept, parent);
    lemma_filter_shrinks_total(folders, large, parent);
    lemma_sort_counts(large_folders(folders), test);
    let n = count_of(large_folders(folders), test);
    if n >= 10 {
        assert(n * (total + 1) >= 10 * (total + 1)) by (nonlinear_arith)
            requires
                n >= 10,
        ;
    }
}

/// Every file counts, and counts once: the size of two lists of entries is the sum of their
/// sizes, a file alone has its own length, and what is no file adds nothing.
pub proof fn law_file_sizes_add_up(a: Seq<EntryMeta>, b: Seq<EntryMeta>, entry: EntryMeta)
    ensures
        files_size(Seq::empty()) == 0,
        files_size(a + b) == files_size(a) + files_size(b),
        entry.is_file ==> files_size(seq![entry]) == entry.len,
        !entry.is_file ==> files_size(seq![entry]) == 0,
    decreases b.len(),
{
    assert(seq![entry].drop_last() =~= Seq::<EntryMeta>::empty());
    assert(files_size(seq![entry].drop_last()) == 0);
    if b.len() == 0 {
        assert(a + b =~= a);
    } else {
        law_file_sizes_add_up(a, b.drop_last(), entry);
        assert((a + b).drop_last() =~= a + b.drop_last());
    }
}

/// Every folder counts for its own directory and for no other, and counts once.
pub proof fn law_folder_sizes_add_up(
    a: Seq<FolderSize>,
    b: Seq<FolderSize>,
    folder: FolderSize,
    parent: u64,
)
    ensures
        root_total(Seq::empty(), parent) == 0,
        root_total(a + b, parent) == root_total(a, parent) + root_total(b, parent),
        root_total(seq![folder], folder.parent) == folder.size,
        parent != folder.parent ==> root_total(seq![folder], parent) == 0,
    decreases b.len(),
{
    assert(seq![folder].drop_last() =~= Seq::<FolderSize>::empty());
    assert(root_total(seq![folder].drop_last(), parent) == 0);
    assert(root_total(seq![folder].drop_last(), folder.parent) == 0);
    if b.len() == 0 {
        assert(a + b =~= a);
    } else {
        law_folder_sizes_add_up(a, b.drop_last(), folder, parent);
        assert((a + b).drop_last() =~= a + b.drop_last());
    }
}

/// How many of the first `n` folders take up more than a tenth of their directory.
pub open spec fn large_before(folders: Seq<FolderSize>, n: int) -> nat
    decreases n,
{
    if n <= 0 {
        0
    } else {
        let folder = folders[n - 1];
        large_before(folders, n - 1) + if 10 * folder.size > root_total(folders, folder.parent) {
            1nat
        } else {
            0nat
        }
    }
}

proof fn lemma_large_before(folders: Seq<FolderSize>, n: int)
    requires
        0 <= n <= folders.len(),
    ensures
        folders.take(n).filter(large_among(folders)).len() == large_before(folders, n),
        forall|i: int|
            0 <= i < n && is_large(folders, #[trigger] folders[i]) ==> large_before(folders, i)
                < large_before(folders, n) && folders.take(n).filter(
                large_among(folders),
            )[large_before(folders, i) as int] == folders[i],
    decreases n,
{
    reveal(Seq::filter);
    let large = large_among(folders);
    if n > 0 {
        lemma_large_before(folders, n - 1);
        assert(folders.take(n).drop_last() =~= folders.take(n - 1));
        assert(folders.take(n).last() == folders[n - 1]);
        assert(large(folders[n - 1]) == is_large(folders, folders[n - 1]));
    }
}

/// Exactly the folders that take up more than a tenth of their directory are found, in the
/// order in which they stand, each with its own path, name, size and category and the size of
/// all folders of its directory.
pub proof fn law_large_folders_are_exact(folders: Seq<FolderSize>, i: int)
    requires
        0 <= i < folders.len(),
        totals_fit(folders),
        10 * folders[i].size > root_total(folders, folders[i].parent),
    ensures
        large_folders(folders).len() == large_before(folders, folders.len() as int),
        large_before(folders, i) < large_folders(folders).len(),
        ({
            let result = large_folders(folders)[large_before(folders, i) as int];
            &&& result.path == folders[i].path
            &&& result.name == folders[i].name
            &&& result.size_bytes == folders[i].size
            &&& result.category == folders[i].category
            &&& result.parent_total_size == root_total(folders, folders[i].parent)
        }),
{
    lemma_large_before(folders, folders.len() as int);
    assert(folders.take(folders.len() as int) =~= folders);
    assert(is_large(folders, folders[i]));
}

/// Nothing is found among folders none of which takes up more than a tenth of its directory.
pub proof fn law_small_folders_are_not_found(folders: Seq<FolderSize>)
    requires
        forall|i: int|
            0 <= i < folders.len() ==> 10 * (#[trigger] folders[i]).size <= root_total(
                folders,
                folders[i].parent,
            ),
    ensures
        by_size(large_folders(folders)).len() == 0,
{
    lemma_large_before(folders, folders.len() as int);
    assert(folders.take(folders.len() as int) =~= folders);
    lemma_none_large(folders, folders.len() as int);
}

proof fn lemma_none_large(folders: Seq<FolderSize>, n: int)
    requires
        0 <= n <= folders.len(),
        forall|i: int|
            0 <= i < folders.len() ==> 10 * (#[trigger] folders[i]).size <= root_total(
                folders,
                folders[i].parent,
            ),
    ensures
        large_before(folders, n) == 0,
    decreases n,
{
    if n > 0 {
        lemma_none_large(folders, n - 1);
        assert(10 * folders[n - 1].size <= root_total(folders, folders[n - 1].parent));
    }
}

/// A size that was kept is used exactly if the folder's time of change is the one that was
/// kept with it, neither earlier nor later; it is then used as it is.
pub proof fn law_kept_size_is_exact(size: u64, time: u64, modified: u64)
    ensures
        kept_size(Some((size, time)), modified) is Some <==> time == modified,
        kept_size(Some((size, time)), time) == Some(size),
        kept_size(None, modified) is None,
{
}

/// A path counts as a link exactly if its metadata say so, and an entry is looked at exactly
/// if it is a directory that does not count as a link.
pub proof fn law_links_are_passed_over(is_dir: bool, says_link: bool)
    ensures
        counts_as_link(Some(says_link)) == says_link,
        !counts_as_link(None),
        is_looked_at(is_dir, counts_as_link(Some(true))) == false,
        is_looked_at(is_dir, counts_as_link(Some(false))) == is_dir,
        is_looked_at(is_dir, counts_as_link(None)) == is_dir,
{
}

/// As much is kept as was found: one entry for each result, with its path, its size and the
/// time of change of its folder.
pub proof fn law_every_result_is_kept(results: Seq<ScanResult>, modified: Seq<u64>)
    requires
        modified.len() == results.len(),
    ensures
        cache_of(results, modified).len() == results.len(),
        forall|i: int|
            0 <= i < results.len() ==> {
                let entry = #[trigger] cache_of(results, modified)[i];
                &&& entry.path == results[i].path
                &&& entry.size == results[i].size_bytes
                &&& entry.modified_time == modified[i]
            },
{
}

} // verus!

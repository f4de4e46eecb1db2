//! Eviction: keeping one namespace's part of the cache within its budget.
//!
//! Each namespace is evicted on its own, against its own budget. The oldest files go first,
//! until what is left fits. The file that was just written is counted but never evicted, so
//! a write cannot drop the bytes it produced. A file that another write is still filling is
//! neither counted nor evicted. Kept copies are in another folder, are not counted, and are
//! never evicted.

use vstd::prelude::*;
use vstd::string::*;

use crate::store_dir::{segments, split_text, texts};
use crate::text::{chars_of, same_text};

verus! {

/// A file in a namespace's part of the cache.
#[derive(Debug)]
pub struct CacheFile {
    /// Where it is.
    pub path: String,
    /// When it was written, in milliseconds since the Unix epoch.
    pub recency: u64,
    /// Its length.
    pub size: u64,
}

impl Clone for CacheFile {
    fn clone(&self) -> (copy: CacheFile)
        ensures
            copy == *self,
    {
        CacheFile { path: self.path.clone(), recency: self.recency, size: self.size }
    }
}

/// Whether a path names a file that a write is still filling.
pub open spec fn is_unfinished(path: Seq<char>) -> bool {
    let name = segments(path, '/').last();
    name.len() >= 5 && name.take(5) == ".tmp."@
}

/// The files that are completely written.
pub open spec fn finished(files: Seq<CacheFile>) -> Seq<CacheFile> {
    files.filter(|file: CacheFile| !is_unfinished(file.path@))
}

/// How many bytes some files take.
pub open spec fn total_size(files: Seq<CacheFile>) -> nat
    decreases files.len(),
{
    if files.len() == 0 {
        0
    } else {
        total_size(files.drop_last()) + files.last().size as nat
    }
}

/// Whether a file may be evicted.
pub open spec fn is_candidate(file: CacheFile, protect: Option<Seq<char>>) -> bool {
    protect != Some(file.path@)
}

/// The files that may be evicted.
pub open spec fn candidates(files: Seq<CacheFile>, protect: Option<Seq<char>>) -> Seq<CacheFile> {
    files.filter(|file: CacheFile| is_candidate(file, protect))
}

/// The files written at one time.
pub open spec fn of_age(files: Seq<CacheFile>, recency: u64) -> Seq<CacheFile> {
    files.filter(|file: CacheFile| file.recency == recency)
}

/// Whether `after` is `before` ordered from the oldest file to the newest, with files of
/// one age left in the order they had.
pub open spec fn is_recency_order(before: Seq<CacheFile>, after: Seq<CacheFile>) -> bool {
    &&& after.to_multiset() == before.to_multiset()
    &&& forall|i: int, j: int| 0 <= i <= j < after.len() ==> after[i].recency <= after[j].recency
    &&& forall|recency: u64| #[trigger] of_age(after, recency) == of_age(before, recency)
}

/// What is evicted from a namespace's part of the cache.
#[derive(Debug)]
pub struct EvictionPlan {
    /// The files to delete, in this order. One that is gone already counts as deleted.
    pub evict: Vec<CacheFile>,
    /// How many bytes are left when they are gone.
    pub left: u64,
}

/// Whether deleting `evict`, in this order, is what brings `files` within `budget`: the
/// oldest candidates, as many as it takes, or all of them.
pub open spec fn is_eviction(
    files: Seq<CacheFile>,
    protect: Option<Seq<char>>,
    budget: u64,
    evict: Seq<CacheFile>,
    left: nat,
) -> bool {
    exists|order: Seq<CacheFile>|
        {
            &&& #[trigger] is_recency_order(candidates(files, protect), order)
            &&& evict.len() <= order.len()
            &&& evict == order.take(evict.len() as int)
            &&& left == total_size(files) - total_size(evict)
            &&& left <= budget || evict.len() == order.len()
            &&& forall|k: int|
                0 <= k < evict.len() ==> total_size(files) - #[trigger] total_size(evict.take(k))
                    > budget
        }
}

proof fn lemma_total_remove(files: Seq<CacheFile>, i: int)
    requires
        0 <= i < files.len(),
    ensures
        total_size(files) == total_size(files.remove(i)) + files[i].size,
    decreases files.len(),
{
    if i == files.len() - 1 {
        assert(files.remove(i) =~= files.drop_last());
    } else {
        lemma_total_remove(files.drop_last(), i);
        assert(files.remove(i).drop_last() =~= files.drop_last().remove(i));
        assert(files.remove(i).last() == files.last());
    }
}

proof fn lemma_total_permutation(a: Seq<CacheFile>, b: Seq<CacheFile>)
    requires
        a.to_multiset() == b.to_multiset(),
    ensures
        total_size(a) == total_size(b),
        a.len() == b.len(),
    decreases a.len(),
{
    a.to_multiset_ensures();
    b.to_multiset_ensures();
    if a.len() > 0 {
        let last = a.last();
        assert(a.contains(last));
        assert(b.to_multiset().count(last) > 0);
        let i = b.index_of(last);
        assert(a.drop_last() =~= a.remove(a.len() - 1));
        lemma_total_permutation(a.drop_last(), b.remove(i));
        lemma_total_remove(b, i);
    }
}

proof fn lemma_total_candidates(files: Seq<CacheFile>, protect: Option<Seq<char>>)
    ensures
        total_size(candidates(files, protect)) <= total_size(files),
    decreases files.len(),
{
    reveal(Seq::filter);
    if files.len() > 0 {
        lemma_total_candidates(files.drop_last(), protect);
        let kept = candidates(files.drop_last(), protect);
        assert(kept.push(files.last()).drop_last() =~= kept);
    }
}

proof fn lemma_total_take(files: Seq<CacheFile>, k: int)
    requires
        0 <= k < files.len(),
    ensures
        total_size(files.take(k + 1)) == total_size(files.take(k)) + files[k].size,
        total_size(files.take(k + 1)) <= total_size(files),
    decreases files.len(),
{
    assert(files.take(k + 1).drop_last() =~= files.take(k));
    if k + 1 == files.len() {
        assert(files.take(k + 1) =~= files);
    } else {
        lemma_total_take(files.drop_last(), k);
        assert(files.drop_last().take(k + 1) =~= files.take(k + 1));
    }
}

/// Calls `slice::sort_by_key` on the files' recency. Its documentation says that it sorts
/// by the key and that the sort is stable: equal elements keep their order.
#[verifier::external_body]
fn sort_by_recency(files: &mut Vec<CacheFile>)
    ensures
        is_recency_order(old(files)@, final(files)@),
{
    files.sort_by_key(|file| file.recency);
}

fn is_unfinished_path(path: &str) -> (unfinished: bool)
    ensures
        unfinished == is_unfinished(path@),
{
    let parts: Vec<String> = split_text(path, '/');
    let name: Vec<char> = chars_of(parts[parts.len() - 1].as_str());
    proof {
        reveal_strlit(".tmp.");
        assert(texts(parts@).last() == name@);
        assert(".tmp."@ =~= seq!['.', 't', 'm', 'p', '.']);
        if name@.len() >= 5 {
            let head = name@.take(5);
            assert(head =~= seq![name@[0], name@[1], name@[2], name@[3], name@[4]]);
            if head == ".tmp."@ {
                assert(head[0] == '.' && head[1] == 't' && head[2] == 'm' && head[3] == 'p'
                    && head[4] == '.');
            }
        }
    }
    name.len() >= 5 && name[0] == '.' && name[1] == 't' && name[2] == 'm' && name[3] == 'p'
        && name[4] == '.'
}

fn finished_files(files: &Vec<CacheFile>) -> (kept: Vec<CacheFile>)
    ensures
        kept@ == finished(files@),
{
    let ghost pred = |file: CacheFile| !is_unfinished(file.path@);
    let mut kept: Vec<CacheFile> = Vec::new();
    let mut i: usize = 0;
    proof {
        reveal(Seq::filter);
        assert(files@.take(0) =~= Seq::empty());
    }
    while i < files.len()
        invariant
            i <= files.len(),
            pred == (|file: CacheFile| !is_unfinished(file.path@)),
            kept@ == files@.take(i as int).filter(pred),
        decreases files.len() - i,
    {
        let unfinished: bool = is_unfinished_path(files[i].path.as_str());
        proof {
            reveal(Seq::filter);
            assert(files@.take(i + 1).drop_last() =~= files@.take(i as int));
            assert(unfinished == !pred(files@[i as int]));
        }
        if !unfinished {
            kept.push(files[i].clone());
        }
        i = i + 1;
    }
    assert(files@.take(files@.len() as int) =~= files@);
    kept
}

fn measure_files(files: &Vec<CacheFile>) -> (total: u64)
    requires
        total_size(files@) <= u64::MAX,
    ensures
        total == total_size(files@),
{
    let mut total: u64 = 0;
    let mut i: usize = 0;
    assert(files@.take(0) =~= Seq::empty());
    while i < files.len()
        invariant
            i <= files.len(),
            total == total_size(files@.take(i as int)),
            total_size(files@) <= u64::MAX,
        decreases files.len() - i,
    {
        proof {
            lemma_total_take(files@, i as int);
        }
        total = total + files[i].size;
        i = i + 1;
    }
    assert(files@.take(files@.len() as int) =~= files@);
    total
}

fn evictable(files: &Vec<CacheFile>, protect: Option<&str>) -> (kept: Vec<CacheFile>)
    ensures
        kept@ == candidates(
            files@,
            match protect {
                Some(path) => Some(path@),
                None => None,
            },
        ),
{
    let ghost spared: Option<Seq<char>> = match protect {
        Some(path) => Some(path@),
        None => None,
    };
    let ghost pred = |file: CacheFile| is_candidate(file, spared);
    let mut kept: Vec<CacheFile> = Vec::new();
    let mut i: usize = 0;
    proof {
        reveal(Seq::filter);
        assert(files@.take(0) =~= Seq::empty());
    }
    while i < files.len()
        invariant
            i <= files.len(),
            spared == (match protect {
                Some(path) => Some(path@),
                None => None::<Seq<char>>,
            }),
            pred == (|file: CacheFile| is_candidate(file, spared)),
            kept@ == files@.take(i as int).filter(pred),
        decreases files.len() - i,
    {
        let candidate: bool = match protect {
            Some(path) => !same_text(files[i].path.as_str(), path),
            None => true,
        };
        proof {
            reveal(Seq::filter);
            assert(files@.take(i + 1).drop_last() =~= files@.take(i as int));
            assert(candidate == pred(files@[i as int]));
        }
        if candidate {
            kept.push(files[i].clone());
        }
        i = i + 1;
    }
    assert(files@.take(files@.len() as int) =~= files@);
    kept
}

/// Decides what is evicted from a namespace's part of the cache, of which `files` is
/// everything. What is still being written is left alone. Without a budget nothing is
/// evicted. With one, the oldest files are, one by one, as
/// long as what is left is over the budget; `protect`, the file just written, is counted
/// and spared. Where it alone is over the budget, `left` says by how much.
pub fn evict_to_budget(budget: Option<u64>, files: Vec<CacheFile>, protect: Option<&str>) -> (plan:
    Option<EvictionPlan>)
    requires
        total_size(finished(files@)) <= u64::MAX,
    ensures
        match budget {
            None => plan is None,
            Some(limit) => plan matches Some(planned) && is_eviction(
                finished(files@),
                match protect {
                    Some(path) => Some(path@),
                    None => None,
                },
                limit,
                planned.evict@,
                planned.left as nat,
            ),
        },
        plan matches Some(planned) ==> forall|i: int|
            0 <= i < planned.evict@.len() ==> !is_unfinished((#[trigger] planned.evict@[i]).path@)
                && (protect matches Some(path) ==> planned.evict@[i].path@ != path@),
{
    let ghost everything = files@;
    let budget: u64 = match budget {
        Some(budget) => budget,
        None => return None,
    };
    let files: Vec<CacheFile> = finished_files(&files);
    let total: u64 = measure_files(&files);
    let mut order: Vec<CacheFile> = evictable(&files, protect);
    let ghost spared: Option<Seq<char>> = match protect {
        Some(path) => Some(path@),
        None => None,
    };
    sort_by_recency(&mut order);
    proof {
        lemma_total_candidates(files@, spared);
        lemma_total_permutation(order@, candidates(files@, spared));
        assert(order@.take(0) =~= Seq::empty());
    }
    let mut left: u64 = total;
    let mut k: usize = 0;
    while k < order.len() && left > budget
        invariant
            k <= order.len(),
            total == total_size(files@),
            total_size(order@) <= total,
            left == total - total_size(order@.take(k as int)),
            forall|j: int|
                0 <= j < k ==> total - #[trigger] total_size(order@.take(j)) > budget,
        decreases order.len() - k,
    {
        proof {
            lemma_total_take(order@, k as int);
        }
        left = left - order[k].size;
        k = k + 1;
    }
    let ghost all = order@;
    order.truncate(k);
    proof {
        assert(order@ =~= all.take(k as int));
        assert forall|j: int| 0 <= j < order@.len() implies total_size(files@)
            - #[trigger] total_size(order@.take(j)) > budget by {
            assert(order@.take(j) =~= all.take(j));
        }
        assert(is_recency_order(candidates(files@, spared), all));
        assert(is_eviction(finished(everything), spared, budget, order@, left as nat));
        assert forall|i: int| 0 <= i < order@.len() implies !is_unfinished(
            (#[trigger] order@[i]).path@,
        ) && (protect matches Some(path) ==> order@[i].path@ != path@) by {
            law_unfinished_files_are_left(everything, spared, budget, order@, left as nat, i);
            if let Some(path) = protect {
                law_eviction_spares_the_protected(
                    finished(everything),
                    path@,
                    budget,
                    order@,
                    left as nat,
                    i,
                );
            }
        }
    }
    Some(EvictionPlan { evict: order, left })
}

/// The file just written is never evicted.
pub proof fn law_eviction_spares_the_protected(
    files: Seq<CacheFile>,
    protect: Seq<char>,
    budget: u64,
    evict: Seq<CacheFile>,
    left: nat,
    i: int,
)
    requires
        is_eviction(files, Some(protect), budget, evict, left),
        0 <= i < evict.len(),
    ensures
        evict[i].path@ != protect,
        files.contains(evict[i]),
{
    let all = candidates(files, Some(protect));
    let order = choose|order: Seq<CacheFile>|
        {
            &&& #[trigger] is_recency_order(all, order)
            &&& evict.len() <= order.len()
            &&& evict == order.take(evict.len() as int)
        };
    assert(order[i] == evict[i]);
    assert(order.contains(evict[i]));
    order.to_multiset_ensures();
    all.to_multiset_ensures();
    assert(order.to_multiset().count(evict[i]) > 0);
    assert(all.contains(evict[i]));
    let pred = |file: CacheFile| is_candidate(file, Some(protect));
    let at = all.index_of(evict[i]);
    files.lemma_filter_pred(pred, at);
    files.lemma_filter_contains_rev(pred, all[at]);
}

/// A file that is still being written is never evicted, and does not count toward the
/// budget: the plan is that of the finished files alone.
pub proof fn law_unfinished_files_are_left(
    files: Seq<CacheFile>,
    protect: Option<Seq<char>>,
    budget: u64,
    evict: Seq<CacheFile>,
    left: nat,
    i: int,
)
    requires
        is_eviction(finished(files), protect, budget, evict, left),
        0 <= i < evict.len(),
    ensures
        !is_unfinished(evict[i].path@),
        left == total_size(finished(files)) - total_size(evict),
{
    let done = finished(files);
    let all = candidates(done, protect);
    let order = choose|order: Seq<CacheFile>|
        {
            &&& #[trigger] is_recency_order(all, order)
            &&& evict.len() <= order.len()
            &&& evict == order.take(evict.len() as int)
        };
    assert(order[i] == evict[i]);
    assert(order.contains(evict[i]));
    order.to_multiset_ensures();
    all.to_multiset_ensures();
    assert(order.to_multiset().count(evict[i]) > 0);
    let at = all.index_of(evict[i]);
    done.lemma_filter_contains_rev(|file: CacheFile| is_candidate(file, protect), all[at]);
    let k = done.index_of(evict[i]);
    files.lemma_filter_pred(|file: CacheFile| !is_unfinished(file.path@), k);
}

/// Eviction goes oldest first: no candidate that is left is older than one that is evicted.
pub proof fn law_eviction_is_oldest_first(
    files: Seq<CacheFile>,
    protect: Option<Seq<char>>,
    budget: u64,
    evict: Seq<CacheFile>,
    left: nat,
)
    requires
        is_eviction(files, protect, budget, evict, left),
    ensures
        exists|kept: Seq<CacheFile>|
            {
                &&& #[trigger] (evict + kept).to_multiset() == candidates(
                    files,
                    protect,
                ).to_multiset()
                &&& forall|i: int, j: int|
                    0 <= i < evict.len() && 0 <= j < kept.len() ==> evict[i].recency
                        <= kept[j].recency
            },
        forall|i: int, j: int|
            0 <= i <= j < evict.len() ==> evict[i].recency <= evict[j].recency,
{
    let all = candidates(files, protect);
    let order = choose|order: Seq<CacheFile>|
        {
            &&& #[trigger] is_recency_order(all, order)
            &&& evict.len() <= order.len()
            &&& evict == order.take(evict.len() as int)
        };
    let kept = order.skip(evict.len() as int);
    assert(evict + kept =~= order);
    assert((evict + kept).to_multiset() == all.to_multiset());
}

/// Eviction ends within the budget, or with nothing left that may be evicted; and it
/// evicts nothing that it need not: before each deletion the cache was over the budget.
pub proof fn law_eviction_is_enough_and_no_more(
    files: Seq<CacheFile>,
    protect: Option<Seq<char>>,
    budget: u64,
    evict: Seq<CacheFile>,
    left: nat,
)
    requires
        is_eviction(files, protect, budget, evict, left),
    ensures
        left <= budget || left == total_size(files) - total_size(candidates(files, protect)),
        evict.len() > 0 ==> left + evict.last().size > budget,
        total_size(files) <= budget ==> evict.len() == 0,
{
    let all = candidates(files, protect);
    let order = choose|order: Seq<CacheFile>|
        {
            &&& #[trigger] is_recency_order(all, order)
            &&& evict.len() <= order.len()
            &&& evict == order.take(evict.len() as int)
            &&& left == total_size(files) - total_size(evict)
            &&& left <= budget || evict.len() == order.len()
            &&& forall|k: int|
                0 <= k < evict.len() ==> total_size(files) - #[trigger] total_size(evict.take(k))
                    > budget
        };
    if left > budget {
        assert(order.take(order.len() as int) =~= order);
        lemma_total_permutation(order, all);
    }
    if evict.len() > 0 {
        let k = evict.len() - 1;
        assert(evict.take(k) =~= evict.drop_last());
        assert(total_size(files) - total_size(evict.take(k)) > budget);
        assert(evict.take(0) =~= Seq::empty());
        assert(total_size(files) - total_size(evict.take(0)) > budget);
    }
}

} // verus!

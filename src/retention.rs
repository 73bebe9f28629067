//! Which files of the sequence remain on disk: opening index `i` deletes the
//! file of index `i - file_count` first.

use vstd::prelude::*;
use vstd::set_lib::{lemma_int_range, lemma_len_subset, set_int_range};
use crate::naming::evict_index;

verus! {

/// The indices whose files are on disk after the files of indices 0 to
/// `n - 1` have been opened in turn, starting from none.
pub open spec fn retained(n: nat, file_count: nat) -> Set<int>
    decreases n,
{
    if n == 0 {
        Set::empty()
    } else {
        let i = n - 1;
        retained((n - 1) as nat, file_count).remove(evict_index(i, file_count as int)).insert(i)
    }
}

proof fn lemma_retained_members(n: nat, file_count: nat)
    ensures
        forall|i: int|
            #[trigger] retained(n, file_count).contains(i) <==> 0 <= i < n && (file_count == 0 || i
                >= n - file_count),
    decreases n,
{
    if n > 0 {
        let m = (n - 1) as nat;
        lemma_retained_members(m, file_count);
        assert forall|i: int|
            #[trigger] retained(n, file_count).contains(i) <==> 0 <= i < n && (file_count == 0 || i
                >= n - file_count) by {
            assert(retained(n, file_count) == retained(m, file_count).remove(
                evict_index(m as int, file_count as int),
            ).insert(m as int));
            assert(retained(m, file_count).contains(i) <==> 0 <= i < m && (file_count == 0 || i
                >= m - file_count));
        }
    }
}

/// With a positive file count, once `n` files have been opened exactly the
/// last `file_count` of them (or all, while there are fewer) are on disk: the
/// open file and those before it in the window. That is never more than
/// `file_count + 1` files.
pub proof fn lemma_retained_window(n: nat, file_count: nat)
    requires
        file_count >= 1,
    ensures
        retained(n, file_count) == Set::new(|i: int| 0 <= i < n && i >= n - file_count),
        retained(n, file_count).finite(),
        retained(n, file_count).len() <= file_count,
        retained(n, file_count).len() <= file_count + 1,
{
    lemma_retained_members(n, file_count);
    assert(retained(n, file_count) =~= Set::new(|i: int| 0 <= i < n && i >= n - file_count));
    lemma_int_range(n - file_count, n as int);
    lemma_len_subset(retained(n, file_count), set_int_range(n - file_count, n as int));
}

/// With a file count of 0, the file deleted on opening index `i` is the one of
/// index `i` itself, before it is created: no earlier file is ever deleted,
/// and every file opened stays on disk.
pub proof fn lemma_retention_without_count(n: nat)
    ensures
        forall|i: int| evict_index(i, 0) == i,
        retained(n, 0) == set_int_range(0, n as int),
        retained(n, 0).len() == n,
{
    lemma_retained_members(n, 0);
    assert(retained(n, 0) =~= set_int_range(0, n as int));
    lemma_int_range(0, n as int);
}

} // verus!

//! Rows by inode number, so that a batch of inserts looks each key up in
//! constant time instead of walking every row.

use std::collections::HashMap;

use vstd::prelude::*;

use crate::model::{FileKey, FileRecord};

use super::queue::{key_index, lemma_key_index};

verus! {

broadcast use vstd::std_specs::hash::group_hash_axioms;

/// Every index stored under an inode points at a row with that inode, and
/// every row is listed under its inode.
pub open spec fn index_ok(idx: Map<u64, Vec<usize>>, files: Seq<FileRecord>) -> bool {
    &&& forall|ino: u64, j: int|
        #![trigger idx[ino]@[j]]
        idx.contains_key(ino) && 0 <= j < idx[ino]@.len() ==> idx[ino]@[j] < files.len()
            && files[idx[ino]@[j] as int].key.ino == ino
    &&& forall|k: int|
        0 <= k < files.len() ==> idx.contains_key(#[trigger] files[k].key.ino)
            && idx[files[k].key.ino]@.contains(k as usize)
}

/// The indices listed under an inode, empty when it has none.
pub open spec fn bucket(idx: Map<u64, Vec<usize>>, ino: u64) -> Seq<usize> {
    if idx.contains_key(ino) {
        idx[ino]@
    } else {
        Seq::empty()
    }
}

/// Lists `pos` under `ino`, leaving the other inodes as they were.
fn list_under(idx: &mut HashMap<u64, Vec<usize>>, ino: u64, pos: usize)
    ensures
        final(idx)@.contains_key(ino),
        final(idx)@[ino]@ == bucket(old(idx)@, ino).push(pos),
        forall|i: u64| i != ino ==> final(idx)@.contains_key(i) == old(idx)@.contains_key(i),
        forall|i: u64| i != ino && old(idx)@.contains_key(i) ==> final(idx)@[i] == old(idx)@[i],
{
    let mut v: Vec<usize> = match idx.remove(&ino) {
        Some(b) => b,
        None => Vec::new(),
    };
    v.push(pos);
    idx.insert(ino, v);
}

/// Indexes every row of `files`.
pub fn build(files: &Vec<FileRecord>) -> (r: HashMap<u64, Vec<usize>>)
    ensures
        index_ok(r@, files@),
{
    let mut idx: HashMap<u64, Vec<usize>> = HashMap::new();
    let mut k: usize = 0;
    while k < files.len()
        invariant
            k <= files@.len(),
            index_ok(idx@, files@.subrange(0, k as int)),
        decreases files@.len() - k,
    {
        let ghost before = idx@;
        let ghost pre = files@.subrange(0, k as int);
        let ghost post = files@.subrange(0, k + 1);
        list_under(&mut idx, files[k].key.ino, k);
        proof {
            let ino = files@[k as int].key.ino;
            assert forall|i: u64, j: int|
                #![trigger idx@[i]@[j]]
                idx@.contains_key(i) && 0 <= j < idx@[i]@.len() implies idx@[i]@[j] < post.len()
                && post[idx@[i]@[j] as int].key.ino == i by {
                if i != ino {
                    assert(before[i]@[j] == idx@[i]@[j]);
                } else if j < bucket(before, ino).len() {
                    assert(before[i]@[j] == idx@[i]@[j]);
                }
            }
            assert forall|m: int| 0 <= m < post.len() implies idx@.contains_key(#[trigger] post[m].key.ino)
                && idx@[post[m].key.ino]@.contains(m as usize) by {
                if m < k {
                    assert(pre[m] == post[m]);
                    let i = post[m].key.ino;
                    let c = choose|j: int| 0 <= j < before[i]@.len() && before[i]@[j] == m as usize;
                    if i == ino {
                        assert(idx@[i]@[c] == m as usize);
                    } else {
                        assert(idx@[i]@[c] == m as usize);
                    }
                } else {
                    assert(idx@[ino]@[bucket(before, ino).len() as int] == k);
                }
            }
        }
        k = k + 1;
    }
    assert(files@.subrange(0, files@.len() as int) =~= files@);
    idx
}

/// Lists the row just pushed at `pos`.
pub fn push_row(idx: &mut HashMap<u64, Vec<usize>>, files: &Vec<FileRecord>, pos: usize)
    requires
        pos + 1 == files@.len(),
        index_ok(old(idx)@, files@.drop_last()),
    ensures
        index_ok(final(idx)@, files@),
{
    let ghost before = idx@;
    let ghost pre = files@.drop_last();
    list_under(idx, files[pos].key.ino, pos);
    proof {
        let ino = files@[pos as int].key.ino;
        assert forall|i: u64, j: int|
            #![trigger idx@[i]@[j]]
            idx@.contains_key(i) && 0 <= j < idx@[i]@.len() implies idx@[i]@[j] < files@.len()
            && files@[idx@[i]@[j] as int].key.ino == i by {
            if i != ino {
                assert(before[i]@[j] == idx@[i]@[j]);
                assert(pre[before[i]@[j] as int] == files@[before[i]@[j] as int]);
            } else if j < bucket(before, ino).len() {
                assert(before[i]@[j] == idx@[i]@[j]);
                assert(pre[before[i]@[j] as int] == files@[before[i]@[j] as int]);
            }
        }
        assert forall|m: int| 0 <= m < files@.len() implies idx@.contains_key(#[trigger] files@[m].key.ino)
            && idx@[files@[m].key.ino]@.contains(m as usize) by {
            if m < pos {
                assert(pre[m] == files@[m]);
                let i = files@[m].key.ino;
                let c = choose|j: int| 0 <= j < before[i]@.len() && before[i]@[j] == m as usize;
                assert(idx@[i]@[c] == m as usize);
            } else {
                assert(idx@[ino]@[bucket(before, ino).len() as int] == pos);
            }
        }
    }
}

/// Whether some row holds `key`.
pub fn known(files: &Vec<FileRecord>, idx: &HashMap<u64, Vec<usize>>, key: &FileKey) -> (r: bool)
    requires
        index_ok(idx@, files@),
    ensures
        r == (key_index(files@, *key) >= 0),
{
    proof {
        lemma_key_index(files@, *key);
    }
    match idx.get(&key.ino) {
        None => {
            proof {
                assert(!idx@.contains_key(key.ino));
                assert forall|k: int| 0 <= k < files@.len() implies (#[trigger] files@[k]).key != *key by {
                    assert(idx@.contains_key(files@[k].key.ino));
                }
            }
            false
        },
        Some(b) => {
            assert(idx@.contains_key(key.ino) && *b == idx@[key.ino]);
            let mut j: usize = 0;
            while j < b.len()
                invariant
                    j <= b@.len(),
                    idx@.contains_key(key.ino),
                    *b == idx@[key.ino],
                    index_ok(idx@, files@),
                    forall|t: int| 0 <= t < j ==> files@[b@[t] as int].key != *key,
                    key_index(files@, *key) >= 0 ==> files@[key_index(files@, *key)].key == *key,
                    -1 <= key_index(files@, *key) < files@.len(),
                    forall|k: int|
                        0 <= k < files@.len() && key_index(files@, *key) == -1 ==> (#[trigger] files@[k]).key
                            != *key,
                decreases b@.len() - j,
            {
                assert(b@[j as int] == idx@[key.ino]@[j as int]);
                let at = b[j];
                if files[at].key.same(key) {
                    assert(files@[at as int].key == *key);
                    return true;
                }
                j = j + 1;
            }
            proof {
                if key_index(files@, *key) >= 0 {
                    let k = key_index(files@, *key);
                    assert(idx@.contains_key(files@[k].key.ino));
                    assert(files@[k].key.ino == key.ino);
                    assert(0 <= k < files.len());
                    assert((k as usize) as int == k);
                    assert(idx@[key.ino]@.contains(k as usize));
                    let c = choose|t: int| 0 <= t < idx@[key.ino]@.len() && idx@[key.ino]@[t] == k as usize;
                    assert(b@[c] == k as usize);
                    assert(files@[b@[c] as int].key == *key);
                }
            }
            false
        },
    }
}

} // verus!

//! Looking up duplicate candidates and groups.

use vstd::prelude::*;

use crate::model::{digest_eq, DomainId, FileKey, FileLoc, FileRecord, Group, Root, State, Ts, Volume};

use super::queue::{find_key, key_index, lemma_key_index};
use super::{find_group, group_index, lemma_group_index};
use crate::repo::Scope;

verus! {

/// `r` lies in the scope of `me`.
pub open spec fn in_scope(r: FileRecord, me: FileRecord, scope: Scope) -> bool {
    match scope {
        Scope::Owner => r.owner_uid == me.owner_uid,
        Scope::Share => r.loc.root_id == me.loc.root_id,
        Scope::SameDomain => true,
    }
}

/// `r` may be a duplicate of `me`: another row, `sized` or `distinct`, one
/// link, same domain and size, settled before `settled_before_ns`, in scope.
pub open spec fn is_candidate_of(r: FileRecord, me: FileRecord, scope: Scope, settled_before_ns: i64) -> bool {
    &&& r.id != me.id
    &&& (r.state == State::Sized || r.state == State::Distinct)
    &&& r.nlink == 1
    &&& r.domain_id == me.domain_id
    &&& r.size == me.size
    &&& r.mtime_ns <= settled_before_ns
    &&& in_scope(r, me, scope)
}

/// The candidate order: rows with a hash first, then oldest `mtime_ns`, then
/// oldest `first_seen_at`, then smallest id. `cand_after(a, b)`: `a` comes
/// strictly after `b`.
pub open spec fn cand_after(a: FileRecord, b: FileRecord) -> bool {
    let ka = a.sparse_hash is None;
    let kb = b.sparse_hash is None;
    if ka != kb {
        ka
    } else if a.mtime_ns != b.mtime_ns {
        a.mtime_ns > b.mtime_ns
    } else if a.first_seen_at != b.first_seen_at {
        a.first_seen_at > b.first_seen_at
    } else {
        a.id > b.id
    }
}

/// Where a stable insertion puts `x` in `s`: after every element that does not
/// come strictly after it.
pub open spec fn cand_pos(s: Seq<FileRecord>, x: FileRecord) -> int
    decreases s.len(),
{
    if s.len() == 0 {
        0
    } else if cand_after(s.last(), x) {
        cand_pos(s.drop_last(), x)
    } else {
        s.len() as int
    }
}

proof fn lemma_cand_pos(s: Seq<FileRecord>, x: FileRecord)
    ensures
        0 <= cand_pos(s, x) <= s.len(),
    decreases s.len(),
{
    if s.len() > 0 {
        lemma_cand_pos(s.drop_last(), x);
    }
}

/// `s` sorted stably in candidate order.
pub open spec fn cand_sorted(s: Seq<FileRecord>) -> Seq<FileRecord>
    decreases s.len(),
{
    if s.len() == 0 {
        s
    } else {
        let t = cand_sorted(s.drop_last());
        t.insert(cand_pos(t, s.last()), s.last())
    }
}

/// The candidates of `me` among `files`, in file order.
pub open spec fn candidates_of(files: Seq<FileRecord>, me: FileRecord, scope: Scope, settled_before_ns: i64) -> Seq<FileRecord> {
    files.filter(candidate_pred(me, scope, settled_before_ns))
}

pub open spec fn candidate_pred(me: FileRecord, scope: Scope, settled_before_ns: i64) -> spec_fn(FileRecord) -> bool {
    |r: FileRecord| is_candidate_of(r, me, scope, settled_before_ns)
}

/// What `candidates` returns: the candidates in candidate order, at most `limit`.
pub open spec fn candidates_spec(files: Seq<FileRecord>, me: FileRecord, scope: Scope, settled_before_ns: i64, limit: usize) -> Seq<FileRecord> {
    let c = cand_sorted(candidates_of(files, me, scope, settled_before_ns));
    if c.len() <= limit {
        c
    } else {
        c.take(limit as int)
    }
}

/// Sorting keeps the elements: every element of the sorted sequence is one
/// of `s`.
proof fn lemma_cand_sorted_from(s: Seq<FileRecord>)
    ensures
        cand_sorted(s).len() == s.len(),
        forall|k: int| 0 <= k < s.len() ==> s.contains(#[trigger] cand_sorted(s)[k]),
    decreases s.len(),
{
    if s.len() > 0 {
        let d = s.drop_last();
        lemma_cand_sorted_from(d);
        let t = cand_sorted(d);
        let x = s.last();
        lemma_cand_pos(t, x);
        let p = cand_pos(t, x);
        t.insert_ensures(p, x);
        let r = t.insert(p, x);
        assert forall|k: int| 0 <= k < s.len() implies s.contains(#[trigger] cand_sorted(s)[k]) by {
            assert(cand_sorted(s) == r);
            if k == p {
                assert(s[s.len() - 1] == x);
            } else {
                let j = if k < p { k } else { k - 1 };
                assert(r[k] == t[j]);
                assert(d.contains(t[j]));
                let w = choose|w: int| 0 <= w < d.len() && d[w] == t[j];
                assert(s[w] == d[w]);
            }
        }
    }
}

/// Every candidate handed back is another row of `files`, `sized` or
/// `distinct`, with one link, of the domain and size of `me`, settled
/// before the cutoff, and in the scope: of the owner of `me` under `Owner`,
/// of the root of `me` under `Share`. At most `limit` come back.
pub proof fn lemma_candidates_in_scope(files: Seq<FileRecord>, me: FileRecord, scope: Scope, settled_before_ns: i64, limit: usize)
    ensures
        candidates_spec(files, me, scope, settled_before_ns, limit).len() <= limit,
        forall|k: int| 0 <= k < candidates_spec(files, me, scope, settled_before_ns, limit).len() ==> {
            let c = #[trigger] candidates_spec(files, me, scope, settled_before_ns, limit)[k];
            &&& files.contains(c)
            &&& c.id != me.id
            &&& (c.state == State::Sized || c.state == State::Distinct)
            &&& c.nlink == 1
            &&& c.domain_id == me.domain_id
            &&& c.size == me.size
            &&& c.mtime_ns <= settled_before_ns
            &&& (scope == Scope::Owner ==> c.owner_uid == me.owner_uid)
            &&& (scope == Scope::Share ==> c.loc.root_id == me.loc.root_id)
        },
{
    let pred = candidate_pred(me, scope, settled_before_ns);
    let f = files.filter(pred);
    lemma_cand_sorted_from(f);
    let c = cand_sorted(f);
    let out = candidates_spec(files, me, scope, settled_before_ns, limit);
    assert forall|k: int| 0 <= k < out.len() implies {
        let x = #[trigger] out[k];
        &&& files.contains(x)
        &&& x.id != me.id
        &&& (x.state == State::Sized || x.state == State::Distinct)
        &&& x.nlink == 1
        &&& x.domain_id == me.domain_id
        &&& x.size == me.size
        &&& x.mtime_ns <= settled_before_ns
        &&& (scope == Scope::Owner ==> x.owner_uid == me.owner_uid)
        &&& (scope == Scope::Share ==> x.loc.root_id == me.loc.root_id)
    } by {
        assert(out[k] == c[k]);
        assert(f.contains(c[k]));
        let w = choose|w: int| 0 <= w < f.len() && f[w] == c[k];
        files.lemma_filter_pred(pred, w);
        files.lemma_filter_contains_rev(pred, f[w]);
        assert(pred(f[w]));
    }
}

/// `s` is sorted: no element comes strictly after a later one.
pub open spec fn cand_ordered(s: Seq<FileRecord>) -> bool {
    forall|i: int, j: int| 0 <= i < j < s.len() ==> !cand_after(#[trigger] s[i], #[trigger] s[j])
}

proof fn lemma_cand_order_laws()
    ensures
        forall|a: FileRecord, b: FileRecord, c: FileRecord| #![trigger cand_after(a, b), cand_after(b, c)] !cand_after(a, b) && !cand_after(b, c) ==> !cand_after(a, c),
        forall|a: FileRecord, b: FileRecord| #[trigger] cand_after(a, b) ==> !cand_after(b, a),
{
}

proof fn lemma_cand_pos_split(t: Seq<FileRecord>, x: FileRecord)
    requires
        cand_ordered(t),
    ensures
        0 <= cand_pos(t, x) <= t.len(),
        forall|k: int| 0 <= k < cand_pos(t, x) ==> !cand_after(#[trigger] t[k], x),
        forall|k: int| cand_pos(t, x) <= k < t.len() ==> cand_after(#[trigger] t[k], x),
    decreases t.len(),
{
    lemma_cand_pos(t, x);
    lemma_cand_order_laws();
    if t.len() > 0 {
        let d = t.drop_last();
        assert(cand_ordered(d)) by {
            assert forall|i: int, j: int| 0 <= i < j < d.len() implies !cand_after(#[trigger] d[i], #[trigger] d[j]) by {
                assert(d[i] == t[i] && d[j] == t[j]);
            }
        }
        if cand_after(t.last(), x) {
            lemma_cand_pos_split(d, x);
            assert forall|k: int| cand_pos(t, x) <= k < t.len() implies cand_after(#[trigger] t[k], x) by {
                if k < t.len() - 1 {
                    assert(t[k] == d[k]);
                }
            }
            assert forall|k: int| 0 <= k < cand_pos(t, x) implies !cand_after(#[trigger] t[k], x) by {
                assert(t[k] == d[k]);
            }
        } else {
            assert forall|k: int| 0 <= k < cand_pos(t, x) implies !cand_after(#[trigger] t[k], x) by {
                if k < t.len() - 1 {
                    assert(!cand_after(t[k], t[t.len() - 1]));
                }
            }
        }
    }
}

proof fn lemma_cand_sorted_ordered(s: Seq<FileRecord>)
    ensures
        cand_ordered(cand_sorted(s)),
    decreases s.len(),
{
    lemma_cand_order_laws();
    if s.len() > 0 {
        let d = s.drop_last();
        lemma_cand_sorted_ordered(d);
        lemma_cand_sorted_from(d);
        let t = cand_sorted(d);
        let x = s.last();
        lemma_cand_pos_split(t, x);
        let p = cand_pos(t, x);
        t.insert_ensures(p, x);
        let r = t.insert(p, x);
        assert(cand_sorted(s) == r);
        assert forall|i: int, j: int| 0 <= i < j < r.len() implies !cand_after(#[trigger] r[i], #[trigger] r[j]) by {
            let ti = if i < p { i } else { i - 1 };
            let tj = if j < p { j } else { j - 1 };
            if i == p {
                assert(r[j] == t[tj]);
                assert(cand_after(t[tj], x));
            } else if j == p {
                assert(r[i] == t[ti]);
            } else {
                assert(r[i] == t[ti] && r[j] == t[tj]);
                assert(ti < tj);
            }
        }
    }
}

/// The candidates come back in order: every row with a sparse hash before
/// every row without one; among rows alike in that, older `mtime_ns` first,
/// then older `first_seen_at`, then smaller id.
pub proof fn lemma_candidates_ordered(files: Seq<FileRecord>, me: FileRecord, scope: Scope, settled_before_ns: i64, limit: usize)
    ensures
        forall|i: int, j: int| 0 <= i < j < candidates_spec(files, me, scope, settled_before_ns, limit).len() ==> {
            let a = #[trigger] candidates_spec(files, me, scope, settled_before_ns, limit)[i];
            let b = #[trigger] candidates_spec(files, me, scope, settled_before_ns, limit)[j];
            &&& (b.sparse_hash is Some ==> a.sparse_hash is Some)
            &&& ((a.sparse_hash is Some) == (b.sparse_hash is Some)) ==> (a.mtime_ns < b.mtime_ns || (a.mtime_ns == b.mtime_ns
                && (a.first_seen_at < b.first_seen_at || (a.first_seen_at == b.first_seen_at && a.id <= b.id))))
        },
{
    let c = cand_sorted(candidates_of(files, me, scope, settled_before_ns));
    lemma_cand_sorted_ordered(candidates_of(files, me, scope, settled_before_ns));
    let out = candidates_spec(files, me, scope, settled_before_ns, limit);
    assert forall|i: int, j: int| 0 <= i < j < out.len() implies !cand_after(#[trigger] out[i], #[trigger] out[j]) by {
        assert(out[i] == c[i] && out[j] == c[j]);
    }
}

proof fn lemma_cand_sorted_keeps(s: Seq<FileRecord>)
    ensures
        cand_sorted(s).len() == s.len(),
        forall|k: int| 0 <= k < s.len() ==> cand_sorted(s).contains(#[trigger] s[k]),
    decreases s.len(),
{
    lemma_cand_sorted_from(s);
    if s.len() > 0 {
        let d = s.drop_last();
        lemma_cand_sorted_keeps(d);
        let t = cand_sorted(d);
        let x = s.last();
        lemma_cand_pos(t, x);
        let p = cand_pos(t, x);
        t.insert_ensures(p, x);
        let r = t.insert(p, x);
        assert(cand_sorted(s) == r);
        assert forall|k: int| 0 <= k < s.len() implies cand_sorted(s).contains(#[trigger] s[k]) by {
            if k == s.len() - 1 {
                assert(r[p] == x);
            } else {
                assert(s[k] == d[k]);
                assert(t.contains(d[k]));
                let w = choose|w: int| 0 <= w < t.len() && t[w] == d[k];
                if w < p {
                    assert(r[w] == t[w]);
                } else {
                    assert(r[w + 1] == t[w]);
                }
            }
        }
    }
}

/// Nothing that qualifies is left out: when `files` holds no more rows than
/// `limit`, every other row `sized` or `distinct`, with one link, of the
/// domain and size of `me`, settled before the cutoff and in the scope (any
/// root under `SameDomain`, the root of `me` under `Share`, the owner of
/// `me` under `Owner`) is a candidate.
pub proof fn lemma_candidates_complete(files: Seq<FileRecord>, me: FileRecord, scope: Scope, settled_before_ns: i64, limit: usize, r: FileRecord)
    requires
        files.len() <= limit,
        files.contains(r),
        r.id != me.id,
        r.state == State::Sized || r.state == State::Distinct,
        r.nlink == 1,
        r.domain_id == me.domain_id,
        r.size == me.size,
        r.mtime_ns <= settled_before_ns,
        scope == Scope::Owner ==> r.owner_uid == me.owner_uid,
        scope == Scope::Share ==> r.loc.root_id == me.loc.root_id,
    ensures
        candidates_spec(files, me, scope, settled_before_ns, limit).contains(r),
{
    let pred = candidate_pred(me, scope, settled_before_ns);
    let f = files.filter(pred);
    let w = choose|w: int| 0 <= w < files.len() && files[w] == r;
    files.lemma_filter_contains(pred, w);
    files.lemma_filter_len(pred);
    let wf = choose|v: int| 0 <= v < f.len() && f[v] == r;
    lemma_cand_sorted_keeps(f);
}

fn in_scope_exec(r: &FileRecord, me: &FileRecord, scope: Scope) -> (b: bool)
    ensures
        b == in_scope(*r, *me, scope),
{
    match scope {
        Scope::Owner => r.owner_uid == me.owner_uid,
        Scope::Share => r.loc.root_id == me.loc.root_id,
        Scope::SameDomain => true,
    }
}

fn cand_after_exec(a: &FileRecord, b: &FileRecord) -> (r: bool)
    ensures
        r == cand_after(*a, *b),
{
    let ka = a.sparse_hash.is_none();
    let kb = b.sparse_hash.is_none();
    if ka != kb {
        ka
    } else if a.mtime_ns != b.mtime_ns {
        a.mtime_ns > b.mtime_ns
    } else if a.first_seen_at != b.first_seen_at {
        a.first_seen_at > b.first_seen_at
    } else {
        a.id > b.id
    }
}

/// Inserts `x` at its stable place in candidate order.
fn cand_insert(out: &mut Vec<FileRecord>, x: FileRecord)
    ensures
        final(out)@ == old(out)@.insert(cand_pos(old(out)@, x), x),
{
    let ghost s = out@;
    let mut p: usize = out.len();
    assert(s.subrange(0, p as int) =~= s);
    while p > 0 && cand_after_exec(&out[p - 1], &x)
        invariant
            out@ == s,
            p <= s.len(),
            cand_pos(s, x) == cand_pos(s.subrange(0, p as int), x),
        decreases p,
    {
        proof {
            let t = s.subrange(0, p as int);
            assert(t.drop_last() =~= s.subrange(0, p - 1));
        }
        p = p - 1;
    }
    proof {
        let t = s.subrange(0, p as int);
        if p == 0 {
            assert(t.len() == 0);
        } else {
            assert(t.last() == s[p - 1]);
        }
        lemma_cand_pos(s, x);
    }
    out.insert(p, x);
}

/// Duplicate candidates of `me`: `sized`/`distinct`, one link, same domain and
/// size, settled, in scope; rows with a hash first, then the oldest.
pub fn candidates(files: &Vec<FileRecord>, me: &FileRecord, scope: Scope, settled_before_ns: i64, limit: usize) -> (r: Vec<FileRecord>)
    ensures
        r@ == candidates_spec(files@, *me, scope, settled_before_ns, limit),
{
    let mut out: Vec<FileRecord> = Vec::new();
    let mut i: usize = 0;
    while i < files.len()
        invariant
            i <= files@.len(),
            out@ == cand_sorted(candidates_of(files@.subrange(0, i as int), *me, scope, settled_before_ns)),
        decreases files@.len() - i,
    {
        let ghost pre = files@.subrange(0, i as int);
        let ghost nxt = files@.subrange(0, i + 1);
        proof {
            assert(nxt.drop_last() =~= pre);
            assert(nxt.last() == files@[i as int]);
            pre.lemma_filter_push(files@[i as int], candidate_pred(*me, scope, settled_before_ns));
            assert(nxt =~= pre.push(files@[i as int]));
        }
        let r = &files[i];
        let ok = r.id != me.id && r.state.is_candidate() && r.nlink == 1 && r.domain_id.same(&me.domain_id)
            && r.size == me.size && r.mtime_ns <= settled_before_ns && in_scope_exec(r, me, scope);
        if ok {
            proof {
                let c = candidates_of(pre, *me, scope, settled_before_ns);
                assert(candidates_of(nxt, *me, scope, settled_before_ns) == c.push(files@[i as int]));
                assert(c.push(files@[i as int]).drop_last() =~= c);
            }
            cand_insert(&mut out, r.clone());
        }
        i = i + 1;
    }
    assert(files@.subrange(0, files@.len() as int) =~= files@);
    if out.len() > limit {
        out.truncate(limit);
    }
    out
}

/// The latest `ready_at` among settling rows of the same domain and size as
/// `me`, in scope; parked rows (no `ready_at`) do not count.
pub open spec fn pending_same_size_spec(files: Seq<FileRecord>, me: FileRecord, scope: Scope) -> Option<Ts>
    decreases files.len(),
{
    if files.len() == 0 {
        None
    } else {
        let prev = pending_same_size_spec(files.drop_last(), me, scope);
        let r = files.last();
        if r.id != me.id && r.state == State::Settling && r.domain_id == me.domain_id && r.size == me.size
            && in_scope(r, me, scope) && r.ready_at is Some {
            let t = r.ready_at.unwrap();
            match prev {
                Some(p) => Some(if p >= t { p } else { t }),
                None => Some(t),
            }
        } else {
            prev
        }
    }
}

/// The latest `ready_at` among rows of the same domain and size that are still
/// settling, or `None` when there is none.
pub fn pending_same_size(files: &Vec<FileRecord>, me: &FileRecord, scope: Scope) -> (r: Option<Ts>)
    ensures
        r == pending_same_size_spec(files@, *me, scope),
{
    let mut best: Option<Ts> = None;
    let mut i: usize = 0;
    while i < files.len()
        invariant
            i <= files@.len(),
            best == pending_same_size_spec(files@.subrange(0, i as int), *me, scope),
        decreases files@.len() - i,
    {
        proof {
            let nxt = files@.subrange(0, i + 1);
            assert(nxt.drop_last() =~= files@.subrange(0, i as int));
            assert(nxt.last() == files@[i as int]);
        }
        let r = &files[i];
        if r.id != me.id && r.state == State::Settling && r.domain_id.same(&me.domain_id) && r.size == me.size
            && in_scope_exec(r, me, scope) {
            match r.ready_at {
                Some(t) => {
                    best = match best {
                        Some(p) => Some(if p >= t { p } else { t }),
                        None => Some(t),
                    };
                },
                None => {},
            }
        }
        i = i + 1;
    }
    assert(files@.subrange(0, files@.len() as int) =~= files@);
    best
}

/// The group has the key `(domain, size, sparse_hash)`.
pub open spec fn group_has_key(g: Group, domain: DomainId, size: u64, h: [u8; 32]) -> bool {
    g.domain_id == domain && g.size == size && g.sparse_hash == h
}

/// The groups with one key, in id order.
pub open spec fn groups_with_key(groups: Seq<Group>, domain: DomainId, size: u64, h: [u8; 32]) -> Seq<Group> {
    groups.filter(key_pred(domain, size, h))
}

pub open spec fn key_pred(domain: DomainId, size: u64, h: [u8; 32]) -> spec_fn(Group) -> bool {
    |g: Group| group_has_key(g, domain, size, h)
}

/// Groups with the key `(domain, size, sparse_hash)`. Several groups share a
/// key when the sparse hash matched contents that differ.
pub fn groups_by_key(groups: &Vec<Group>, domain: &DomainId, size: u64, h: &[u8; 32]) -> (r: Vec<Group>)
    ensures
        r@ == groups_with_key(groups@, *domain, size, *h),
{
    let mut out: Vec<Group> = Vec::new();
    let mut i: usize = 0;
    while i < groups.len()
        invariant
            i <= groups@.len(),
            out@ == groups_with_key(groups@.subrange(0, i as int), *domain, size, *h),
        decreases groups@.len() - i,
    {
        let ghost pre = groups@.subrange(0, i as int);
        proof {
            let nxt = groups@.subrange(0, i + 1);
            pre.lemma_filter_push(groups@[i as int], key_pred(*domain, size, *h));
            assert(nxt =~= pre.push(groups@[i as int]));
        }
        let g = groups[i];
        if g.domain_id.same(domain) && g.size == size && digest_eq(&g.sparse_hash, h) {
            out.push(g);
        }
        i = i + 1;
    }
    assert(groups@.subrange(0, groups@.len() as int) =~= groups@);
    out
}

/// The rows of one group, in file order.
pub open spec fn members_of(files: Seq<FileRecord>, group: i64) -> Seq<FileRecord> {
    files.filter(member_pred(group))
}

pub open spec fn member_pred(group: i64) -> spec_fn(FileRecord) -> bool {
    |r: FileRecord| r.group_id == Some(group)
}

/// The rows whose `group_id` is `group`.
pub fn group_members(files: &Vec<FileRecord>, group: i64) -> (r: Vec<FileRecord>)
    ensures
        r@ == members_of(files@, group),
{
    let mut out: Vec<FileRecord> = Vec::new();
    let mut i: usize = 0;
    while i < files.len()
        invariant
            i <= files@.len(),
            out@ == members_of(files@.subrange(0, i as int), group),
        decreases files@.len() - i,
    {
        let ghost pre = files@.subrange(0, i as int);
        proof {
            let nxt = files@.subrange(0, i + 1);
            pre.lemma_filter_push(files@[i as int], member_pred(group));
            assert(nxt =~= pre.push(files@[i as int]));
        }
        if files[i].group_id == Some(group) {
            out.push(files[i].clone());
        }
        i = i + 1;
    }
    assert(files@.subrange(0, files@.len() as int) =~= files@);
    out
}

/// The row with key `key`.
pub open spec fn row_by_key(files: Seq<FileRecord>, key: FileKey) -> Option<FileRecord> {
    let k = key_index(files, key);
    if k >= 0 {
        Some(files[k])
    } else {
        None
    }
}

/// The row with key `key`, if any.
pub fn find_by_key(files: &Vec<FileRecord>, key: &FileKey) -> (r: Option<FileRecord>)
    ensures
        r == row_by_key(files@, *key),
{
    proof {
        lemma_key_index(files@, *key);
    }
    match find_key(files, key) {
        Some(k) => Some(files[k].clone()),
        None => None,
    }
}

/// The row is neither `missing` nor `gone`.
pub open spec fn is_live(r: FileRecord) -> bool {
    !(r.state == State::Missing || r.state == State::Gone)
}

/// Index of the first row at `loc` that satisfies `live` (when `live_only`),
/// searching from `i`; -1 when there is none.
pub open spec fn loc_index_from(files: Seq<FileRecord>, loc: FileLoc, live_only: bool, i: int) -> int
    decreases files.len() - i,
{
    if i < 0 || i >= files.len() {
        -1
    } else if files[i].loc@ == loc@ && (!live_only || is_live(files[i])) {
        i
    } else {
        loc_index_from(files, loc, live_only, i + 1)
    }
}

proof fn lemma_loc_index_from(files: Seq<FileRecord>, loc: FileLoc, live_only: bool, i: int)
    requires
        0 <= i <= files.len(),
    ensures
        -1 <= loc_index_from(files, loc, live_only, i) < files.len(),
        loc_index_from(files, loc, live_only, i) >= 0 ==> i <= loc_index_from(files, loc, live_only, i),
    decreases files.len() - i,
{
    if i < files.len() {
        lemma_loc_index_from(files, loc, live_only, i + 1);
    }
}

/// The row at `loc`: after a rename over an existing file two rows may share
/// a path, so a row neither `missing` nor `gone` wins, then the smallest id
/// (rows are kept in id order).
pub open spec fn row_by_path(files: Seq<FileRecord>, loc: FileLoc) -> Option<FileRecord> {
    let a = loc_index_from(files, loc, true, 0);
    let b = loc_index_from(files, loc, false, 0);
    if a >= 0 {
        Some(files[a])
    } else if b >= 0 {
        Some(files[b])
    } else {
        None
    }
}

fn loc_index(files: &Vec<FileRecord>, loc: &FileLoc, live_only: bool) -> (r: Option<usize>)
    ensures
        match r {
            Some(i) => i == loc_index_from(files@, *loc, live_only, 0),
            None => loc_index_from(files@, *loc, live_only, 0) == -1,
        },
{
    let mut i: usize = 0;
    while i < files.len()
        invariant
            i <= files@.len(),
            loc_index_from(files@, *loc, live_only, 0) == loc_index_from(files@, *loc, live_only, i as int),
        decreases files@.len() - i,
    {
        let f = &files[i];
        let live = !(f.state == State::Missing || f.state == State::Gone);
        if f.loc.same_as(loc) && (!live_only || live) {
            return Some(i);
        }
        i = i + 1;
    }
    None
}

/// The row at a location; a live row wins over a `missing`/`gone` one.
pub fn find_by_path(files: &Vec<FileRecord>, loc: &FileLoc) -> (r: Option<FileRecord>)
    ensures
        r == row_by_path(files@, *loc),
{
    proof {
        lemma_loc_index_from(files@, *loc, true, 0);
        lemma_loc_index_from(files@, *loc, false, 0);
    }
    match loc_index(files, loc, true) {
        Some(i) => Some(files[i].clone()),
        None => match loc_index(files, loc, false) {
            Some(i) => Some(files[i].clone()),
            None => None,
        },
    }
}

/// The group with id `id`.
pub open spec fn group_by_id(groups: Seq<Group>, id: i64) -> Option<Group> {
    let k = group_index(groups, id);
    if k >= 0 {
        Some(groups[k])
    } else {
        None
    }
}

/// The group with id `id`, if any.
pub fn group_get(groups: &Vec<Group>, id: i64) -> (r: Option<Group>)
    ensures
        r == group_by_id(groups@, id),
{
    proof {
        lemma_group_index(groups@, id);
    }
    match find_group(groups, id) {
        Some(k) => Some(groups[k]),
        None => None,
    }
}

/// A copy of the volumes.
pub fn copy_volumes(v: &Vec<Volume>) -> (r: Vec<Volume>)
    ensures
        r@ == v@,
{
    let mut out: Vec<Volume> = Vec::new();
    let mut i: usize = 0;
    while i < v.len()
        invariant
            i <= v@.len(),
            out@ == v@.subrange(0, i as int),
        decreases v@.len() - i,
    {
        out.push(v[i].clone());
        assert(out@ =~= v@.subrange(0, i + 1));
        i = i + 1;
    }
    assert(v@.subrange(0, v@.len() as int) =~= v@);
    out
}

/// A copy of the roots.
pub fn copy_roots(v: &Vec<Root>) -> (r: Vec<Root>)
    ensures
        r@ == v@,
{
    let mut out: Vec<Root> = Vec::new();
    let mut i: usize = 0;
    while i < v.len()
        invariant
            i <= v@.len(),
            out@ == v@.subrange(0, i as int),
        decreases v@.len() - i,
    {
        out.push(v[i].clone());
        assert(out@ =~= v@.subrange(0, i + 1));
        i = i + 1;
    }
    assert(v@.subrange(0, v@.len() as int) =~= v@);
    out
}

/// A copy of the rows.
pub fn copy_files(v: &Vec<FileRecord>) -> (r: Vec<FileRecord>)
    ensures
        r@ == v@,
{
    let mut out: Vec<FileRecord> = Vec::new();
    let mut i: usize = 0;
    while i < v.len()
        invariant
            i <= v@.len(),
            out@ == v@.subrange(0, i as int),
        decreases v@.len() - i,
    {
        out.push(v[i].clone());
        assert(out@ =~= v@.subrange(0, i + 1));
        i = i + 1;
    }
    assert(v@.subrange(0, v@.len() as int) =~= v@);
    out
}

} // verus!

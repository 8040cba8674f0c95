//! Names of temporary files written by sync tools, browsers and office
//! suites. A `.part` file is being written: hashing it is wasted work, and the
//! settle delay could pass while the tool pauses, making it look stable.

use vstd::prelude::*;

use crate::text::{ascii_lower, chars_of, ends_with, is_alnum, is_digit, lower_char, lower_seq, starts_with};

verus! {

fn starts_with_lit(v: &Vec<char>, lit: &str) -> (r: bool)
    ensures
        r == starts_with(v@, lit@),
{
    let p = chars_of(lit);
    if p.len() > v.len() {
        return false;
    }
    let mut i: usize = 0;
    while i < p.len()
        invariant
            p@ == lit@,
            p@.len() <= v@.len(),
            i <= p@.len(),
            forall|k: int| 0 <= k < i ==> v@[k] == p@[k],
        decreases p@.len() - i,
    {
        if v[i] != p[i] {
            assert(v@.subrange(0, p@.len() as int)[i as int] != p@[i as int]);
            return false;
        }
        i = i + 1;
    }
    assert(v@.subrange(0, p@.len() as int) =~= p@);
    true
}

fn ends_with_lit(v: &Vec<char>, lit: &str) -> (r: bool)
    ensures
        r == ends_with(v@, lit@),
{
    let p = chars_of(lit);
    if p.len() > v.len() {
        return false;
    }
    let off = v.len() - p.len();
    let mut i: usize = 0;
    while i < p.len()
        invariant
            p@ == lit@,
            p@.len() <= v@.len(),
            off == v@.len() - p@.len(),
            v.len() == off + p.len(),
            i <= p@.len(),
            forall|k: int| 0 <= k < i ==> v@[off + k] == p@[k],
        decreases p@.len() - i,
    {
        if v[off + i] != p[i] {
            assert(v@.subrange(off as int, v@.len() as int)[i as int] != p@[i as int]);
            return false;
        }
        i = i + 1;
    }
    assert(v@.subrange(off as int, v@.len() as int) =~= p@);
    true
}

/// Index of the last `.` in `s` before `i`, or -1.
pub open spec fn last_dot_before(s: Seq<char>, i: int) -> int
    decreases i,
{
    if i <= 0 || i > s.len() {
        -1
    } else if s[i - 1] == '.' {
        i - 1
    } else {
        last_dot_before(s, i - 1)
    }
}

/// `^\..*\.[A-Za-z0-9]{6}$`: the temporary file of rsync, `.<name>.XXXXXX`,
/// the last dot coming after the leading one.
pub open spec fn rsync_spec(n: Seq<char>) -> bool {
    let rest = n.drop_first();
    let k = last_dot_before(rest, rest.len() as int);
    &&& n.len() > 0
    &&& n[0] == '.'
    &&& k >= 0
    &&& rest.len() - (k + 1) == 6
    &&& forall|j: int| k + 1 <= j < rest.len() ==> is_alnum(#[trigger] rest[j])
}

pub fn rsync(name: &str) -> (r: bool)
    ensures
        r == rsync_spec(name@),
{
    let v = chars_of(name);
    if v.len() == 0 || v[0] != '.' {
        return false;
    }
    let ghost rest = v@.drop_first();
    let mut i: usize = v.len();
    while i > 1 && v[i - 1] != '.'
        invariant
            1 <= i <= v@.len(),
            v@ == name@,
            rest == v@.drop_first(),
            last_dot_before(rest, rest.len() as int) == last_dot_before(rest, i - 1),
        decreases i,
    {
        i = i - 1;
    }
    if i <= 1 {
        return false;
    }
    assert(rest[i - 2] == '.');
    assert(last_dot_before(rest, i - 1) == i - 2);
    if v.len() - i != 6 {
        return false;
    }
    let mut j: usize = i;
    while j < v.len()
        invariant
            2 <= i <= j <= v@.len(),
            v@ == name@,
            v@.len() - i == 6,
            rest == v@.drop_first(),
            last_dot_before(rest, rest.len() as int) == i - 2,
            forall|q: int| i - 1 <= q < j - 1 ==> is_alnum(#[trigger] rest[q]),
        decreases v@.len() - j,
    {
        let c = v[j];
        if !(('0' <= c && c <= '9') || ('a' <= c && c <= 'z') || ('A' <= c && c <= 'Z')) {
            assert(rest[j - 1] == c);
            return false;
        }
        assert(rest[j - 1] == c);
        j = j + 1;
    }
    true
}

/// Index where the run of digits that ends `t` starts.
pub open spec fn digit_run_start(t: Seq<char>, i: int) -> int
    decreases i,
{
    if i <= 0 || i > t.len() {
        if i > t.len() {
            t.len() as int
        } else {
            0
        }
    } else if is_digit(t[i - 1]) {
        digit_run_start(t, i - 1)
    } else {
        i
    }
}

/// `\.ocTransferId\d+\.part$`: Nextcloud and ownCloud. The name ends with
/// `.part`, and what precedes it ends with `.ocTransferId` and at least one digit.
pub open spec fn oc_transfer_spec(n: Seq<char>) -> bool {
    let t = n.subrange(0, n.len() - 5);
    let k = digit_run_start(t, t.len() as int);
    &&& ends_with(n, ".part"@)
    &&& k < t.len()
    &&& k >= 13
    &&& t.subrange(k - 13, k) == ".ocTransferId"@
}

pub fn oc_transfer(name: &str) -> (r: bool)
    ensures
        r == oc_transfer_spec(name@),
{
    let v = chars_of(name);
    if !ends_with_lit(&v, ".part") {
        return false;
    }
    proof {
        reveal_strlit(".part");
    }
    let tl = v.len() - 5;
    let ghost t = v@.subrange(0, tl as int);
    let mut k: usize = tl;
    while k > 0 && '0' <= v[k - 1] && v[k - 1] <= '9'
        invariant
            k <= tl,
            tl <= v@.len(),
            v@ == name@,
            tl == v@.len() - 5,
            t == v@.subrange(0, tl as int),
            digit_run_start(t, t.len() as int) == digit_run_start(t, k as int),
        decreases k,
    {
        assert(t[k - 1] == v@[k - 1]);
        k = k - 1;
    }
    proof {
        if k > 0 {
            assert(t[k - 1] == v@[k - 1]);
        }
        assert(digit_run_start(t, k as int) == k);
    }
    assert(t.len() == tl);
    if k >= tl || k < 13 {
        return false;
    }
    let marker = chars_of(".ocTransferId");
    proof {
        reveal_strlit(".ocTransferId");
    }
    let mut i: usize = 0;
    while i < 13
        invariant
            marker@ == ".ocTransferId"@,
            marker@.len() == 13,
            13 <= k < tl <= v@.len(),
            v@ == name@,
            tl == v@.len() - 5,
            ends_with(v@, ".part"@),
            k == digit_run_start(t, t.len() as int),
            t == v@.subrange(0, tl as int),
            i <= 13,
            forall|q: int| 0 <= q < i ==> t.subrange(k - 13, k as int)[q] == marker@[q],
        decreases 13 - i,
    {
        if v[k - 13 + i] != marker[i] {
            assert(t.subrange(k - 13, k as int)[i as int] == v@[k - 13 + i]);
            return false;
        }
        assert(t.subrange(k - 13, k as int)[i as int] == v@[k - 13 + i]);
        i = i + 1;
    }
    assert(t.subrange(k - 13, k as int) =~= ".ocTransferId"@);
    true
}

/// `\.(part|crdownload|filepart|partial|download|tmp)$`, ignoring ASCII case.
pub open spec fn hau_to_tam_spec(n: Seq<char>) -> bool {
    let l = lower_seq(n);
    ends_with(l, ".part"@) || ends_with(l, ".crdownload"@) || ends_with(l, ".filepart"@)
        || ends_with(l, ".partial"@) || ends_with(l, ".download"@) || ends_with(l, ".tmp"@)
}

pub fn hau_to_tam(name: &str) -> (r: bool)
    ensures
        r == hau_to_tam_spec(name@),
{
    let v = chars_of(name);
    let mut l: Vec<char> = Vec::new();
    let mut i: usize = 0;
    while i < v.len()
        invariant
            i <= v@.len(),
            v@ == name@,
            l@ == lower_seq(v@.subrange(0, i as int)),
        decreases v@.len() - i,
    {
        l.push(lower_char(v[i]));
        assert(lower_seq(v@.subrange(0, i + 1)) =~= lower_seq(v@.subrange(0, i as int)).push(
            ascii_lower(v@[i as int]),
        ));
        i = i + 1;
    }
    assert(v@.subrange(0, v@.len() as int) =~= v@);
    ends_with_lit(&l, ".part") || ends_with_lit(&l, ".crdownload") || ends_with_lit(
        &l,
        ".filepart",
    ) || ends_with_lit(&l, ".partial") || ends_with_lit(&l, ".download") || ends_with_lit(
        &l,
        ".tmp",
    )
}

/// `^\.syncthing\..*\.tmp$`.
pub fn syncthing(name: &str) -> (r: bool)
    ensures
        r == (starts_with(name@, ".syncthing."@) && ends_with(name@, ".tmp"@)),
{
    let v = chars_of(name);
    starts_with_lit(&v, ".syncthing.") && ends_with_lit(&v, ".tmp")
}

/// `^\._`: AppleDouble metadata of macOS, never a real video.
pub fn macos_resource(name: &str) -> (r: bool)
    ensures
        r == starts_with(name@, "._"@),
{
    let v = chars_of(name);
    starts_with_lit(&v, "._")
}

/// `^~\$`: the lock file of Microsoft Office.
pub fn office_lock(name: &str) -> (r: bool)
    ensures
        r == starts_with(name@, "~$"@),
{
    let v = chars_of(name);
    starts_with_lit(&v, "~$")
}

/// `^\.nasdedup-.*\.tmp$`: the probe file of the daemon itself.
pub fn nasdedup(name: &str) -> (r: bool)
    ensures
        r == (starts_with(name@, ".nasdedup-"@) && ends_with(name@, ".tmp"@)),
{
    let v = chars_of(name);
    starts_with_lit(&v, ".nasdedup-") && ends_with_lit(&v, ".tmp")
}

/// A temporary file name, by any of the seven rules; `name` is the file's own
/// name, not a path.
pub open spec fn temp_name(n: Seq<char>) -> bool {
    rsync_spec(n) || oc_transfer_spec(n) || hau_to_tam_spec(n) || (starts_with(n, ".syncthing."@)
        && ends_with(n, ".tmp"@)) || starts_with(n, "._"@) || starts_with(n, "~$"@) || (
    starts_with(n, ".nasdedup-"@) && ends_with(n, ".tmp"@))
}

pub fn la_ten_tam(name: &str) -> (r: bool)
    ensures
        r == temp_name(name@),
{
    rsync(name) || oc_transfer(name) || hau_to_tam(name) || syncthing(name) || macos_resource(
        name,
    ) || office_lock(name) || nasdedup(name)
}

} // verus!

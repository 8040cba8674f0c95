//! Paths as `/`-separated character sequences, compared component by component
//! (the way `std::path::Path` compares them), independent of the host OS.

use vstd::prelude::*;

use crate::text::chars_of;

verus! {

/// A component that never counts: the empty one (repeated or trailing `/`) and
/// `.` after the first position.
pub open spec fn keep_segment(cur: Seq<char>, first: bool) -> bool {
    cur.len() > 0 && (first || cur != seq!['.'])
}

pub open spec fn flush(acc: Seq<Seq<char>>, cur: Seq<char>, first: bool) -> Seq<Seq<char>> {
    if keep_segment(cur, first) {
        acc.push(cur)
    } else {
        acc
    }
}

/// Components of `s[i..]`, given the component `cur` being read, the finished
/// ones `acc`, and whether `cur` started at the very beginning of the path.
pub open spec fn comps_from(
    s: Seq<char>,
    i: int,
    cur: Seq<char>,
    acc: Seq<Seq<char>>,
    first: bool,
) -> Seq<Seq<char>>
    decreases s.len() - i,
{
    if i >= s.len() || i < 0 {
        flush(acc, cur, first)
    } else if s[i] == '/' {
        comps_from(s, i + 1, Seq::empty(), flush(acc, cur, first), false)
    } else {
        comps_from(s, i + 1, cur.push(s[i]), acc, first)
    }
}

/// The components of a path: a leading `/` is the root component `"/"`, empty
/// components are dropped, and `.` is dropped except at the very beginning.
pub open spec fn components(s: Seq<char>) -> Seq<Seq<char>> {
    if s.len() > 0 && s[0] == '/' {
        comps_from(s, 1, Seq::empty(), seq![seq!['/']], false)
    } else {
        comps_from(s, 0, Seq::empty(), Seq::empty(), true)
    }
}

/// The characters of each component.
pub open spec fn comp_views(v: Seq<Vec<char>>) -> Seq<Seq<char>> {
    v.map_values(|c: Vec<char>| c@)
}

/// The components of `s`.
pub fn components_of(s: &str) -> (r: Vec<Vec<char>>)
    ensures
        comp_views(r@) == components(s@),
{
    let cs = chars_of(s);
    let n = cs.len();
    let mut acc: Vec<Vec<char>> = Vec::new();
    let mut cur: Vec<char> = Vec::new();
    let mut i: usize = 0;
    let mut first = true;
    if n > 0 && cs[0] == '/' {
        let mut root: Vec<char> = Vec::new();
        root.push('/');
        acc.push(root);
        i = 1;
        first = false;
        assert(comp_views(acc@) =~= seq![seq!['/']]);
    } else {
        assert(comp_views(acc@) =~= Seq::<Seq<char>>::empty());
    }
    assert(cur@ =~= Seq::<char>::empty());
    while i < n
        invariant
            cs@ == s@,
            n == cs@.len(),
            i <= n,
            components(s@) == comps_from(
                s@,
                i as int,
                cur@,
                comp_views(acc@),
                first,
            ),
        decreases n - i,
    {
        let c = cs[i];
        if c == '/' {
            let keep = cur.len() > 0 && (first || !(cur.len() == 1 && cur[0] == '.'));
            proof {
                if cur@.len() == 1 && cur@[0] == '.' {
                    assert(cur@ =~= seq!['.']);
                }
                if cur@ == seq!['.'] {
                    assert(cur@.len() == 1 && cur@[0] == '.');
                }
            }
            let ghost old_acc = comp_views(acc@);
            if keep {
                let done = cur;
                acc.push(done);
                assert(comp_views(acc@) =~= old_acc.push(done@));
            }
            cur = Vec::new();
            assert(cur@ =~= Seq::<char>::empty());
            first = false;
        } else {
            cur.push(c);
        }
        i = i + 1;
    }
    let keep = cur.len() > 0 && (first || !(cur.len() == 1 && cur[0] == '.'));
    proof {
        if cur@.len() == 1 && cur@[0] == '.' {
            assert(cur@ =~= seq!['.']);
        }
        if cur@ == seq!['.'] {
            assert(cur@.len() == 1 && cur@[0] == '.');
        }
    }
    let ghost old_acc = comp_views(acc@);
    if keep {
        acc.push(cur);
        assert(comp_views(acc@) =~= old_acc.push(cur@));
    }
    acc
}

/// `a` is a prefix of `b`.
pub open spec fn comps_prefix(a: Seq<Seq<char>>, b: Seq<Seq<char>>) -> bool {
    a.len() <= b.len() && b.subrange(0, a.len() as int) == a
}

/// `Path::starts_with`: the components of `base` are a prefix of those of `p`.
pub open spec fn path_starts_with(p: Seq<char>, base: Seq<char>) -> bool {
    comps_prefix(components(base), components(p))
}

pub fn vecs_eq(a: &Vec<char>, b: &Vec<char>) -> (r: bool)
    ensures
        r == (a@ == b@),
{
    crate::text::seq_eq(a, b)
}

fn comps_prefix_exec(a: &Vec<Vec<char>>, b: &Vec<Vec<char>>) -> (r: bool)
    ensures
        r == comps_prefix(comp_views(a@), comp_views(b@)),
{
    let ghost av = comp_views(a@);
    let ghost bv = comp_views(b@);
    if a.len() > b.len() {
        return false;
    }
    let mut i: usize = 0;
    while i < a.len()
        invariant
            a.len() <= b.len(),
            i <= a.len(),
            av == comp_views(a@),
            bv == comp_views(b@),
            forall|j: int| 0 <= j < i ==> av[j] == bv[j],
        decreases a.len() - i,
    {
        if !vecs_eq(&a[i], &b[i]) {
            assert(bv.subrange(0, av.len() as int)[i as int] != av[i as int]);
            return false;
        }
        i = i + 1;
    }
    assert(bv.subrange(0, av.len() as int) =~= av);
    true
}

/// `Path::starts_with` on `/`-separated paths.
pub fn starts_with_path(p: &str, base: &str) -> (r: bool)
    ensures
        r == path_starts_with(p@, base@),
{
    let a = components_of(base);
    let b = components_of(p);
    comps_prefix_exec(&a, &b)
}

/// Three-way lexicographic comparison of characters: -1, 0 or 1.
pub open spec fn order_chars(a: Seq<char>, b: Seq<char>) -> int
    decreases a.len(),
{
    if a.len() == 0 {
        if b.len() == 0 {
            0
        } else {
            -1
        }
    } else if b.len() == 0 {
        1
    } else if a[0] < b[0] {
        -1
    } else if a[0] > b[0] {
        1
    } else {
        order_chars(a.drop_first(), b.drop_first())
    }
}

/// Rank of a component as `std::path::Component` orders its variants: the
/// root, then `.`, then `..`, then ordinary names.
pub open spec fn comp_rank(c: Seq<char>) -> int {
    if c == seq!['/'] {
        1
    } else if c == seq!['.'] {
        2
    } else if c == seq!['.', '.'] {
        3
    } else {
        4
    }
}

/// Three-way comparison of two components: by rank, then names by characters.
pub open spec fn order_comp(a: Seq<char>, b: Seq<char>) -> int {
    if comp_rank(a) < comp_rank(b) {
        -1
    } else if comp_rank(a) > comp_rank(b) {
        1
    } else if comp_rank(a) == 4 {
        order_chars(a, b)
    } else {
        0
    }
}

/// Three-way lexicographic comparison of component lists: -1, 0 or 1.
pub open spec fn order_comps(a: Seq<Seq<char>>, b: Seq<Seq<char>>) -> int
    decreases a.len(),
{
    if a.len() == 0 {
        if b.len() == 0 {
            0
        } else {
            -1
        }
    } else if b.len() == 0 {
        1
    } else if order_comp(a[0], b[0]) != 0 {
        order_comp(a[0], b[0])
    } else {
        order_comps(a.drop_first(), b.drop_first())
    }
}

proof fn lemma_order_chars_step(a: Seq<char>, b: Seq<char>, i: int)
    requires
        0 <= i <= a.len(),
        i <= b.len(),
        a.subrange(0, i) == b.subrange(0, i),
    ensures
        order_chars(a, b) == order_chars(a.subrange(i, a.len() as int), b.subrange(i, b.len() as int)),
    decreases i,
{
    if i > 0 {
        assert(a[0] == a.subrange(0, i)[0]);
        assert(b[0] == b.subrange(0, i)[0]);
        let a1 = a.drop_first();
        let b1 = b.drop_first();
        assert(a1.subrange(0, i - 1) =~= a.subrange(1, i));
        assert(b1.subrange(0, i - 1) =~= b.subrange(1, i));
        assert(a.subrange(1, i) =~= a.subrange(0, i).drop_first());
        assert(b.subrange(1, i) =~= b.subrange(0, i).drop_first());
        lemma_order_chars_step(a1, b1, i - 1);
        assert(a1.subrange(i - 1, a1.len() as int) =~= a.subrange(i, a.len() as int));
        assert(b1.subrange(i - 1, b1.len() as int) =~= b.subrange(i, b.len() as int));
    } else {
        assert(a.subrange(0, a.len() as int) =~= a);
        assert(b.subrange(0, b.len() as int) =~= b);
    }
}

pub fn order_char_vecs(a: &Vec<char>, b: &Vec<char>) -> (r: i8)
    ensures
        r as int == order_chars(a@, b@),
{
    let mut i: usize = 0;
    while i < a.len() && i < b.len()
        invariant
            i <= a.len(),
            i <= b.len(),
            a@.subrange(0, i as int) == b@.subrange(0, i as int),
        decreases a.len() - i,
    {
        if a[i] != b[i] {
            proof {
                lemma_order_chars_step(a@, b@, i as int);
            }
            if a[i] < b[i] {
                return -1;
            } else {
                return 1;
            }
        }
        assert(a@.subrange(0, i + 1) =~= a@.subrange(0, i as int).push(a@[i as int]));
        assert(b@.subrange(0, i + 1) =~= b@.subrange(0, i as int).push(b@[i as int]));
        i = i + 1;
    }
    proof {
        lemma_order_chars_step(a@, b@, i as int);
    }
    if i < a.len() {
        1
    } else if i < b.len() {
        -1
    } else {
        0
    }
}

proof fn lemma_order_comps_step(a: Seq<Seq<char>>, b: Seq<Seq<char>>, i: int)
    requires
        0 <= i <= a.len(),
        i <= b.len(),
        a.subrange(0, i) == b.subrange(0, i),
    ensures
        order_comps(a, b) == order_comps(a.subrange(i, a.len() as int), b.subrange(i, b.len() as int)),
    decreases i,
{
    if i > 0 {
        assert(a[0] == a.subrange(0, i)[0]);
        assert(b[0] == b.subrange(0, i)[0]);
        lemma_order_comp_zero_eq(a[0], a[0]);
        let a1 = a.drop_first();
        let b1 = b.drop_first();
        assert(a1.subrange(0, i - 1) =~= a.subrange(1, i));
        assert(b1.subrange(0, i - 1) =~= b.subrange(1, i));
        assert(a.subrange(1, i) =~= a.subrange(0, i).drop_first());
        assert(b.subrange(1, i) =~= b.subrange(0, i).drop_first());
        lemma_order_comps_step(a1, b1, i - 1);
        assert(a1.subrange(i - 1, a1.len() as int) =~= a.subrange(i, a.len() as int));
        assert(b1.subrange(i - 1, b1.len() as int) =~= b.subrange(i, b.len() as int));
    } else {
        assert(a.subrange(0, a.len() as int) =~= a);
        assert(b.subrange(0, b.len() as int) =~= b);
    }
}

/// Comparing a sequence with itself gives 0.
pub proof fn lemma_order_chars_refl(a: Seq<char>)
    ensures
        order_chars(a, a) == 0,
    decreases a.len(),
{
    if a.len() > 0 {
        lemma_order_chars_refl(a.drop_first());
    }
}

pub fn order_comp_vecs(a: &Vec<Vec<char>>, b: &Vec<Vec<char>>) -> (r: i8)
    ensures
        r as int == order_comps(comp_views(a@), comp_views(b@)),
{
    let ghost av = comp_views(a@);
    let ghost bv = comp_views(b@);
    let mut i: usize = 0;
    while i < a.len() && i < b.len()
        invariant
            i <= a.len(),
            i <= b.len(),
            av == comp_views(a@),
            bv == comp_views(b@),
            av.subrange(0, i as int) == bv.subrange(0, i as int),
        decreases a.len() - i,
    {
        let c = order_comp_vec(&a[i], &b[i]);
        if c != 0 {
            proof {
                lemma_order_comps_step(av, bv, i as int);
                let ra = av.subrange(i as int, av.len() as int);
                let rb = bv.subrange(i as int, bv.len() as int);
                assert(ra[0] == av[i as int]);
                assert(rb[0] == bv[i as int]);
            }
            return c;
        }
        proof {
            lemma_order_comp_zero_eq(a[i as int]@, b[i as int]@);
        }
        assert(av.subrange(0, i + 1) =~= av.subrange(0, i as int).push(av[i as int]));
        assert(bv.subrange(0, i + 1) =~= bv.subrange(0, i as int).push(bv[i as int]));
        i = i + 1;
    }
    proof {
        lemma_order_comps_step(av, bv, i as int);
    }
    if i < a.len() {
        1
    } else if i < b.len() {
        -1
    } else {
        0
    }
}

/// `order_chars` is 0 exactly on equal sequences.
pub proof fn lemma_order_chars_zero_eq(a: Seq<char>, b: Seq<char>)
    ensures
        order_chars(a, b) == 0 <==> a == b,
    decreases a.len(),
{
    if a.len() > 0 && b.len() > 0 {
        lemma_order_chars_zero_eq(a.drop_first(), b.drop_first());
        if a[0] == b[0] && a.drop_first() == b.drop_first() {
            assert(a =~= seq![a[0]] + a.drop_first());
            assert(b =~= seq![b[0]] + b.drop_first());
        }
        if a == b {
            assert(a.drop_first() == b.drop_first());
        }
    } else if a.len() == 0 && b.len() == 0 {
        assert(a =~= b);
    }
}

/// Swapping the arguments negates the comparison.
pub proof fn lemma_order_chars_antisym(a: Seq<char>, b: Seq<char>)
    ensures
        order_chars(a, b) == -order_chars(b, a),
        -1 <= order_chars(a, b) <= 1,
    decreases a.len(),
{
    if a.len() > 0 && b.len() > 0 {
        lemma_order_chars_antisym(a.drop_first(), b.drop_first());
    }
}

/// The comparison is transitive.
pub proof fn lemma_order_chars_trans(a: Seq<char>, b: Seq<char>, c: Seq<char>)
    requires
        order_chars(a, b) < 0,
        order_chars(b, c) < 0,
    ensures
        order_chars(a, c) < 0,
    decreases a.len(),
{
    if a.len() > 0 && b.len() > 0 && c.len() > 0 {
        if a[0] == b[0] && b[0] == c[0] {
            lemma_order_chars_trans(a.drop_first(), b.drop_first(), c.drop_first());
        }
    }
}

fn comp_rank_vec(c: &Vec<char>) -> (r: u8)
    ensures
        r as int == comp_rank(c@),
{
    if c.len() == 1 && c[0] == '/' {
        assert(c@ =~= seq!['/']);
        1
    } else if c.len() == 1 && c[0] == '.' {
        assert(c@ =~= seq!['.']);
        2
    } else if c.len() == 2 && c[0] == '.' && c[1] == '.' {
        assert(c@ =~= seq!['.', '.']);
        3
    } else {
        proof {
            if c@ == seq!['/'] || c@ == seq!['.'] {
                assert(c@.len() == 1);
            }
            if c@ == seq!['.', '.'] {
                assert(c@.len() == 2);
            }
        }
        4
    }
}

fn order_comp_vec(a: &Vec<char>, b: &Vec<char>) -> (r: i8)
    ensures
        r as int == order_comp(a@, b@),
{
    let ra = comp_rank_vec(a);
    let rb = comp_rank_vec(b);
    if ra < rb {
        -1
    } else if ra > rb {
        1
    } else if ra == 4 {
        order_char_vecs(a, b)
    } else {
        0
    }
}

/// `order_comp` is 0 exactly on equal components.
pub proof fn lemma_order_comp_zero_eq(a: Seq<char>, b: Seq<char>)
    ensures
        order_comp(a, b) == 0 <==> a == b,
{
    lemma_order_chars_zero_eq(a, b);
}

/// Swapping the arguments negates the comparison of components.
pub proof fn lemma_order_comp_antisym(a: Seq<char>, b: Seq<char>)
    ensures
        order_comp(a, b) == -order_comp(b, a),
        -1 <= order_comp(a, b) <= 1,
{
    lemma_order_chars_antisym(a, b);
}

/// The comparison of components is transitive.
pub proof fn lemma_order_comp_trans(a: Seq<char>, b: Seq<char>, c: Seq<char>)
    requires
        order_comp(a, b) < 0,
        order_comp(b, c) < 0,
    ensures
        order_comp(a, c) < 0,
{
    if comp_rank(a) == 4 && comp_rank(b) == 4 && comp_rank(c) == 4 {
        lemma_order_chars_trans(a, b, c);
    }
}

/// `order_comps` is 0 exactly on equal component lists.
pub proof fn lemma_order_comps_zero_eq(a: Seq<Seq<char>>, b: Seq<Seq<char>>)
    ensures
        order_comps(a, b) == 0 <==> a == b,
    decreases a.len(),
{
    if a.len() > 0 && b.len() > 0 {
        lemma_order_comp_zero_eq(a[0], b[0]);
        lemma_order_comps_zero_eq(a.drop_first(), b.drop_first());
        if a[0] == b[0] && a.drop_first() == b.drop_first() {
            assert(a =~= seq![a[0]] + a.drop_first());
            assert(b =~= seq![b[0]] + b.drop_first());
        }
        if a == b {
            assert(a.drop_first() == b.drop_first());
        }
    } else if a.len() == 0 && b.len() == 0 {
        assert(a =~= b);
    }
}

/// Swapping the arguments negates the comparison of component lists.
pub proof fn lemma_order_comps_antisym(a: Seq<Seq<char>>, b: Seq<Seq<char>>)
    ensures
        order_comps(a, b) == -order_comps(b, a),
        -1 <= order_comps(a, b) <= 1,
    decreases a.len(),
{
    if a.len() > 0 && b.len() > 0 {
        lemma_order_comp_antisym(a[0], b[0]);
        lemma_order_comps_antisym(a.drop_first(), b.drop_first());
    }
}

/// The comparison of component lists is transitive.
pub proof fn lemma_order_comps_trans(a: Seq<Seq<char>>, b: Seq<Seq<char>>, c: Seq<Seq<char>>)
    requires
        order_comps(a, b) < 0,
        order_comps(b, c) < 0,
    ensures
        order_comps(a, c) < 0,
    decreases a.len(),
{
    if a.len() > 0 && b.len() > 0 && c.len() > 0 {
        lemma_order_comp_antisym(a[0], b[0]);
        lemma_order_comp_antisym(b[0], c[0]);
        lemma_order_comp_antisym(a[0], c[0]);
        lemma_order_comp_zero_eq(a[0], b[0]);
        lemma_order_comp_zero_eq(b[0], c[0]);
        if order_comp(a[0], b[0]) < 0 && order_comp(b[0], c[0]) < 0 {
            lemma_order_comp_trans(a[0], b[0], c[0]);
        } else if order_comp(a[0], b[0]) == 0 && order_comp(b[0], c[0]) == 0 {
            lemma_order_comps_trans(a.drop_first(), b.drop_first(), c.drop_first());
        }
    }
}

/// The last component, when it names a file or directory (not the root, `.`
/// or `..`).
pub open spec fn file_name(p: Seq<char>) -> Option<Seq<char>> {
    let c = components(p);
    if c.len() == 0 {
        None
    } else {
        let last = c.last();
        if last == seq!['/'] || last == seq!['.'] || last == seq!['.', '.'] {
            None
        } else {
            Some(last)
        }
    }
}

/// Position of the last `.` in `name`, or -1.
pub open spec fn last_dot(name: Seq<char>, i: int) -> int
    decreases i,
{
    if i <= 0 {
        -1
    } else if name[i - 1] == '.' {
        i - 1
    } else {
        last_dot(name, i - 1)
    }
}

/// `Path::extension`: the text after the last `.` of the file name, unless that
/// `.` is the first character.
pub open spec fn extension(p: Seq<char>) -> Option<Seq<char>> {
    match file_name(p) {
        Some(n) => {
            let d = last_dot(n, n.len() as int);
            if d <= 0 {
                None
            } else {
                Some(n.subrange(d + 1, n.len() as int))
            }
        },
        None => None,
    }
}

proof fn lemma_last_dot(name: Seq<char>, i: int)
    requires
        0 <= i <= name.len(),
    ensures
        -1 <= last_dot(name, i) < i,
        last_dot(name, i) >= 0 ==> name[last_dot(name, i)] == '.',
        forall|k: int| last_dot(name, i) < k < i ==> name[k] != '.',
    decreases i,
{
    if i > 0 && name[i - 1] != '.' {
        lemma_last_dot(name, i - 1);
    }
}

pub fn file_name_of(p: &str) -> (r: Option<Vec<char>>)
    ensures
        match r {
            Some(v) => file_name(p@) == Some(v@),
            None => file_name(p@) is None,
        },
{
    let c = components_of(p);
    let ghost cv = c@.map_values(|x: Vec<char>| x@);
    if c.len() == 0 {
        return None;
    }
    let last = &c[c.len() - 1];
    assert(cv.last() == last@);
    let is_root = last.len() == 1 && last[0] == '/';
    let is_cur = last.len() == 1 && last[0] == '.';
    let is_parent = last.len() == 2 && last[0] == '.' && last[1] == '.';
    proof {
        if is_root {
            assert(last@ =~= seq!['/']);
        }
        if is_cur {
            assert(last@ =~= seq!['.']);
        }
        if is_parent {
            assert(last@ =~= seq!['.', '.']);
        }
        if last@ == seq!['/'] || last@ == seq!['.'] || last@ == seq!['.', '.'] {
            assert(is_root || is_cur || is_parent);
        }
    }
    if is_root || is_cur || is_parent {
        None
    } else {
        Some(last.clone())
    }
}

/// The extension of `p`, without the dot.
pub fn extension_of(p: &str) -> (r: Option<Vec<char>>)
    ensures
        match r {
            Some(v) => extension(p@) == Some(v@),
            None => extension(p@) is None,
        },
{
    let name = match file_name_of(p) {
        Some(n) => n,
        None => {
            return None;
        },
    };
    let n = name.len();
    let mut i: usize = n;
    proof {
        lemma_last_dot(name@, n as int);
    }
    while i > 0 && name[i - 1] != '.'
        invariant
            i <= n,
            n == name@.len(),
            last_dot(name@, n as int) == last_dot(name@, i as int),
        decreases i,
    {
        i = i - 1;
    }
    if i <= 1 {
        return None;
    }
    let d = i - 1;
    let mut out: Vec<char> = Vec::new();
    let mut k: usize = d + 1;
    while k < n
        invariant
            d + 1 <= k <= n,
            n == name@.len(),
            out@ == name@.subrange(d + 1, k as int),
        decreases n - k,
    {
        out.push(name[k]);
        k = k + 1;
    }
    Some(out)
}

/// The directory part of `p`: everything before the last `/` (empty when there
/// is none).
pub open spec fn dir_part(p: Seq<char>) -> Seq<char> {
    let d = last_slash(p, p.len() as int);
    if d < 0 {
        Seq::empty()
    } else {
        p.subrange(0, d)
    }
}

pub open spec fn last_slash(p: Seq<char>, i: int) -> int
    decreases i,
{
    if i <= 0 {
        -1
    } else if p[i - 1] == '/' {
        i - 1
    } else {
        last_slash(p, i - 1)
    }
}

pub proof fn lemma_last_slash_range(p: Seq<char>, i: int)
    requires
        0 <= i <= p.len(),
    ensures
        -1 <= last_slash(p, i) < i,
        last_slash(p, i) >= 0 ==> p[last_slash(p, i)] == '/',
        last_slash(p, i) == -1 <==> forall|k: int| 0 <= k < i ==> p[k] != '/',
    decreases i,
{
    if i > 0 {
        lemma_last_slash_range(p, i - 1);
    }
}

pub fn dir_part_of(p: &str) -> (r: String)
    ensures
        r@ == dir_part(p@),
{
    let cs = chars_of(p);
    let n = cs.len();
    let mut i: usize = n;
    while i > 0 && cs[i - 1] != '/'
        invariant
            i <= n,
            n == cs@.len(),
            cs@ == p@,
            last_slash(p@, n as int) == last_slash(p@, i as int),
        decreases i,
    {
        i = i - 1;
    }
    let mut out = String::new();
    if i == 0 {
        return out;
    }
    let end = i - 1;
    let mut k: usize = 0;
    while k < end
        invariant
            k <= end,
            end < n,
            n == cs@.len(),
            cs@ == p@,
            out@ == p@.subrange(0, k as int),
        decreases end - k,
    {
        crate::text::push_char(&mut out, cs[k]);
        k = k + 1;
    }
    out
}

} // verus!

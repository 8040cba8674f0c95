//! Exclusion presets per NAS operating system.

use vstd::prelude::*;

use crate::text::str_eq;

verus! {

/// Default video extensions.
pub const DEFAULT_VIDEO_EXTENSIONS: [&'static str; 18] = [
    "mp4",
    "mov",
    "m4v",
    "mkv",
    "webm",
    "avi",
    "ts",
    "mts",
    "m2ts",
    "mxf",
    "wmv",
    "mpg",
    "mpeg",
    "vob",
    "3gp",
    "r3d",
    "braw",
    "insv",
];

/// System directories excluded on every NAS, vendor names included: a Synology
/// user who keeps the default `generic` flavor must still skip `@eaDir`, where
/// Synology writes a thumbnail folder for each video. Entries ending in `*` are
/// prefixes (`.Trash-*` matches `.Trash-1000`).
pub const COMMON: [&'static str; 12] = [
    ".snapshots",
    ".zfs",
    ".Trash-*",
    ".nasdedup",
    ".recycle",
    "@eaDir",
    ".@__thumb",
    "#recycle",
    "@Recycle",
    "#snapshot",
    "@Recently-Snapshot",
    "@tmp",
];

pub const SYNOLOGY: [&'static str; 5] = ["@eaDir", "#recycle", "#snapshot", "@tmp", "@sharebin"];

pub const QNAP: [&'static str; 4] = ["@Recycle", ".@__thumb", "@Recently-Snapshot", ".@upload_cache"];

pub const TRUENAS: [&'static str; 3] = [".recycle", ".windows", ".zfs"];

pub const UNRAID: [&'static str; 2] = [".Recycle.Bin", "appdata"];

pub const OMV: [&'static str; 2] = ["aquota.user", "aquota.group"];

/// NAS operating system; decides the `exclude_dirs` preset.
#[derive(Clone, Copy, Debug, Default, PartialEq, Eq, Structural)]
pub enum NasFlavor {
    Synology,
    Qnap,
    Truenas,
    Unraid,
    Omv,
    #[default]
    Generic,
}

pub open spec fn views(s: Seq<&str>) -> Seq<Seq<char>> {
    s.map_values(|x: &str| x@)
}

/// The flavor-specific part of the preset.
pub open spec fn flavor_extra(f: NasFlavor) -> Seq<Seq<char>> {
    match f {
        NasFlavor::Synology => views(SYNOLOGY@),
        NasFlavor::Qnap => views(QNAP@),
        NasFlavor::Truenas => views(TRUENAS@),
        NasFlavor::Unraid => views(UNRAID@),
        NasFlavor::Omv => views(OMV@),
        NasFlavor::Generic => Seq::empty(),
    }
}

/// `a` followed by the items of `b` that are not already present, in order.
pub open spec fn merge_unique(a: Seq<Seq<char>>, b: Seq<Seq<char>>) -> Seq<Seq<char>>
    decreases b.len(),
{
    if b.len() == 0 {
        a
    } else {
        let m = merge_unique(a, b.drop_last());
        if m.contains(b.last()) {
            m
        } else {
            m.push(b.last())
        }
    }
}

/// Merging keeps the first list as a prefix, contains exactly the items of both
/// lists, and adds no duplicate.
pub proof fn lemma_merge_unique(a: Seq<Seq<char>>, b: Seq<Seq<char>>)
    ensures
        merge_unique(a, b).subrange(0, a.len() as int) == a,
        a.len() <= merge_unique(a, b).len(),
        forall|x: Seq<char>| merge_unique(a, b).contains(x) <==> (a.contains(x) || b.contains(x)),
        a.no_duplicates() ==> merge_unique(a, b).no_duplicates(),
    decreases b.len(),
{
    if b.len() > 0 {
        lemma_merge_unique(a, b.drop_last());
        let m = merge_unique(a, b.drop_last());
        assert forall|x: Seq<char>| merge_unique(a, b).contains(x) <==> (a.contains(x)
            || b.contains(x)) by {
            if b.contains(x) && !b.drop_last().contains(x) {
                let k = choose|k: int| 0 <= k < b.len() && b[k] == x;
                if k < b.len() - 1 {
                    assert(b.drop_last()[k] == x);
                }
            }
            if b.drop_last().contains(x) {
                let k = choose|k: int| 0 <= k < b.len() - 1 && b.drop_last()[k] == x;
                assert(b[k] == x);
            }
            if !m.contains(b.last()) && x == b.last() {
                assert(m.push(b.last())[m.len() as int] == x);
            }
            if !m.contains(b.last()) && m.push(b.last()).contains(x) && x != b.last() {
                let k = choose|k: int| 0 <= k < m.len() + 1 && m.push(b.last())[k] == x;
                assert(m[k] == x);
            }
            if !m.contains(b.last()) && m.contains(x) {
                let k = choose|k: int| 0 <= k < m.len() && m[k] == x;
                assert(m.push(b.last())[k] == x);
            }
        }
        if !m.contains(b.last()) {
            assert(m.push(b.last()).subrange(0, a.len() as int) =~= m.subrange(0, a.len() as int));
        }
    }
}

/// Appends the items of `extra` that `out` does not hold yet.
pub fn merge_into(out: &mut Vec<&'static str>, extra: &[&'static str])
    ensures
        views(final(out)@) == merge_unique(views(old(out)@), views(extra@)),
{
    let ghost start = views(out@);
    let mut i: usize = 0;
    while i < extra.len()
        invariant
            i <= extra@.len(),
            views(out@) == merge_unique(start, views(extra@.subrange(0, i as int))),
        decreases extra@.len() - i,
    {
        let d = extra[i];
        let mut found = false;
        let mut k: usize = 0;
        while k < out.len()
            invariant
                k <= out@.len(),
                found == (exists|j: int| 0 <= j < k && out@[j]@ == d@),
            decreases out@.len() - k,
        {
            if !found && str_eq(out[k], d) {
                found = true;
            }
            k = k + 1;
        }
        proof {
            let b = views(extra@.subrange(0, i + 1));
            assert(b.drop_last() =~= views(extra@.subrange(0, i as int)));
            assert(b.last() == d@);
            if found {
                let j = choose|j: int| 0 <= j < out@.len() && out@[j]@ == d@;
                assert(views(out@)[j] == d@);
            }
            if views(out@).contains(d@) {
                let j = choose|j: int| 0 <= j < views(out@).len() && views(out@)[j] == d@;
                assert(out@[j]@ == d@);
            }
        }
        if !found {
            let ghost before = out@;
            out.push(d);
            assert(views(out@) =~= views(before).push(d@));
        }
        i = i + 1;
    }
    assert(extra@.subrange(0, extra@.len() as int) =~= extra@);
}

impl NasFlavor {
    /// Excluded directories: the common part followed by the flavor's own.
    pub fn exclude_dirs(self) -> (r: Vec<&'static str>)
        ensures
            views(r@) == merge_unique(views(COMMON@), flavor_extra(self)),
    {
        let mut out: Vec<&'static str> = Vec::new();
        let mut i: usize = 0;
        while i < 12
            invariant
                i <= 12,
                out@ == COMMON@.subrange(0, i as int),
            decreases 12 - i,
        {
            out.push(COMMON[i]);
            i = i + 1;
        }
        assert(out@ =~= COMMON@);
        match self {
            NasFlavor::Synology => merge_into(&mut out, &SYNOLOGY),
            NasFlavor::Qnap => merge_into(&mut out, &QNAP),
            NasFlavor::Truenas => merge_into(&mut out, &TRUENAS),
            NasFlavor::Unraid => merge_into(&mut out, &UNRAID),
            NasFlavor::Omv => merge_into(&mut out, &OMV),
            NasFlavor::Generic => {},
        }
        out
    }

    pub const ALL: [NasFlavor; 6] = [
        NasFlavor::Synology,
        NasFlavor::Qnap,
        NasFlavor::Truenas,
        NasFlavor::Unraid,
        NasFlavor::Omv,
        NasFlavor::Generic,
    ];
}

} // verus!

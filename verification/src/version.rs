//! Version reconciliation: comparing a locally installed package's version
//! string against a remotely published one, and signalling when the remote
//! one is strictly newer.
//!
//! A version string is compared component-wise, split on `.`. Two numeric
//! components compare as numbers (leading zeros ignored); any other pair
//! compares character by character; a version that is a proper prefix of
//! another is older.

use vstd::prelude::*;

use crate::entry::{PackageEntry, RemoteVersionInfo};

verus! {

/// Splits `s` on `.` from `i` on; the component currently being read began
/// at `start`, `acc` holds the components already read.
pub open spec fn spec_split_from(
    s: Seq<char>,
    start: int,
    i: int,
    acc: Seq<Seq<char>>,
) -> Seq<Seq<char>>
    decreases s.len() - i,
{
    if i < start || start < 0 || i >= s.len() {
        acc.push(s.subrange(start, if i < start { start } else { i }))
    } else if s[i] == '.' {
        spec_split_from(s, i + 1, i + 1, acc.push(s.subrange(start, i)))
    } else {
        spec_split_from(s, start, i + 1, acc)
    }
}

/// The `.`-separated components of a version string.
pub open spec fn spec_components(s: Seq<char>) -> Seq<Seq<char>> {
    spec_split_from(s, 0, 0, Seq::empty())
}

pub open spec fn is_digit(c: char) -> bool {
    48 <= c as int <= 57
}

/// A non-empty all-digit component.
pub open spec fn is_numeric(comp: Seq<char>) -> bool {
    comp.len() > 0 && forall|k: int| 0 <= k < comp.len() ==> is_digit(#[trigger] comp[k])
}

/// The component without its leading zeros.
pub open spec fn spec_strip_zeros(comp: Seq<char>) -> Seq<char>
    decreases comp.len(),
{
    if comp.len() > 0 && comp[0] == '0' {
        spec_strip_zeros(comp.drop_first())
    } else {
        comp
    }
}

/// Character-by-character order: negative, zero or positive as `a` is
/// older, equal or newer; a proper prefix is older.
pub open spec fn spec_cmp_chars(a: Seq<char>, b: Seq<char>) -> int
    decreases a.len(),
{
    if a.len() == 0 && b.len() == 0 {
        0
    } else if a.len() == 0 {
        -1
    } else if b.len() == 0 {
        1
    } else if (a[0] as int) < (b[0] as int) {
        -1
    } else if (a[0] as int) > (b[0] as int) {
        1
    } else {
        spec_cmp_chars(a.drop_first(), b.drop_first())
    }
}

/// One component against another: numbers as numbers, anything else
/// character by character.
pub open spec fn spec_cmp_comp(a: Seq<char>, b: Seq<char>) -> int {
    if is_numeric(a) && is_numeric(b) {
        let sa = spec_strip_zeros(a);
        let sb = spec_strip_zeros(b);
        if sa.len() < sb.len() {
            -1
        } else if sa.len() > sb.len() {
            1
        } else {
            spec_cmp_chars(sa, sb)
        }
    } else {
        spec_cmp_chars(a, b)
    }
}

/// Component lists against each other, left to right; a proper prefix is
/// older.
pub open spec fn spec_cmp_comps(a: Seq<Seq<char>>, b: Seq<Seq<char>>) -> int
    decreases a.len(),
{
    if a.len() == 0 && b.len() == 0 {
        0
    } else if a.len() == 0 {
        -1
    } else if b.len() == 0 {
        1
    } else if spec_cmp_comp(a[0], b[0]) != 0 {
        spec_cmp_comp(a[0], b[0])
    } else {
        spec_cmp_comps(a.drop_first(), b.drop_first())
    }
}

/// Whole version strings against each other.
pub open spec fn spec_cmp_versions(a: Seq<char>, b: Seq<char>) -> int {
    spec_cmp_comps(spec_components(a), spec_components(b))
}

/// Is the `remote` version strictly newer than the `local` one?
pub open spec fn spec_version_newer(remote: Seq<char>, local: Seq<char>) -> bool {
    spec_cmp_versions(remote, local) > 0
}

fn components(s: &str) -> (r: Vec<String>)
    ensures
        crate::enabled::strs_view(r@) == spec_components(s@),
{
    let n = s.unicode_len();
    let mut start: usize = 0;
    let mut i: usize = 0;
    let mut acc: Vec<String> = Vec::new();
    proof {
        assert(crate::enabled::strs_view(acc@) =~= Seq::<Seq<char>>::empty());
    }
    loop
        invariant
            n == s@.len(),
            0 <= start <= i <= n,
            spec_components(s@) == spec_split_from(
                s@,
                start as int,
                i as int,
                crate::enabled::strs_view(acc@),
            ),
        decreases n - i,
    {
        if i >= n {
            let comp = s.substring_char(start, i).to_owned();
            let ghost old_acc = acc@;
            acc.push(comp);
            proof {
                assert(crate::enabled::strs_view(acc@) =~= crate::enabled::strs_view(
                    old_acc,
                ).push(s@.subrange(start as int, i as int)));
            }
            return acc;
        }
        if s.get_char(i) == '.' {
            let comp = s.substring_char(start, i).to_owned();
            let ghost old_acc = acc@;
            acc.push(comp);
            proof {
                assert(crate::enabled::strs_view(acc@) =~= crate::enabled::strs_view(
                    old_acc,
                ).push(s@.subrange(start as int, i as int)));
            }
            start = i + 1;
        }
        i = i + 1;
    }
}

fn is_numeric_exec(comp: &String) -> (r: bool)
    ensures
        r == is_numeric(comp@),
{
    let s = comp.as_str();
    let n = s.unicode_len();
    if n == 0 {
        return false;
    }
    let mut k: usize = 0;
    while k < n
        invariant
            n == s@.len(),
            s@ == comp@,
            k <= n,
            forall|m: int| 0 <= m < k ==> is_digit(#[trigger] comp@[m]),
        decreases n - k,
    {
        let c = s.get_char(k) as u32;
        if !(48 <= c && c <= 57) {
            return false;
        }
        k = k + 1;
    }
    true
}

fn cmp_chars(a: &str, b: &str, ai: usize, bi: usize) -> (r: i32)
    requires
        ai <= a@.len(),
        bi <= b@.len(),
    ensures
        r == spec_cmp_chars(a@.skip(ai as int), b@.skip(bi as int)),
        -1 <= r <= 1,
{
    let na = a.unicode_len();
    let nb = b.unicode_len();
    let mut i: usize = ai;
    let mut j: usize = bi;
    loop
        invariant
            na == a@.len(),
            nb == b@.len(),
            ai <= i <= na,
            bi <= j <= nb,
            spec_cmp_chars(a@.skip(ai as int), b@.skip(bi as int)) == spec_cmp_chars(
                a@.skip(i as int),
                b@.skip(j as int),
            ),
        decreases na - i,
    {
        proof {
            if i < na {
                assert(a@.skip(i as int)[0] == a@[i as int]);
                assert(a@.skip(i as int).drop_first() =~= a@.skip(i as int + 1));
            }
            if j < nb {
                assert(b@.skip(j as int)[0] == b@[j as int]);
                assert(b@.skip(j as int).drop_first() =~= b@.skip(j as int + 1));
            }
            assert(a@.skip(na as int) =~= Seq::<char>::empty());
            assert(b@.skip(nb as int) =~= Seq::<char>::empty());
        }
        if i >= na && j >= nb {
            return 0;
        }
        if i >= na {
            return -1;
        }
        if j >= nb {
            return 1;
        }
        let ca = a.get_char(i) as u32;
        let cb = b.get_char(j) as u32;
        if ca < cb {
            return -1;
        }
        if ca > cb {
            return 1;
        }
        i = i + 1;
        j = j + 1;
    }
}

fn strip_zeros_start(comp: &str) -> (r: usize)
    ensures
        r <= comp@.len(),
        comp@.skip(r as int) == spec_strip_zeros(comp@),
{
    let n = comp.unicode_len();
    let mut k: usize = 0;
    proof {
        assert(comp@.skip(0) =~= comp@);
    }
    while k < n && comp.get_char(k) == '0'
        invariant
            n == comp@.len(),
            k <= n,
            spec_strip_zeros(comp@) == spec_strip_zeros(comp@.skip(k as int)),
        decreases n - k,
    {
        proof {
            assert(comp@.skip(k as int)[0] == comp@[k as int]);
            assert(comp@.skip(k as int).drop_first() =~= comp@.skip(k as int + 1));
        }
        k = k + 1;
    }
    proof {
        if k < n {
            assert(comp@.skip(k as int)[0] == comp@[k as int]);
        }
    }
    k
}

fn cmp_comp(a: &String, b: &String) -> (r: i32)
    ensures
        r == spec_cmp_comp(a@, b@),
        -1 <= r <= 1,
{
    if is_numeric_exec(a) && is_numeric_exec(b) {
        let sa = strip_zeros_start(a.as_str());
        let sb = strip_zeros_start(b.as_str());
        let la = a.as_str().unicode_len() - sa;
        let lb = b.as_str().unicode_len() - sb;
        proof {
            assert(a@.skip(sa as int).len() == spec_strip_zeros(a@).len());
            assert(b@.skip(sb as int).len() == spec_strip_zeros(b@).len());
        }
        if la < lb {
            -1
        } else if la > lb {
            1
        } else {
            cmp_chars(a.as_str(), b.as_str(), sa, sb)
        }
    } else {
        proof {
            assert(a@.skip(0) =~= a@);
            assert(b@.skip(0) =~= b@);
        }
        cmp_chars(a.as_str(), b.as_str(), 0, 0)
    }
}

/// Compares two version strings: negative, zero or positive as `a` is
/// older, the same or newer than `b`.
pub fn cmp_versions(a: &str, b: &str) -> (r: i32)
    ensures
        r == spec_cmp_versions(a@, b@),
        -1 <= r <= 1,
{
    let ca = components(a);
    let cb = components(b);
    let ghost va = crate::enabled::strs_view(ca@);
    let ghost vb = crate::enabled::strs_view(cb@);
    let mut k: usize = 0;
    proof {
        assert(va.skip(0) =~= va);
        assert(vb.skip(0) =~= vb);
    }
    loop
        invariant
            va == crate::enabled::strs_view(ca@),
            vb == crate::enabled::strs_view(cb@),
            spec_cmp_versions(a@, b@) == spec_cmp_comps(va, vb),
            k <= ca.len(),
            k <= cb.len(),
            spec_cmp_comps(va, vb) == spec_cmp_comps(va.skip(k as int), vb.skip(k as int)),
        decreases ca.len() - k,
    {
        proof {
            if k < ca.len() {
                assert(va.skip(k as int)[0] == ca@[k as int]@);
                assert(va.skip(k as int).drop_first() =~= va.skip(k as int + 1));
            }
            if k < cb.len() {
                assert(vb.skip(k as int)[0] == cb@[k as int]@);
                assert(vb.skip(k as int).drop_first() =~= vb.skip(k as int + 1));
            }
            assert(va.skip(ca.len() as int) =~= Seq::<Seq<char>>::empty());
            assert(vb.skip(cb.len() as int) =~= Seq::<Seq<char>>::empty());
        }
        if k >= ca.len() && k >= cb.len() {
            proof {
                assert(va.skip(k as int) =~= Seq::<Seq<char>>::empty());
                assert(vb.skip(k as int) =~= Seq::<Seq<char>>::empty());
                assert(spec_cmp_comps(va.skip(k as int), vb.skip(k as int)) == 0);
            }
            return 0;
        }
        if k >= ca.len() {
            return -1;
        }
        if k >= cb.len() {
            return 1;
        }
        let c = cmp_comp(&ca[k], &cb[k]);
        if c != 0 {
            return c;
        }
        k = k + 1;
    }
}

/// The reconciler's update-available signal: which package can move from
/// which installed version to which remote one.
pub struct UpdateSignal {
    pub id: String,
    pub local_version: String,
    pub remote_version: String,
}

/// Decides whether remote metadata warrants an update signal for an
/// installed package: one is emitted exactly when the remote version is
/// strictly newer than the local one, and it names the package and both
/// versions.
pub fn reconcile(entry: &PackageEntry, remote: &RemoteVersionInfo) -> (r: Option<UpdateSignal>)
    ensures
        match r {
            Some(sig) => spec_version_newer(remote@, entry.local_version@) && sig.id@ == entry.id@
                && sig.local_version@ == entry.local_version@ && sig.remote_version@ == remote@,
            None => !spec_version_newer(remote@, entry.local_version@),
        },
{
    let c = cmp_versions(remote.version.as_str(), entry.local_version.as_str());
    if c > 0 {
        Some(
            UpdateSignal {
                id: entry.id.clone(),
                local_version: entry.local_version.clone(),
                remote_version: remote.version.clone(),
            },
        )
    } else {
        None
    }
}

} // verus!

//! The nested-root locator: given a directory tree (an extracted archive or
//! a dropped folder), finds the subdirectory that is the true package root —
//! the first one, in traversal order, whose entries include the manifest
//! file. Archives commonly wrap the real package in one or more enclosing
//! folders; this strips them.
//!
//! The tree is handed in as a value: the surrounding application reads the
//! real directory once into a `DirTree` and the search itself is verified.

use vstd::prelude::*;

verus! {

/// A directory tree as the locator sees it: entry names in directory order.
pub enum DirTree {
    File { name: String },
    Dir { name: String, children: Vec<DirTree> },
}

/// The relative path (as segments) of the package root inside the directory
/// with the given children, `Some(seq![])` meaning that directory itself.
/// Entries are taken in order from `k` on: a subdirectory that contains a
/// root anywhere wins as soon as it is reached; a file named
/// `mod_info.json` makes the current directory the root.
pub open spec fn spec_locate_from(children: Seq<DirTree>, k: int) -> Option<Seq<Seq<char>>>
    decreases children, children.len() - k,
{
    if k < 0 || k >= children.len() {
        None
    } else {
        match children[k] {
            DirTree::File { name } => if name@ == "mod_info.json"@ {
                Some(Seq::empty())
            } else {
                spec_locate_from(children, k + 1)
            },
            DirTree::Dir { name, children: sub } => match spec_locate_from(sub@, 0) {
                Some(rest) => Some(seq![name@] + rest),
                None => spec_locate_from(children, k + 1),
            },
        }
    }
}

/// The relative path of the package root inside `search_dir`'s tree, if any.
pub open spec fn spec_locate_root(t: DirTree) -> Option<Seq<Seq<char>>> {
    match t {
        DirTree::File { .. } => None,
        DirTree::Dir { children, .. } => spec_locate_from(children@, 0),
    }
}

/// The segment sequences a path vector stands for.
pub open spec fn segs_view(v: Seq<String>) -> Seq<Seq<char>> {
    Seq::new(v.len(), |k: int| v[k]@)
}

fn locate_from(children: &Vec<DirTree>) -> (r: Option<Vec<String>>)
    ensures
        match r {
            Some(segs) => spec_locate_from(children@, 0) == Some(segs_view(segs@)),
            None => spec_locate_from(children@, 0) is None,
        },
    decreases children,
{
    let n = children.len();
    let mut k: usize = 0;
    while k < n
        invariant
            n == children.len(),
            k <= n,
            spec_locate_from(children@, 0) == spec_locate_from(children@, k as int),
        decreases n - k,
    {
        match &children[k] {
            DirTree::File { name } => {
                let target = String::from_str("mod_info.json");
                let is_manifest = name.eq(&target);
                proof {
                    reveal_strlit("mod_info.json");
                }
                if is_manifest {
                    let segs: Vec<String> = Vec::new();
                    proof {
                        assert(segs_view(segs@) =~= Seq::<Seq<char>>::empty());
                    }
                    return Some(segs);
                }
            },
            DirTree::Dir { name, children: sub } => {
                match locate_from(sub) {
                    Some(rest) => {
                        let mut segs: Vec<String> = Vec::new();
                        segs.push(name.clone());
                        let mut j: usize = 0;
                        while j < rest.len()
                            invariant
                                j <= rest.len(),
                                segs@.len() == j + 1,
                                segs@[0]@ == name@,
                                forall|m: int| 0 <= m < j ==> segs@[m + 1]@ == rest@[m]@,
                            decreases rest.len() - j,
                        {
                            segs.push(rest[j].clone());
                            j = j + 1;
                        }
                        proof {
                            assert(segs_view(segs@) =~= seq![name@] + segs_view(rest@));
                        }
                        return Some(segs);
                    },
                    None => {},
                }
            },
        }
        k = k + 1;
    }
    None
}

/// Finds the package root inside the given tree: the first directory, in
/// traversal order, that directly contains `mod_info.json`, as its path
/// segments relative to the tree's own directory. `None` when the tree holds
/// no recognizable package anywhere.
pub fn locate_root(t: &DirTree) -> (r: Option<Vec<String>>)
    ensures
        match r {
            Some(segs) => spec_locate_root(*t) == Some(segs_view(segs@)),
            None => spec_locate_root(*t) is None,
        },
{
    match t {
        DirTree::File { .. } => None,
        DirTree::Dir { children, .. } => locate_from(children),
    }
}

/// `base` with the given segments appended, `/`-separated.
pub open spec fn spec_join(base: Seq<char>, segs: Seq<Seq<char>>) -> Seq<char>
    decreases segs.len(),
{
    if segs.len() == 0 {
        base
    } else {
        spec_join(base + seq!['/'] + segs[0], segs.drop_first())
    }
}

/// `base` with one segment appended.
pub open spec fn spec_join1(base: Seq<char>, seg: Seq<char>) -> Seq<char> {
    base + seq!['/'] + seg
}

/// Appends one path segment: `base/seg`.
pub fn join1(base: &str, seg: &str) -> (r: String)
    ensures
        r@ == spec_join1(base@, seg@),
{
    let mut out = base.to_owned();
    out.append("/");
    out.append(seg);
    proof {
        reveal_strlit("/");
        assert(out@ =~= spec_join1(base@, seg@));
    }
    out
}

/// Appends all segments: `base/s1/s2/...`.
pub fn join(base: &str, segs: &Vec<String>) -> (r: String)
    ensures
        r@ == spec_join(base@, segs_view(segs@)),
{
    let mut out = base.to_owned();
    let mut k: usize = 0;
    proof {
        assert(segs_view(segs@).skip(0) =~= segs_view(segs@));
    }
    while k < segs.len()
        invariant
            k <= segs.len(),
            spec_join(base@, segs_view(segs@)) == spec_join(
                out@,
                segs_view(segs@).skip(k as int),
            ),
        decreases segs.len() - k,
    {
        let ghost old_out = out@;
        out.append("/");
        out.append(segs[k].as_str());
        proof {
            reveal_strlit("/");
            let rest = segs_view(segs@).skip(k as int);
            assert(rest[0] == segs@[k as int]@);
            assert(rest.drop_first() =~= segs_view(segs@).skip(k as int + 1));
            assert(out@ =~= old_out + seq!['/'] + rest[0]);
            assert(spec_join(old_out, rest) == spec_join(out@, rest.drop_first()));
        }
        k = k + 1;
    }
    proof {
        assert(segs_view(segs@).skip(segs.len() as int) =~= Seq::<Seq<char>>::empty());
    }
    out
}

} // verus!

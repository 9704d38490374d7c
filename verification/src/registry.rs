//! The package registry: an ordered mapping of package id to package entry,
//! owned by the surrounding application. Install tasks read snapshots of its
//! ids; only the task that delivered a terminal success writes back, so the
//! registry is always a possibly stale but never ahead-of reflection of the
//! disk.

use vstd::prelude::*;

use crate::enabled::{strs_view, EnabledMods};
use crate::entry::{EntryView, ModEntryMessage, PackageEntry, RemoteVersionInfo};
use crate::manifest::{parse_manifest, spec_parse_manifest};

verus! {

/// The index of the first entry with the given id, or `-1` when absent.
pub open spec fn spec_find(entries: Seq<EntryView>, id: Seq<char>) -> int
    decreases entries.len(),
{
    if entries.len() == 0 {
        -1
    } else if entries[0].id == id {
        0
    } else {
        let r = spec_find(entries.drop_first(), id);
        if r < 0 {
            -1
        } else {
            r + 1
        }
    }
}

/// What inserting `e` does to the entries: an entry with the same id is
/// replaced wholesale in place; otherwise `e` is appended.
pub open spec fn spec_insert(entries: Seq<EntryView>, e: EntryView) -> Seq<EntryView> {
    let k = spec_find(entries, e.id);
    if k >= 0 {
        entries.update(k, e)
    } else {
        entries.push(e)
    }
}

/// One scanned mod directory: where its manifest sits and what it says.
pub struct ScanItem {
    /// The package root that held the manifest.
    pub path: String,
    /// The manifest file's text.
    pub text: String,
}

impl View for ScanItem {
    type V = (Seq<char>, Seq<char>);

    open spec fn view(&self) -> (Seq<char>, Seq<char>) {
        (self.path@, self.text@)
    }
}

/// The registry a directory scan produces: each manifest that parses becomes
/// an entry rooted at its path, enabled exactly when the enabled set lists
/// its id; manifests that do not parse are passed over; a later duplicate id
/// replaces the earlier entry.
pub open spec fn spec_scan(items: Seq<(Seq<char>, Seq<char>)>, en: Seq<Seq<char>>) -> Seq<
    EntryView,
>
    decreases items.len(),
{
    if items.len() == 0 {
        Seq::empty()
    } else {
        let prev = spec_scan(items.drop_last(), en);
        match spec_parse_manifest(items.last().1, items.last().0) {
            Ok(ev) => spec_insert(prev, EntryView { enabled: en.contains(ev.id), ..ev }),
            Err(_) => prev,
        }
    }
}

/// The registry: entries in insertion order, ids unique.
pub struct ModList {
    pub mods: Vec<PackageEntry>,
}

impl View for ModList {
    type V = Seq<EntryView>;

    open spec fn view(&self) -> Seq<EntryView> {
        Seq::new(self.mods@.len(), |k: int| self.mods@[k]@)
    }
}

impl ModList {
    /// Ids are unique, and at most one entry is highlighted.
    pub open spec fn wf(self) -> bool {
        (forall|i: int, j: int|
            0 <= i < j < self@.len() ==> self@[i].id != self@[j].id) && (forall|i: int, j: int|
            0 <= i < j < self@.len() ==> !(self@[i].highlighted && self@[j].highlighted))
    }

    /// The entry with the given id, when the registry holds one.
    pub open spec fn spec_get(self, id: Seq<char>) -> Option<EntryView> {
        let k = spec_find(self@, id);
        if k >= 0 {
            Some(self@[k])
        } else {
            None
        }
    }

    /// An empty registry.
    pub fn new() -> (r: Self)
        ensures
            r@ == Seq::<EntryView>::empty(),
            r.wf(),
    {
        let r = ModList { mods: Vec::new() };
        proof {
            assert(r@ =~= Seq::<EntryView>::empty());
        }
        r
    }

    /// How many packages are known.
    pub fn len(&self) -> (r: usize)
        ensures
            r == self@.len(),
    {
        self.mods.len()
    }

    /// Looks an id up; the borrowed entry is exactly the one `spec_get`
    /// names.
    pub fn get(&self, id: &String) -> (r: Option<&PackageEntry>)
        ensures
            match r {
                Some(e) => self.spec_get(id@) == Some(e@),
                None => self.spec_get(id@) is None,
            },
    {
        let n = self.mods.len();
        let mut k: usize = 0;
        proof {
            assert(self@.skip(0) =~= self@);
        }
        while k < n
            invariant
                n == self.mods.len(),
                k <= n,
                spec_find(self@, id@) == if spec_find(self@.skip(k as int), id@) < 0 {
                    -1
                } else {
                    spec_find(self@.skip(k as int), id@) + k
                },
            decreases n - k,
        {
            proof {
                assert(self@.skip(k as int)[0] == self@[k as int]);
                assert(self@.skip(k as int).drop_first() =~= self@.skip(k as int + 1));
            }
            if self.mods[k].id.eq(id) {
                return Some(&self.mods[k]);
            }
            k = k + 1;
        }
        proof {
            assert(self@.skip(n as int) =~= Seq::<EntryView>::empty());
        }
        None
    }

    /// The ids of all known packages, in registry order: the snapshot an
    /// install task's conflict detection works against.
    pub fn ids(&self) -> (r: Vec<String>)
        ensures
            strs_view(r@) == Seq::new(self@.len(), |k: int| self@[k].id),
    {
        let n = self.mods.len();
        let mut out: Vec<String> = Vec::new();
        let mut k: usize = 0;
        while k < n
            invariant
                n == self.mods.len(),
                k <= n,
                out@.len() == k,
                forall|m: int| 0 <= m < k ==> out@[m]@ == self@[m].id,
            decreases n - k,
        {
            out.push(self.mods[k].id.clone());
            k = k + 1;
        }
        proof {
            assert(strs_view(out@) =~= Seq::new(self@.len(), |m: int| self@[m].id));
        }
        out
    }

    /// Inserts an entry: an entry with the same id is replaced wholesale,
    /// otherwise the entry is appended. The entry must come in unhighlighted,
    /// as parsing leaves it, so the highlight stays unique.
    pub fn insert(&mut self, entry: PackageEntry)
        requires
            old(self).wf(),
            !entry@.highlighted,
        ensures
            final(self)@ == spec_insert(old(self)@, entry@),
            final(self).wf(),
    {
        let ghost oldv = self@;
        let ghost ev = entry@;
        let n = self.mods.len();
        let mut k: usize = 0;
        proof {
            assert(oldv.skip(0) =~= oldv);
        }
        while k < n
            invariant
                n == self.mods.len(),
                k <= n,
                oldv == self@,
                oldv == old(self)@,
                old(self).wf(),
                ev == entry@,
                !ev.highlighted,
                spec_find(oldv, ev.id) == if spec_find(oldv.skip(k as int), ev.id) < 0 {
                    -1
                } else {
                    spec_find(oldv.skip(k as int), ev.id) + k
                },
                forall|m: int| 0 <= m < k ==> oldv[m].id != ev.id,
            decreases n - k,
        {
            proof {
                assert(oldv.skip(k as int)[0] == oldv[k as int]);
                assert(oldv.skip(k as int).drop_first() =~= oldv.skip(k as int + 1));
            }
            if self.mods[k].id.eq(&entry.id) {
                self.mods.set(k, entry);
                proof {
                    assert(spec_find(oldv, ev.id) == k);
                    assert(self@ =~= oldv.update(k as int, ev));
                }
                return ;
            }
            k = k + 1;
        }
        proof {
            assert(oldv.skip(n as int) =~= Seq::<EntryView>::empty());
            assert(spec_find(oldv, ev.id) == -1);
        }
        self.mods.push(entry);
        proof {
            assert(self@ =~= oldv.push(ev));
        }
    }

    /// Sets an entry's enabled flag in place; whether the id was known comes
    /// back. Nothing else moves.
    pub fn set_enabled(&mut self, id: &String, on: bool) -> (found: bool)
        requires
            old(self).wf(),
        ensures
            final(self).wf(),
            ({
                let k = spec_find(old(self)@, id@);
                if k >= 0 {
                    found && final(self)@ == old(self)@.update(
                        k,
                        EntryView { enabled: on, ..old(self)@[k] },
                    )
                } else {
                    !found && final(self)@ == old(self)@
                }
            }),
    {
        let ghost oldv = self@;
        let n = self.mods.len();
        let mut k: usize = 0;
        proof {
            assert(oldv.skip(0) =~= oldv);
        }
        while k < n
            invariant
                n == self.mods.len(),
                k <= n,
                oldv == self@,
                oldv == old(self)@,
                old(self).wf(),
                spec_find(oldv, id@) == if spec_find(oldv.skip(k as int), id@) < 0 {
                    -1
                } else {
                    spec_find(oldv.skip(k as int), id@) + k
                },
                forall|m: int| 0 <= m < k ==> oldv[m].id != id@,
            decreases n - k,
        {
            proof {
                assert(oldv.skip(k as int)[0] == oldv[k as int]);
                assert(oldv.skip(k as int).drop_first() =~= oldv.skip(k as int + 1));
            }
            if self.mods[k].id.eq(id) {
                let mut e = self.mods[k].clone();
                e.update(ModEntryMessage::ToggleEnabled(on));
                self.mods.set(k, e);
                proof {
                    assert(spec_find(oldv, id@) == k);
                    assert(self@ =~= oldv.update(
                        k as int,
                        EntryView { enabled: on, ..oldv[k as int] },
                    ));
                }
                return true;
            }
            k = k + 1;
        }
        proof {
            assert(oldv.skip(n as int) =~= Seq::<EntryView>::empty());
        }
        false
    }

    /// Sets every entry's enabled flag: the bulk enable-all / disable-all
    /// action.
    pub fn set_all_enabled(&mut self, on: bool)
        requires
            old(self).wf(),
        ensures
            final(self).wf(),
            final(self)@ == Seq::new(
                old(self)@.len(),
                |k: int| EntryView { enabled: on, ..old(self)@[k] },
            ),
    {
        let ghost oldv = self@;
        let n = self.mods.len();
        let mut k: usize = 0;
        while k < n
            invariant
                n == self.mods.len(),
                k <= n,
                oldv == old(self)@,
                old(self).wf(),
                self@.len() == oldv.len(),
                forall|m: int| 0 <= m < k ==> self@[m] == (EntryView { enabled: on, ..oldv[m] }),
                forall|m: int| k <= m < n ==> self@[m] == oldv[m],
            decreases n - k,
        {
            let ghost prev = self@;
            let mut e = self.mods[k].clone();
            e.update(ModEntryMessage::ToggleEnabled(on));
            self.mods.set(k, e);
            proof {
                assert(forall|m: int| 0 <= m < n ==> #[trigger] self@[m] == self.mods@[m]@);
                assert(forall|m: int| 0 <= m < n && m != k ==> #[trigger] self@[m] == prev[m]);
                assert(self@[k as int] == (EntryView { enabled: on, ..oldv[k as int] }));
            }
            k = k + 1;
        }
        proof {
            assert(self@ =~= Seq::new(oldv.len(), |m: int| EntryView { enabled: on, ..oldv[m] }));
        }
    }

    /// Records remotely published version metadata on an entry; whether the
    /// id was known comes back. Nothing else moves.
    pub fn set_remote_version(&mut self, id: &String, info: RemoteVersionInfo) -> (found: bool)
        requires
            old(self).wf(),
        ensures
            final(self).wf(),
            ({
                let k = spec_find(old(self)@, id@);
                if k >= 0 {
                    found && final(self)@ == old(self)@.update(
                        k,
                        EntryView { remote_version: Some(info@), ..old(self)@[k] },
                    )
                } else {
                    !found && final(self)@ == old(self)@
                }
            }),
    {
        let ghost oldv = self@;
        let n = self.mods.len();
        let mut k: usize = 0;
        proof {
            assert(oldv.skip(0) =~= oldv);
        }
        while k < n
            invariant
                n == self.mods.len(),
                k <= n,
                oldv == self@,
                oldv == old(self)@,
                old(self).wf(),
                spec_find(oldv, id@) == if spec_find(oldv.skip(k as int), id@) < 0 {
                    -1
                } else {
                    spec_find(oldv.skip(k as int), id@) + k
                },
                forall|m: int| 0 <= m < k ==> oldv[m].id != id@,
            decreases n - k,
        {
            proof {
                assert(oldv.skip(k as int)[0] == oldv[k as int]);
                assert(oldv.skip(k as int).drop_first() =~= oldv.skip(k as int + 1));
            }
            if self.mods[k].id.eq(id) {
                let mut e = self.mods[k].clone();
                e.remote_version = Some(info);
                self.mods.set(k, e);
                proof {
                    assert(spec_find(oldv, id@) == k);
                    assert(self@ =~= oldv.update(
                        k as int,
                        EntryView { remote_version: Some(info@), ..oldv[k as int] },
                    ));
                }
                return true;
            }
            k = k + 1;
        }
        proof {
            assert(oldv.skip(n as int) =~= Seq::<EntryView>::empty());
        }
        false
    }

    /// Selects the entry with the given id: it alone ends up highlighted,
    /// every other entry is cleared. Nothing else moves.
    pub fn highlight(&mut self, id: &String)
        requires
            old(self).wf(),
        ensures
            final(self).wf(),
            final(self)@ == Seq::new(
                old(self)@.len(),
                |k: int|
                    EntryView {
                        highlighted: old(self)@[k].id == id@,
                        ..old(self)@[k]
                    },
            ),
    {
        let ghost oldv = self@;
        let n = self.mods.len();
        let mut k: usize = 0;
        while k < n
            invariant
                n == self.mods.len(),
                k <= n,
                old(self).wf(),
                oldv == old(self)@,
                self@.len() == oldv.len(),
                forall|m: int|
                    0 <= m < k ==> self@[m] == (EntryView {
                        highlighted: oldv[m].id == id@,
                        ..oldv[m]
                    }),
                forall|m: int| k <= m < n ==> self@[m] == oldv[m],
            decreases n - k,
        {
            let ghost prev = self@;
            let mut e = self.mods[k].clone();
            let is_target = e.id.eq(id);
            if is_target {
                e.update(ModEntryMessage::EntryHighlighted);
            } else {
                e.update(ModEntryMessage::EntryCleared);
            }
            self.mods.set(k, e);
            proof {
                assert(forall|m: int| 0 <= m < n ==> #[trigger] self@[m] == self.mods@[m]@);
                assert(forall|m: int| 0 <= m < n && m != k ==> #[trigger] self@[m] == prev[m]);
                assert(self@[k as int] == (EntryView {
                    highlighted: oldv[k as int].id == id@,
                    ..oldv[k as int]
                }));
            }
            k = k + 1;
        }
        proof {
            assert(self@ =~= Seq::new(
                oldv.len(),
                |m: int| EntryView { highlighted: oldv[m].id == id@, ..oldv[m] },
            ));
        }
    }

    /// The ids of the enabled entries, in registry order: what the enabled
    /// set file is rewritten from.
    pub fn enabled_ids(&self) -> (r: Vec<String>)
        ensures
            strs_view(r@) == self@.filter(|e: EntryView| e.enabled).map(
                |k: int, e: EntryView| e.id,
            ),
    {
        let n = self.mods.len();
        let mut out: Vec<String> = Vec::new();
        let mut k: usize = 0;
        proof {
            assert(self@.take(0) =~= Seq::<EntryView>::empty());
            assert(strs_view(out@) =~= self@.take(0).filter(|e: EntryView| e.enabled).map(
                |m: int, e: EntryView| e.id,
            ));
        }
        while k < n
            invariant
                n == self.mods.len(),
                k <= n,
                strs_view(out@) == self@.take(k as int).filter(|e: EntryView| e.enabled).map(
                    |m: int, e: EntryView| e.id,
                ),
            decreases n - k,
        {
            proof {
                assert(self@.take(k as int + 1).drop_last() =~= self@.take(k as int));
                assert(self@.take(k as int + 1).last() == self@[k as int]);
                reveal(Seq::filter);
            }
            if self.mods[k].enabled {
                let ghost old_out = out@;
                out.push(self.mods[k].id.clone());
                proof {
                    assert(strs_view(out@) =~= strs_view(old_out).push(self@[k as int].id));
                }
            }
            k = k + 1;
        }
        proof {
            assert(self@.take(n as int) =~= self@);
        }
        out
    }

    /// Builds the registry a directory scan yields: each manifest text that
    /// parses becomes an entry rooted at its path, enabled exactly when the
    /// enabled set lists its id; texts that fail to parse are passed over.
    pub fn from_scan(items: &Vec<ScanItem>, en: &EnabledMods) -> (r: ModList)
        ensures
            r@ == spec_scan(Seq::new(items@.len(), |k: int| items@[k]@), en@),
            r.wf(),
    {
        let ghost itemsv = Seq::new(items@.len(), |k: int| items@[k]@);
        let mut reg = ModList::new();
        let mut k: usize = 0;
        proof {
            assert(itemsv.take(0) =~= Seq::<(Seq<char>, Seq<char>)>::empty());
        }
        while k < items.len()
            invariant
                k <= items.len(),
                itemsv == Seq::new(items@.len(), |m: int| items@[m]@),
                reg@ == spec_scan(itemsv.take(k as int), en@),
                reg.wf(),
            decreases items.len() - k,
        {
            proof {
                assert(itemsv.take(k as int + 1).drop_last() =~= itemsv.take(k as int));
                assert(itemsv.take(k as int + 1).last() == items@[k as int]@);
            }
            match parse_manifest(items[k].text.as_str(), items[k].path.as_str()) {
                Ok(mut e) => {
                    let on = en.contains_id(&e.id);
                    e.update(ModEntryMessage::ToggleEnabled(on));
                    reg.insert(e);
                },
                Err(_) => {},
            }
            k = k + 1;
        }
        proof {
            assert(itemsv.take(items.len() as int) =~= itemsv);
        }
        reg
    }
}

} // verus!

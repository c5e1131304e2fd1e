//! Server-side module store: one record per module name, with an
//! optimistic-concurrency guard. An update is accepted only when the
//! incoming record's timestamp is strictly newer than the stored one.

use vstd::prelude::*;
use crate::record::ModuleContent;
use crate::record::ModuleRecordModel;
use crate::record::ModuleReturnUpdate;

verus! {

/// Answer of a store lookup: the stored record, or nothing under that name.
#[derive(Debug, Clone)]
pub enum ModuleReturnRetrieve {
    UPDATED(ModuleContent),
    EMPTY,
}

/// The per-user keyed record store.
#[derive(Debug, Clone)]
pub struct ModuleStore {
    records: Vec<ModuleContent>,
}

impl ModuleStore {
    /// Well-formed: no two stored records share a name.
    pub closed spec fn wf(self) -> bool {
        forall|i: int, j: int|
            0 <= i < j < self.records@.len() ==> self.records@[i]@.name != self.records@[j]@.name
    }

    /// Whether a record is stored under `name`.
    pub closed spec fn spec_contains(self, name: Seq<char>) -> bool {
        exists|j: int| 0 <= j < self.records@.len() && self.records@[j]@.name == name
    }

    /// The record stored under `name` (meaningful only when present).
    pub closed spec fn spec_get(self, name: Seq<char>) -> ModuleRecordModel {
        let j = choose|j: int| 0 <= j < self.records@.len() && self.records@[j]@.name == name;
        self.records@[j]@
    }

    /// An empty store.
    pub fn new() -> (r: Self)
        ensures
            r.wf(),
            forall|n: Seq<char>| !r.spec_contains(n),
    {
        ModuleStore { records: Vec::new() }
    }

    /// Index of the record named `name`, if any.
    fn find(&self, name: &String) -> (r: Option<usize>)
        ensures
            match r {
                Some(i) => i < self.records@.len() && self.records@[i as int]@.name == name@,
                None => !self.spec_contains(name@),
            },
    {
        let mut i: usize = 0;
        while i < self.records.len()
            invariant
                i <= self.records@.len(),
                forall|j: int| 0 <= j < i as int ==> self.records@[j]@.name != name@,
            decreases self.records@.len() - i,
        {
            if self.records[i].name == *name {
                return Some(i);
            }
            i = i + 1;
        }
        None
    }

    /// Store `record` under its own name, unless the stored record is at
    /// least as new: the staleness guard of the synchronization protocol.
    pub fn update(&mut self, record: &ModuleContent) -> (r: ModuleReturnUpdate)
        requires
            old(self).wf(),
        ensures
            final(self).wf(),
            (r == ModuleReturnUpdate::OUTDATED) <==> (old(self).spec_contains(record@.name)
                && old(self).spec_get(record@.name).timestamp >= record@.timestamp),
            r == ModuleReturnUpdate::OUTDATED ==> *final(self) == *old(self),
            r == ModuleReturnUpdate::OK ==> final(self).spec_contains(record@.name) && final(self).spec_get(record@.name) == record@,
            forall|n: Seq<char>|
                n != record@.name ==> (final(self).spec_contains(n) <==> old(self).spec_contains(
                    n,
                )),
            forall|n: Seq<char>|
                n != record@.name && old(self).spec_contains(n) ==> final(self).spec_get(n) == old(self).spec_get(n),
    {
        match self.find(&record.name) {
            Some(i) => {
                proof {
                    assert(old(self).spec_contains(record@.name));
                    let j = choose|j: int|
                        0 <= j < old(self).records@.len() && old(self).records@[j]@.name
                            == record@.name;
                    assert(j == i as int);
                }
                if self.records[i].timestamp >= record.timestamp {
                    ModuleReturnUpdate::OUTDATED
                } else {
                    self.records.set(i, record.duplicate());
                    proof {
                        let rs0 = old(self).records@;
                        let rs1 = final(self).records@;
                        assert(rs0[i as int]@.name == record@.name);
                        assert(rs1[i as int]@.name == record@.name);
                        assert(forall|j: int|
                            0 <= j < rs1.len() && j != i as int ==> rs1[j] == rs0[j]);
                        assert(final(self).wf());
                        assert(final(self).spec_contains(record@.name));
                        let g = choose|g: int| 0 <= g < rs1.len() && rs1[g]@.name == record@.name;
                        assert(g == i as int);
                        assert forall|n: Seq<char>| n != record@.name implies (final(self).spec_contains(n) <==> old(self).spec_contains(n)) by {
                            if old(self).spec_contains(n) {
                                let j = choose|j: int| 0 <= j < rs0.len() && rs0[j]@.name == n;
                                assert(j != i as int);
                                assert(rs1[j]@.name == n);
                            }
                            if final(self).spec_contains(n) {
                                let j = choose|j: int| 0 <= j < rs1.len() && rs1[j]@.name == n;
                                assert(j != i as int);
                                assert(rs0[j]@.name == n);
                            }
                        }
                        assert forall|n: Seq<char>|
                            n != record@.name && old(self).spec_contains(n) implies final(self).spec_get(n) == old(self).spec_get(n) by {
                            let j = choose|j: int| 0 <= j < rs0.len() && rs0[j]@.name == n;
                            assert(j != i as int);
                            assert(rs1[j]@.name == n);
                            let j2 = choose|j2: int| 0 <= j2 < rs1.len() && rs1[j2]@.name == n;
                            assert(j2 == j);
                        }
                    }
                    ModuleReturnUpdate::OK
                }
            },
            None => {
                self.records.push(record.duplicate());
                proof {
                    let rs0 = old(self).records@;
                    let rs1 = final(self).records@;
                    let len = rs0.len() as int;
                    assert(rs1[len]@.name == record@.name);
                    assert(forall|j: int| 0 <= j < len ==> rs1[j] == rs0[j]);
                    assert(forall|j: int| 0 <= j < len ==> rs0[j]@.name != record@.name);
                    assert(final(self).wf());
                    assert(final(self).spec_contains(record@.name));
                    let g = choose|g: int| 0 <= g < rs1.len() && rs1[g]@.name == record@.name;
                    assert(g == len);
                    assert forall|n: Seq<char>| n != record@.name implies (final(self).spec_contains(n) <==> old(self).spec_contains(n)) by {
                        if old(self).spec_contains(n) {
                            let j = choose|j: int| 0 <= j < rs0.len() && rs0[j]@.name == n;
                            assert(rs1[j]@.name == n);
                        }
                        if final(self).spec_contains(n) {
                            let j = choose|j: int| 0 <= j < rs1.len() && rs1[j]@.name == n;
                            assert(j != len);
                            assert(rs0[j]@.name == n);
                        }
                    }
                    assert forall|n: Seq<char>|
                        n != record@.name && old(self).spec_contains(n) implies final(self).spec_get(n) == old(self).spec_get(n) by {
                        let j = choose|j: int| 0 <= j < rs0.len() && rs0[j]@.name == n;
                        assert(rs1[j]@.name == n);
                        let j2 = choose|j2: int| 0 <= j2 < rs1.len() && rs1[j2]@.name == n;
                        assert(j2 == j);
                    }
                }
                ModuleReturnUpdate::OK
            },
        }
    }

    /// Look up the record stored under `name`.
    pub fn retrieve(&self, name: &String) -> (r: ModuleReturnRetrieve)
        requires
            self.wf(),
        ensures
            match r {
                ModuleReturnRetrieve::UPDATED(rec) => self.spec_contains(name@) && rec@
                    == self.spec_get(name@),
                ModuleReturnRetrieve::EMPTY => !self.spec_contains(name@),
            },
    {
        match self.find(name) {
            Some(i) => {
                proof {
                    let j = choose|j: int|
                        0 <= j < self.records@.len() && self.records@[j]@.name == name@;
                    assert(j == i as int);
                }
                ModuleReturnRetrieve::UPDATED(self.records[i].duplicate())
            },
            None => ModuleReturnRetrieve::EMPTY,
        }
    }

    /// Delete the record stored under `name`; say whether one was there.
    pub fn remove(&mut self, name: &String) -> (r: bool)
        requires
            old(self).wf(),
        ensures
            final(self).wf(),
            r == old(self).spec_contains(name@),
            !final(self).spec_contains(name@),
            forall|n: Seq<char>|
                n != name@ ==> (final(self).spec_contains(n) <==> old(self).spec_contains(n)),
            forall|n: Seq<char>|
                n != name@ && old(self).spec_contains(n) ==> final(self).spec_get(n) == old(self).spec_get(n),
    {
        match self.find(name) {
            Some(i) => {
                self.records.remove(i);
                proof {
                    let rs = old(self).records@;
                    let fs = final(self).records@;
                    assert(fs =~= rs.subrange(0, i as int) + rs.subrange(
                        i as int + 1,
                        rs.len() as int,
                    ));
                    assert forall|n: Seq<char>|
                        n != name@ && old(self).spec_contains(n) implies final(self).spec_contains(n) && final(self).spec_get(n) == old(self).spec_get(n) by {
                        let j = choose|j: int| 0 <= j < rs.len() && rs[j]@.name == n;
                        if j < i as int {
                            assert(fs[j]@.name == n);
                        } else {
                            assert(fs[j - 1]@.name == n);
                        }
                        let j2 = choose|j2: int| 0 <= j2 < fs.len() && fs[j2]@.name == n;
                        if j2 < i as int {
                            assert(rs[j2]@.name == n);
                            assert(j2 == j);
                        } else {
                            assert(rs[j2 + 1]@.name == n);
                            assert(j2 + 1 == j);
                        }
                    }
                }
                true
            },
            None => false,
        }
    }

    /// The names stored here but absent from `known`: server-side modules a
    /// client session has never seen.
    pub fn retrieveMissingModule(&self, known: &Vec<String>) -> (r: Vec<String>)
        requires
            self.wf(),
        ensures
            forall|i: int|
                0 <= i < r@.len() ==> self.spec_contains(#[trigger] r@[i]@) && !spec_name_in(
                    known@,
                    r@[i]@,
                ),
            forall|n: Seq<char>|
                self.spec_contains(n) && !spec_name_in(known@, n) ==> exists|i: int|
                    0 <= i < r@.len() && #[trigger] r@[i]@ == n,
            forall|i: int, j: int| 0 <= i < j < r@.len() ==> r@[i]@ != r@[j]@,
    {
        let mut out: Vec<String> = Vec::new();
        let mut i: usize = 0;
        while i < self.records.len()
            invariant
                self.wf(),
                i <= self.records@.len(),
                forall|k: int|
                    0 <= k < out@.len() ==> self.spec_contains(#[trigger] out@[k]@) && !spec_name_in(
                        known@,
                        out@[k]@,
                    ),
                forall|j: int|
                    0 <= j < i as int && !spec_name_in(known@, self.records@[j]@.name) ==> exists|
                        k: int,
                    | 0 <= k < out@.len() && #[trigger] out@[k]@ == self.records@[j]@.name,
                forall|k: int, l: int| 0 <= k < l < out@.len() ==> out@[k]@ != out@[l]@,
                forall|k: int|
                    0 <= k < out@.len() ==> exists|j: int|
                        0 <= j < i as int && #[trigger] out@[k]@ == self.records@[j]@.name,
            decreases self.records@.len() - i,
    {
            let ghost out0 = out@;
            let name = &self.records[i].name;
            if !name_in(known, name) {
                out.push(name.clone());
                proof {
                    let nm = self.records@[i as int]@.name;
                    assert(out@ =~= out0.push(out@[out0.len() as int]));
                    assert(out@[out0.len() as int]@ == nm);
                    assert(self.spec_contains(nm));
                    assert(forall|k: int| 0 <= k < out0.len() ==> out@[k] == out0[k]);
                    assert forall|j: int|
                        0 <= j < i as int + 1 && !spec_name_in(known@, self.records@[j]@.name)
                        implies exists|k: int|
                        0 <= k < out@.len() && #[trigger] out@[k]@ == self.records@[j]@.name by {
                        if j < i as int {
                            let k = choose|k: int|
                                0 <= k < out0.len() && #[trigger] out0[k]@ == self.records@[j]@.name;
                            assert(out@[k]@ == self.records@[j]@.name);
                        } else {
                            assert(out@[out0.len() as int]@ == self.records@[j]@.name);
                        }
                    }
                    assert forall|k: int, l: int| 0 <= k < l < out@.len() implies out@[k]@
                        != out@[l]@ by {
                        if l == out0.len() as int {
                            let jk = choose|jk: int|
                                0 <= jk < i as int && #[trigger] out0[k]@ == self.records@[jk]@.name;
                            assert(self.records@[jk]@.name != nm);
                        }
                    }
                }
            }
            i = i + 1;
        }
        proof {
            assert forall|n: Seq<char>|
                self.spec_contains(n) && !spec_name_in(known@, n) implies exists|k: int|
                0 <= k < out@.len() && #[trigger] out@[k]@ == n by {
                let j = choose|j: int|
                    0 <= j < self.records@.len() && self.records@[j]@.name == n;
            }
        }
        out
    }
}

/// Whether `name` occurs among the views of `names`.
pub open spec fn spec_name_in(names: Seq<String>, name: Seq<char>) -> bool {
    exists|i: int| 0 <= i < names.len() && names[i]@ == name
}

/// Whether `name` occurs in `names`, decided executably.
pub fn name_in(names: &Vec<String>, name: &String) -> (r: bool)
    ensures
        r == spec_name_in(names@, name@),
{
    let mut i: usize = 0;
    while i < names.len()
        invariant
            i <= names@.len(),
            forall|j: int| 0 <= j < i as int ==> names@[j]@ != name@,
        decreases names@.len() - i,
    {
        if names[i] == *name {
            return true;
        }
        i = i + 1;
    }
    false
}

} // verus!

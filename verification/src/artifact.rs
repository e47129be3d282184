//! Compiled artifacts, reduced to what the loading pass reads of them.
//!
//! A real object file is an opaque binary whose parsing is delegated to the
//! loading library; what this layer's logic consumes of it are the named map
//! and program definitions it declares. An [`Artifact`] carries exactly
//! those, as plain values, and an [`ObjectStore`] stands in for the artifacts
//! reachable by path.

use vstd::prelude::*;
use crate::types::MapType;

verus! {

/// The shape of one map as a compiled artifact declares it.
pub struct MapDef {
    /// The map's name.
    pub name: String,
    /// The map's type.
    pub map_type: MapType,
    /// Exact byte length of every key.
    pub key_size: u32,
    /// Exact byte length of every value.
    pub value_size: u32,
    /// The declared capacity.
    pub max_entries: u32,
}

impl MapDef {
    /// Whether the kernel accepts this shape at load time.
    pub open spec fn loadable(self) -> bool {
        self.map_type != MapType::Unspec && self.key_size > 0 && self.value_size > 0
            && self.max_entries > 0
    }
}

impl Clone for MapDef {
    fn clone(&self) -> (r: Self)
        ensures
            r == *self,
    {
        MapDef {
            name: self.name.clone(),
            map_type: self.map_type,
            key_size: self.key_size,
            value_size: self.value_size,
            max_entries: self.max_entries,
        }
    }
}

/// One program as a compiled artifact declares it.
pub struct ProgDef {
    /// The program's name.
    pub name: String,
    /// The section the program was defined in.
    pub section: String,
    /// How many instructions its bytecode holds.
    pub insn_count: u32,
}

impl ProgDef {
    /// Whether the kernel accepts this program at load time.
    pub open spec fn loadable(self) -> bool {
        self.insn_count > 0
    }
}

impl Clone for ProgDef {
    fn clone(&self) -> (r: Self)
        ensures
            r == *self,
    {
        ProgDef {
            name: self.name.clone(),
            section: self.section.clone(),
            insn_count: self.insn_count,
        }
    }
}

/// A parsed compiled artifact: the map and program definitions it declares.
pub struct Artifact {
    /// The declared maps.
    pub maps: Vec<MapDef>,
    /// The declared programs.
    pub progs: Vec<ProgDef>,
}

impl Artifact {
    /// Whether the kernel-loading pass accepts every declaration.
    pub open spec fn loadable(self) -> bool {
        &&& forall|i: int| 0 <= i < self.maps@.len() ==> (#[trigger] self.maps@[i]).loadable()
        &&& forall|i: int| 0 <= i < self.progs@.len() ==> (#[trigger] self.progs@[i]).loadable()
    }

    /// An artifact declaring nothing.
    pub fn new() -> (r: Artifact)
        ensures
            r.maps@ == Seq::<MapDef>::empty(),
            r.progs@ == Seq::<ProgDef>::empty(),
    {
        Artifact { maps: Vec::new(), progs: Vec::new() }
    }

    /// Declare one more map.
    pub fn add_map(&mut self, def: MapDef)
        ensures
            final(self).maps@ == old(self).maps@.push(def),
            final(self).progs@ == old(self).progs@,
    {
        self.maps.push(def);
    }

    /// Declare one more program.
    pub fn add_prog(&mut self, def: ProgDef)
        ensures
            final(self).maps@ == old(self).maps@,
            final(self).progs@ == old(self).progs@.push(def),
    {
        self.progs.push(def);
    }

    /// Run the loading pass's checks over every declaration.
    pub(crate) fn check_loadable(&self) -> (r: bool)
        ensures
            r == self.loadable(),
    {
        let n = self.maps.len();
        let mut i: usize = 0;
        while i < n
            invariant
                n == self.maps@.len(),
                0 <= i <= n,
                forall|j: int| 0 <= j < i ==> (#[trigger] self.maps@[j]).loadable(),
            decreases n - i,
        {
            let d = &self.maps[i];
            if d.map_type == MapType::Unspec || d.key_size == 0 || d.value_size == 0
                || d.max_entries == 0 {
                return false;
            }
            i = i + 1;
        }
        let np = self.progs.len();
        let mut j: usize = 0;
        while j < np
            invariant
                np == self.progs@.len(),
                0 <= j <= np,
                forall|k: int| 0 <= k < j ==> (#[trigger] self.progs@[k]).loadable(),
                forall|k: int| 0 <= k < self.maps@.len() ==> (#[trigger] self.maps@[k]).loadable(),
            decreases np - j,
        {
            if self.progs[j].insn_count == 0 {
                return false;
            }
            j = j + 1;
        }
        true
    }
}

/// One artifact stored under a path.
struct StoredObject {
    path: String,
    artifact: Artifact,
}

/// Whether the stored paths are pairwise distinct.
spec fn paths_distinct(s: Seq<StoredObject>) -> bool {
    forall|i: int, j: int| 0 <= i < j < s.len() ==> s[i].path@ != s[j].path@
}

/// The artifact stored under `path`, if any.
spec fn stored_at_seq(s: Seq<StoredObject>, path: Seq<char>) -> Option<Artifact> {
    if exists|i: int| 0 <= i < s.len() && s[i].path@ == path {
        Some(s[choose|i: int| 0 <= i < s.len() && s[i].path@ == path].artifact)
    } else {
        None
    }
}

/// With distinct paths, two stored artifacts sharing one are the same entry.
proof fn lemma_path_unique(s: Seq<StoredObject>, a: int, b: int)
    requires
        paths_distinct(s),
        0 <= a < s.len(),
        0 <= b < s.len(),
        s[a].path@ == s[b].path@,
    ensures
        a == b,
{
    if a < b {
        assert(s[a].path@ != s[b].path@);
    } else if b < a {
        assert(s[b].path@ != s[a].path@);
    }
}

/// The artifacts reachable by path: what the opening step can find on disk.
pub struct ObjectStore {
    entries: Vec<StoredObject>,
}

impl ObjectStore {
    /// The artifact stored under `path`, if any.
    pub closed spec fn stored_at(self, path: Seq<char>) -> Option<Artifact> {
        stored_at_seq(self.entries@, path)
    }

    /// Paths are pairwise distinct, so each names at most one artifact.
    pub closed spec fn wf(self) -> bool {
        paths_distinct(self.entries@)
    }

    /// An empty store.
    pub fn new() -> (r: ObjectStore)
        ensures
            r.wf(),
            forall|p: Seq<char>| r.stored_at(p) is None,
    {
        let r = ObjectStore { entries: Vec::new() };
        proof {
            assert forall|p: Seq<char>| r.stored_at(p) is None by {
                assert(r.entries@.len() == 0);
            }
        }
        r
    }

    /// The index of the entry stored under `path`, if any.
    fn find(&self, path: &str) -> (r: Option<usize>)
        ensures
            match r {
                Some(i) => i < self.entries@.len() && self.entries@[i as int].path@ == path@,
                None => forall|i: int|
                    0 <= i < self.entries@.len() ==> (#[trigger] self.entries@[i]).path@ != path@,
            },
    {
        let p = path.to_owned();
        let n = self.entries.len();
        let mut i: usize = 0;
        while i < n
            invariant
                n == self.entries@.len(),
                0 <= i <= n,
                p@ == path@,
                forall|j: int| 0 <= j < i ==> (#[trigger] self.entries@[j]).path@ != path@,
            decreases n - i,
        {
            if self.entries[i].path == p {
                return Some(i);
            }
            i = i + 1;
        }
        None
    }

    /// Store `artifact` under `path`, replacing what the path held before.
    pub fn add(&mut self, path: &str, artifact: Artifact)
        requires
            old(self).wf(),
        ensures
            final(self).wf(),
            final(self).stored_at(path@) == Some(artifact),
            forall|p: Seq<char>|
                p != path@ ==> final(self).stored_at(p) == old(self).stored_at(p),
    {
        let ghost s1 = self.entries@;
        let entry = StoredObject { path: path.to_owned(), artifact };
        let ghost e0 = entry;
        match self.find(path) {
            Some(i) => {
                self.entries[i] = entry;
                proof {
                    let s2 = self.entries@;
                    assert(s2 == s1.update(i as int, e0));
                    assert forall|a: int, b: int| 0 <= a < b < s2.len() implies s2[a].path@
                        != s2[b].path@ by {
                        assert(s2[a].path@ == s1[a].path@);
                        assert(s2[b].path@ == s1[b].path@);
                    }
                    assert(0 <= (i as int) < s2.len() && s2[i as int].path@ == path@);
                    let j = choose|j: int| 0 <= j < s2.len() && s2[j].path@ == path@;
                    lemma_path_unique(s2, i as int, j);
                    assert forall|p: Seq<char>| p != path@ implies stored_at_seq(s2, p)
                        == stored_at_seq(s1, p) by {
                        if exists|a: int| 0 <= a < s1.len() && s1[a].path@ == p {
                            let a = choose|a: int| 0 <= a < s1.len() && s1[a].path@ == p;
                            assert(a != i as int);
                            assert(s2[a].path@ == p);
                            let b = choose|b: int| 0 <= b < s2.len() && s2[b].path@ == p;
                            assert(b != i as int);
                            assert(s1[b].path@ == p);
                            lemma_path_unique(s1, a, b);
                            assert(s2[b] == s1[a]);
                        } else {
                            assert forall|a: int| 0 <= a < s2.len() implies s2[a].path@ != p by {
                                if a == i as int {
                                    assert(s2[a].path@ == path@);
                                } else {
                                    assert(s2[a].path@ == s1[a].path@);
                                }
                            }
                        }
                    }
                }
            },
            None => {
                self.entries.push(entry);
                proof {
                    let s2 = self.entries@;
                    let n = s1.len() as int;
                    assert forall|a: int, b: int| 0 <= a < b < s2.len() implies s2[a].path@
                        != s2[b].path@ by {
                        if b < n {
                            assert(s2[a] == s1[a] && s2[b] == s1[b]);
                        } else {
                            assert(s2[a] == s1[a] && s2[b] == e0);
                        }
                    }
                    assert(0 <= n < s2.len() && s2[n].path@ == path@);
                    let j = choose|j: int| 0 <= j < s2.len() && s2[j].path@ == path@;
                    lemma_path_unique(s2, n, j);
                    assert forall|p: Seq<char>| p != path@ implies stored_at_seq(s2, p)
                        == stored_at_seq(s1, p) by {
                        if exists|a: int| 0 <= a < s1.len() && s1[a].path@ == p {
                            let a = choose|a: int| 0 <= a < s1.len() && s1[a].path@ == p;
                            assert(s2[a].path@ == p);
                            let b = choose|b: int| 0 <= b < s2.len() && s2[b].path@ == p;
                            assert(b != n);
                            assert(s1[b].path@ == p);
                            lemma_path_unique(s1, a, b);
                        } else {
                            assert forall|a: int| 0 <= a < s2.len() implies s2[a].path@ != p by {
                                if a < n {
                                    assert(s2[a] == s1[a]);
                                } else {
                                    assert(s2[a] == e0);
                                }
                            }
                        }
                    }
                }
            },
        }
    }

    /// The artifact stored under `path`, if any.
    pub(crate) fn get(&self, path: &str) -> (r: Option<&Artifact>)
        requires
            self.wf(),
        ensures
            match r {
                Some(a) => self.stored_at(path@) == Some(*a),
                None => self.stored_at(path@) is None,
            },
    {
        match self.find(path) {
            Some(i) => {
                proof {
                    let j = choose|j: int|
                        0 <= j < self.entries@.len() && self.entries@[j].path@ == path@;
                    lemma_path_unique(self.entries@, i as int, j);
                }
                Some(&self.entries[i].artifact)
            },
            None => None,
        }
    }
}

} // verus!

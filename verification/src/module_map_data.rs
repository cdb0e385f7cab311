//! A map from module name and requested module type to data, and the
//! module map's records: modules, names and aliases, and their snapshot.
use vstd::prelude::*;
use crate::modules::{AssertedModuleType, RequestedModuleType, RequestedModuleTypeView};
use crate::str_map::StrMap;
use crate::error::JsNativeError;

verus! {

/// A key of the map: the requested module type and the module name.
pub type ModuleKey = (RequestedModuleTypeView, Seq<char>);

/// Map of module name and requested module type to a data field. Names are
/// kept in one map per requested module type.
pub struct ModuleNameTypeMap<T> {
    submaps: Vec<StrMap<T>>,
    map_index: Vec<RequestedModuleType>,
    len: usize,
    contents: Ghost<Map<ModuleKey, T>>,
}

impl<T> View for ModuleNameTypeMap<T> {
    type V = Map<ModuleKey, T>;

    open spec fn view(&self) -> Map<ModuleKey, T> {
        self.spec_contents()
    }
}

impl<T> ModuleNameTypeMap<T> {
    /// The data held, by key.
    pub closed spec fn spec_contents(&self) -> Map<ModuleKey, T> {
        self.contents@
    }

    /// The count that [`ModuleNameTypeMap::len`] reports: how many inserts
    /// added a key that was not present. Removing a key leaves it as it is.
    pub closed spec fn spec_len(&self) -> nat {
        self.len as nat
    }

    /// One submap per requested module type, each type once, and together
    /// exactly the contents.
    pub closed spec fn wf(&self) -> bool {
        &&& self.submaps@.len() == self.map_index@.len()
        &&& forall|i: int| 0 <= i < self.submaps@.len() ==> (#[trigger] self.submaps@[i]).wf()
        &&& forall|i: int, j: int|
            0 <= i < j < self.map_index@.len() ==> #[trigger] self.map_index@[i]@
                != #[trigger] self.map_index@[j]@
        &&& forall|i: int, k: Seq<char>|
            0 <= i < self.submaps@.len() && #[trigger] self.submaps@[i]@.contains_key(k)
                ==> self.contents@.contains_key((self.map_index@[i]@, k)) && self.contents@[(
            self.map_index@[i]@,
            k,
        )] == self.submaps@[i]@[k]
        &&& forall|key: ModuleKey|
            #[trigger] self.contents@.contains_key(key) ==> exists|i: int|
                0 <= i < self.submaps@.len() && self.map_index@[i]@ == key.0
                    && self.submaps@[i]@.contains_key(key.1)
    }

    /// The count of keys added (see [`ModuleNameTypeMap::spec_len`]).
    pub fn len(&self) -> (r: usize)
        ensures
            r == self.spec_len(),
    {
        self.len
    }

    /// The position of the submap for `ty`.
    fn map_index(&self, ty: &RequestedModuleType) -> (r: Option<usize>)
        requires
            self.wf(),
        ensures
            match r {
                Some(i) => i < self.map_index@.len() && self.map_index@[i as int]@ == ty@,
                None => forall|i: int| 0 <= i < self.map_index@.len() ==> self.map_index@[i]@ != ty@,
            },
    {
        let mut i: usize = 0;
        while i < self.map_index.len()
            invariant
                self.wf(),
                i <= self.map_index@.len(),
                forall|j: int| 0 <= j < i ==> self.map_index@[j]@ != ty@,
            decreases self.map_index@.len() - i,
        {
            if self.map_index[i].same_as(ty) {
                return Some(i);
            }
            i = i + 1;
        }
        None
    }

    /// The data for `name` under `ty`, if present.
    pub fn get(&self, ty: &RequestedModuleType, name: &str) -> (r: Option<&T>)
        requires
            self.wf(),
        ensures
            match r {
                Some(v) => self@.contains_key((ty@, name@)) && *v == self@[(ty@, name@)],
                None => !self@.contains_key((ty@, name@)),
            },
    {
        match self.map_index(ty) {
            Some(index) => {
                let r = self.submaps[index].get(name);
                proof {
                    if !self.submaps@[index as int]@.contains_key(name@) && self@.contains_key(
                        (ty@, name@),
                    ) {
                        let i = choose|i: int|
                            0 <= i < self.submaps@.len() && self.map_index@[i]@ == ty@
                                && self.submaps@[i]@.contains_key(name@);
                        assert(i == index);
                    }
                }
                r
            },
            None => None,
        }
    }

    /// Takes the data for `name` under `ty` out of the map, if present. The
    /// count of [`ModuleNameTypeMap::len`] stays as it is.
    pub fn remove(&mut self, ty: &RequestedModuleType, name: &str) -> (r: Option<T>)
        requires
            old(self).wf(),
        ensures
            final(self).wf(),
            final(self)@ == old(self)@.remove((ty@, name@)),
            final(self).spec_len() == old(self).spec_len(),
            match r {
                Some(v) => old(self)@.contains_key((ty@, name@)) && v == old(self)@[(ty@, name@)],
                None => !old(self)@.contains_key((ty@, name@)),
            },
    {
        let index = match self.map_index(ty) {
            Some(index) => index,
            None => {
                proof {
                    assert(self@ =~= old(self)@.remove((ty@, name@)));
                }
                return None;
            },
        };
        let ghost key = (ty@, name@);
        let mut sub = StrMap::new();
        std::mem::swap(&mut sub, &mut self.submaps[index]);
        let r = sub.remove(name);
        std::mem::swap(&mut sub, &mut self.submaps[index]);
        proof {
            let i0 = index as int;
            self.contents@ = self.contents@.remove(key);
            assert(self.submaps@ == old(self).submaps@.update(i0, self.submaps@[i0]));
            if !old(self).submaps@[i0]@.contains_key(name@) && old(self)@.contains_key(key) {
                let i = choose|i: int|
                    0 <= i < old(self).submaps@.len() && old(self).map_index@[i]@ == ty@
                        && old(self).submaps@[i]@.contains_key(name@);
                assert(i == i0);
            }
            assert forall|i: int| 0 <= i < self.submaps@.len() implies (
            #[trigger] self.submaps@[i]).wf() by {
                if i != i0 {
                    assert(self.submaps@[i] == old(self).submaps@[i]);
                }
            }
            assert forall|i: int, k: Seq<char>|
                0 <= i < self.submaps@.len() && #[trigger] self.submaps@[i]@.contains_key(k)
                    implies self.contents@.contains_key((self.map_index@[i]@, k))
                && self.contents@[(self.map_index@[i]@, k)] == self.submaps@[i]@[k] by {
                if i != i0 {
                    assert(self.submaps@[i] == old(self).submaps@[i]);
                    assert(old(self).submaps@[i]@.contains_key(k));
                    assert(old(self).map_index@[i]@ != old(self).map_index@[i0]@);
                }
            }
            assert forall|kk: ModuleKey| #[trigger] self.contents@.contains_key(kk) implies exists|
                i: int,
            |
                0 <= i < self.submaps@.len() && self.map_index@[i]@ == kk.0
                    && self.submaps@[i]@.contains_key(kk.1) by {
                assert(old(self).contents@.contains_key(kk));
                let i = choose|i: int|
                    0 <= i < old(self).submaps@.len() && old(self).map_index@[i]@ == kk.0
                        && old(self).submaps@[i]@.contains_key(kk.1);
                if i == i0 {
                    assert(kk.1 != name@);
                    assert(self.submaps@[i]@.contains_key(kk.1));
                } else {
                    assert(self.submaps@[i] == old(self).submaps@[i]);
                }
            }
        }
        r
    }

    /// Sets the data for `name` under `module_type`; the count of
    /// [`ModuleNameTypeMap::len`] grows by one when the key was not present.
    pub fn insert(&mut self, module_type: &RequestedModuleType, name: String, module: T)
        requires
            old(self).wf(),
            old(self).spec_len() < usize::MAX,
        ensures
            final(self).wf(),
            final(self)@ == old(self)@.insert((module_type@, name@), module),
            final(self).spec_len() == old(self).spec_len() + if old(self)@.contains_key(
                (module_type@, name@),
            ) {
                0nat
            } else {
                1nat
            },
    {
        let ghost key = (module_type@, name@);
        let ghost value = module;
        let index = match self.map_index(module_type) {
            Some(index) => index,
            None => {
                let index = self.submaps.len();
                self.map_index.push(module_type.duplicate());
                self.submaps.push(StrMap::new());
                proof {
                    let n = index as int;
                    assert forall|i: int| 0 <= i < self.submaps@.len() implies (
                    #[trigger] self.submaps@[i]).wf() by {
                        if i < n {
                            assert(self.submaps@[i] == old(self).submaps@[i]);
                        }
                    }
                    assert forall|i: int, j: int|
                        0 <= i < j < self.map_index@.len() implies #[trigger] self.map_index@[i]@
                        != #[trigger] self.map_index@[j]@ by {
                        if j == n {
                            assert(self.map_index@[i] == old(self).map_index@[i]);
                        }
                    }
                    assert forall|i: int, k: Seq<char>|
                        0 <= i < self.submaps@.len() && #[trigger] self.submaps@[i]@.contains_key(k)
                            implies self.contents@.contains_key((self.map_index@[i]@, k))
                        && self.contents@[(self.map_index@[i]@, k)] == self.submaps@[i]@[k] by {
                        assert(i < n);
                        assert(self.submaps@[i] == old(self).submaps@[i]);
                        assert(self.map_index@[i] == old(self).map_index@[i]);
                    }
                    assert forall|kk: ModuleKey| #[trigger] self.contents@.contains_key(kk) implies exists|
                        i: int,
                    |
                        0 <= i < self.submaps@.len() && self.map_index@[i]@ == kk.0
                            && self.submaps@[i]@.contains_key(kk.1) by {
                        let i = choose|i: int|
                            0 <= i < old(self).submaps@.len() && old(self).map_index@[i]@ == kk.0
                                && old(self).submaps@[i]@.contains_key(kk.1);
                        assert(self.submaps@[i] == old(self).submaps@[i]);
                        assert(self.map_index@[i] == old(self).map_index@[i]);
                    }
                    assert(!old(self)@.contains_key(key));
                }
                index
            },
        };
        let ghost mid = *self;
        let mut sub = StrMap::new();
        std::mem::swap(&mut sub, &mut self.submaps[index]);
        let added = sub.insert(name, module);
        std::mem::swap(&mut sub, &mut self.submaps[index]);
        proof {
            let i0 = index as int;
            self.contents@ = self.contents@.insert(key, value);
            assert(self.submaps@ == mid.submaps@.update(i0, self.submaps@[i0]));
            if mid.submaps@[i0]@.contains_key(key.1) {
                assert(mid.contents@.contains_key(key));
            } else if mid.contents@.contains_key(key) {
                let i = choose|i: int|
                    0 <= i < mid.submaps@.len() && mid.map_index@[i]@ == key.0
                        && mid.submaps@[i]@.contains_key(key.1);
                assert(i == i0);
            }
            assert forall|i: int| 0 <= i < self.submaps@.len() implies (
            #[trigger] self.submaps@[i]).wf() by {
                if i != i0 {
                    assert(self.submaps@[i] == mid.submaps@[i]);
                }
            }
            assert forall|i: int, k: Seq<char>|
                0 <= i < self.submaps@.len() && #[trigger] self.submaps@[i]@.contains_key(k)
                    implies self.contents@.contains_key((self.map_index@[i]@, k))
                && self.contents@[(self.map_index@[i]@, k)] == self.submaps@[i]@[k] by {
                if i != i0 {
                    assert(self.submaps@[i] == mid.submaps@[i]);
                    assert(mid.submaps@[i]@.contains_key(k));
                    assert(mid.map_index@[i]@ != mid.map_index@[i0]@);
                }
            }
            assert forall|kk: ModuleKey| #[trigger] self.contents@.contains_key(kk) implies exists|
                i: int,
            |
                0 <= i < self.submaps@.len() && self.map_index@[i]@ == kk.0
                    && self.submaps@[i]@.contains_key(kk.1) by {
                if kk == key {
                    assert(self.submaps@[i0]@.contains_key(kk.1));
                } else {
                    assert(mid.contents@.contains_key(kk));
                    let i = choose|i: int|
                        0 <= i < mid.submaps@.len() && mid.map_index@[i]@ == kk.0
                            && mid.submaps@[i]@.contains_key(kk.1);
                    if i == i0 {
                        assert(self.submaps@[i]@.contains_key(kk.1));
                    } else {
                        assert(self.submaps@[i] == mid.submaps@[i]);
                    }
                }
            }
        }
        if added {
            self.len = self.len + 1;
        }
    }

    /// Takes all data out of the map, each key once with its data, in the
    /// order in which the map holds them.
    pub fn drain(self) -> (r: Vec<(RequestedModuleType, String, T)>)
        requires
            self.wf(),
        ensures
            forall|i: int|
                0 <= i < r@.len() ==> self@.contains_key((r@[i].0@, r@[i].1@)) && self@[(
                    r@[i].0@,
                    r@[i].1@,
                )] == (#[trigger] r@[i]).2,
            forall|key: ModuleKey|
                #[trigger] self@.contains_key(key) ==> exists|i: int|
                    0 <= i < r@.len() && r@[i].0@ == key.0 && r@[i].1@ == key.1,
            forall|a: int, b: int|
                0 <= a < b < r@.len() ==> (#[trigger] r@[a]).0@ != (#[trigger] r@[b]).0@ || r@[a].1@
                    != r@[b].1@,
    {
        let ghost subs = self.submaps@;
        let ghost types = self.map_index@;
        let ghost contents = self.contents@;
        let ModuleNameTypeMap { mut submaps, mut map_index, len: _, contents: _ } = self;
        let mut out: Vec<(RequestedModuleType, String, T)> = Vec::new();
        while submaps.len() > 0
            invariant
                subs.len() == types.len(),
                submaps@.len() == map_index@.len(),
                submaps@.len() <= subs.len(),
                submaps@ == subs.take(submaps@.len() as int),
                map_index@ == types.take(map_index@.len() as int),
                forall|i: int| 0 <= i < subs.len() ==> (#[trigger] subs[i]).wf(),
                forall|i: int, j: int|
                    0 <= i < j < types.len() ==> #[trigger] types[i]@ != #[trigger] types[j]@,
                forall|i: int, k: Seq<char>|
                    0 <= i < subs.len() && #[trigger] subs[i]@.contains_key(k)
                        ==> contents.contains_key((types[i]@, k)) && contents[(types[i]@, k)]
                        == subs[i]@[k],
                drain_sound(contents, out@),
                drain_unprocessed(types, submaps@.len() as int, out@),
                drain_distinct(out@),
                drain_complete(subs, types, submaps@.len() as int, contents, out@),
            decreases submaps@.len(),
        {
            let sub = submaps.pop().unwrap();
            let ty = map_index.pop().unwrap();
            let ghost n = submaps@.len() as int;
            assert(sub == subs[n]);
            assert(ty == types[n]);
            let entries = sub.into_entries();
            let ghost es = entries@;
            let ghost out0 = out@;
            append_entries(&mut out, &ty, entries);
            proof {
                lemma_drain_step(subs, types, n, contents, out0, out@, es);
            }
        }
        proof {
            assert forall|key: ModuleKey| #[trigger] contents.contains_key(key) implies exists|i: int|
                0 <= i < out@.len() && out@[i].0@ == key.0 && out@[i].1@ == key.1 by {
                assert(drain_complete(subs, types, 0, contents, out@));
            }
        }
        out
    }
}

/// Every drained item is a key of `contents` with its data.
pub closed spec fn drain_sound<T>(
    contents: Map<ModuleKey, T>,
    out: Seq<(RequestedModuleType, String, T)>,
) -> bool {
    forall|x: int|
        0 <= x < out.len() ==> contents.contains_key(((#[trigger] out[x]).0@, out[x].1@))
            && contents[(out[x].0@, out[x].1@)] == out[x].2
}

/// No drained item has a type of the submaps below `n`, which are still to
/// be drained.
pub closed spec fn drain_unprocessed<T>(
    types: Seq<RequestedModuleType>,
    n: int,
    out: Seq<(RequestedModuleType, String, T)>,
) -> bool {
    forall|x: int, i: int|
        0 <= x < out.len() && 0 <= i < n ==> (#[trigger] out[x]).0@ != (#[trigger] types[i])@
}

/// The drained items have distinct keys.
pub closed spec fn drain_distinct<T>(out: Seq<(RequestedModuleType, String, T)>) -> bool {
    forall|a: int, b: int|
        0 <= a < b < out.len() ==> (#[trigger] out[a]).0@ != (#[trigger] out[b]).0@ || out[a].1@
            != out[b].1@
}

/// Each key of `contents` is in a submap below `n` or among the drained
/// items.
pub closed spec fn drain_complete<T>(
    subs: Seq<StrMap<T>>,
    types: Seq<RequestedModuleType>,
    n: int,
    contents: Map<ModuleKey, T>,
    out: Seq<(RequestedModuleType, String, T)>,
) -> bool {
    forall|key: ModuleKey|
        #[trigger] contents.contains_key(key) ==> (exists|i: int|
            0 <= i < n && types[i]@ == key.0 && subs[i]@.contains_key(key.1)) || (exists|x: int|
            0 <= x < out.len() && out[x].0@ == key.0 && out[x].1@ == key.1)
}

/// Appends `(ty, name, value)` for each entry, taking the entries from the
/// last one back.
fn append_entries<T>(
    out: &mut Vec<(RequestedModuleType, String, T)>,
    ty: &RequestedModuleType,
    entries: Vec<(String, T)>,
)
    ensures
        final(out)@.len() == old(out)@.len() + entries@.len(),
        final(out)@.take(old(out)@.len() as int) == old(out)@,
        forall|t: int|
            0 <= t < entries@.len() ==> (#[trigger] final(out)@[old(out)@.len() + t]).0@ == ty@
                && final(out)@[old(out)@.len() + t].1@ == entries@[entries@.len() - 1 - t].0@
                && final(out)@[old(out)@.len() + t].2 == entries@[entries@.len() - 1 - t].1,
{
    let ghost es = entries@;
    let ghost out0 = out@;
    let mut entries = entries;
    while entries.len() > 0
        invariant
            entries@ == es.take(entries@.len() as int),
            entries@.len() <= es.len(),
            out@.len() == out0.len() + (es.len() - entries@.len()),
            out@.take(out0.len() as int) == out0,
            forall|t: int|
                0 <= t < out@.len() - out0.len() ==> (#[trigger] out@[out0.len() + t]).0@ == ty@
                    && out@[out0.len() + t].1@ == es[es.len() - 1 - t].0@ && out@[out0.len() + t].2
                    == es[es.len() - 1 - t].1,
        decreases entries@.len(),
    {
        let (name, value) = entries.pop().unwrap();
        let ghost before = out@;
        out.push((ty.duplicate(), name, value));
        proof {
            assert(out@.take(out0.len() as int) =~= out0);
            assert forall|t: int| 0 <= t < out@.len() - out0.len() implies (#[trigger] out@[out0.len()
                + t]).0@ == ty@ && out@[out0.len() + t].1@ == es[es.len() - 1 - t].0@ && out@[out0.len()
                + t].2 == es[es.len() - 1 - t].1 by {
                if t < out@.len() - out0.len() - 1 {
                    assert(out@[out0.len() + t] == before[out0.len() + t]);
                }
            }
        }
    }
}

/// One step of draining: appending the entries `es` of submap `n` to
/// `out0`, giving `out`, keeps what the loop of
/// [`ModuleNameTypeMap::drain`] maintains, with one submap fewer left.
proof fn lemma_drain_step<T>(
    subs: Seq<StrMap<T>>,
    types: Seq<RequestedModuleType>,
    n: int,
    contents: Map<ModuleKey, T>,
    out0: Seq<(RequestedModuleType, String, T)>,
    out: Seq<(RequestedModuleType, String, T)>,
    es: Seq<(String, T)>,
)
    requires
        subs.len() == types.len(),
        0 <= n < subs.len(),
        forall|i: int, j: int| 0 <= i < j < types.len() ==> #[trigger] types[i]@ != #[trigger] types[j]@,
        forall|k: Seq<char>|
            #[trigger] subs[n]@.contains_key(k) ==> contents.contains_key((types[n]@, k))
                && contents[(types[n]@, k)] == subs[n]@[k],
        forall|i: int|
            0 <= i < es.len() ==> subs[n]@.contains_key(#[trigger] es[i].0@) && subs[n]@[es[i].0@]
                == es[i].1,
        forall|k: Seq<char>|
            #[trigger] subs[n]@.contains_key(k) ==> exists|i: int| 0 <= i < es.len() && es[i].0@ == k,
        forall|i: int, j: int| 0 <= i < j < es.len() ==> #[trigger] es[i].0@ != #[trigger] es[j].0@,
        out.len() == out0.len() + es.len(),
        out.take(out0.len() as int) == out0,
        forall|t: int|
            0 <= t < es.len() ==> (#[trigger] out[out0.len() + t]).0@ == types[n]@ && out[out0.len()
                + t].1@ == es[es.len() - 1 - t].0@ && out[out0.len() + t].2 == es[es.len() - 1 - t].1,
        drain_sound(contents, out0),
        drain_unprocessed(types, n + 1, out0),
        drain_distinct(out0),
        drain_complete(subs, types, n + 1, contents, out0),
    ensures
        drain_sound(contents, out),
        drain_unprocessed(types, n, out),
        drain_distinct(out),
        drain_complete(subs, types, n, contents, out),
{
    let d = es.len() as int;
    let o = out0.len() as int;
    assert forall|x: int| 0 <= x < out.len() implies contents.contains_key(
        ((#[trigger] out[x]).0@, out[x].1@),
    ) && contents[(out[x].0@, out[x].1@)] == out[x].2 by {
        if x < o {
            assert(out[x] == out.take(o)[x]);
            assert(out0[x] == out[x]);
        } else {
            let t = x - o;
            assert(out[o + t].1@ == es[d - 1 - t].0@);
            assert(subs[n]@.contains_key(es[d - 1 - t].0@));
        }
    }
    assert forall|x: int, i: int| 0 <= x < out.len() && 0 <= i < n implies (
    #[trigger] out[x]).0@ != (#[trigger] types[i])@ by {
        if x < o {
            assert(out[x] == out.take(o)[x]);
            assert(out0[x].0@ != types[i]@);
        } else {
            assert(out[o + (x - o)].0@ == types[n]@);
        }
    }
    assert forall|a: int, b: int| 0 <= a < b < out.len() implies (#[trigger] out[a]).0@ != (
    #[trigger] out[b]).0@ || out[a].1@ != out[b].1@ by {
        if b < o {
            assert(out[a] == out.take(o)[a]);
            assert(out[b] == out.take(o)[b]);
            assert(out0[a].0@ != out0[b].0@ || out0[a].1@ != out0[b].1@);
        } else if a < o {
            assert(out[a] == out.take(o)[a]);
            assert(out0[a].0@ != types[n]@);
            assert(out[o + (b - o)].0@ == types[n]@);
        } else {
            let ta = a - o;
            let tb = b - o;
            assert(out[o + ta].1@ == es[d - 1 - ta].0@);
            assert(out[o + tb].1@ == es[d - 1 - tb].0@);
        }
    }
    assert forall|key: ModuleKey| #[trigger] contents.contains_key(key) implies (exists|i: int|
        0 <= i < n && types[i]@ == key.0 && subs[i]@.contains_key(key.1)) || (exists|x: int|
        0 <= x < out.len() && out[x].0@ == key.0 && out[x].1@ == key.1) by {
        if exists|i: int| 0 <= i < n + 1 && types[i]@ == key.0 && subs[i]@.contains_key(key.1) {
            let i = choose|i: int| 0 <= i < n + 1 && types[i]@ == key.0 && subs[i]@.contains_key(key.1);
            if i == n {
                let m = choose|m: int| 0 <= m < es.len() && es[m].0@ == key.1;
                let t = d - 1 - m;
                assert(out[o + t].1@ == es[d - 1 - t].0@);
                assert(out[o + t].0@ == key.0);
            }
        } else {
            let x = choose|x: int| 0 <= x < out0.len() && out0[x].0@ == key.0 && out0[x].1@ == key.1;
            assert(out[x] == out.take(o)[x]);
        }
    }
}

impl<T> Default for ModuleNameTypeMap<T> {
    fn default() -> (r: Self)
        ensures
            r.wf(),
            r@ == Map::<ModuleKey, T>::empty(),
            r.spec_len() == 0,
    {
        ModuleNameTypeMap {
            submaps: Vec::new(),
            map_index: Vec::new(),
            len: 0,
            contents: Ghost(Map::empty()),
        }
    }
}

} // verus!

verus! {

/// What a module name stands for in the module map.
#[derive(Debug)]
pub enum SymbolicModule {
    /// Another name for the module with this name, such as after a redirect.
    Alias(String),
    /// The module with this id.
    Mod(usize),
}

/// A request for a module as the source code of another module makes it:
/// the resolved specifier and the module type that its import attributes
/// ask for.
#[derive(Debug)]
pub struct ModuleRequest {
    pub specifier: String,
    pub requested_module_type: RequestedModuleType,
}

/// The key under which a request's module is registered.
pub open spec fn request_key(r: ModuleRequest) -> ModuleKey {
    (r.requested_module_type@, r.specifier@)
}

impl ModuleRequest {
    /// A copy of the request.
    pub fn duplicate(&self) -> (r: ModuleRequest)
        ensures
            request_key(r) == request_key(*self),
    {
        ModuleRequest {
            specifier: self.specifier.clone(),
            requested_module_type: self.requested_module_type.duplicate(),
        }
    }
}

/// What the module map knows of a loaded module.
#[derive(Debug)]
pub struct ModuleInfo {
    pub id: usize,
    pub main: bool,
    pub name: String,
    pub requests: Vec<ModuleRequest>,
    pub module_type: AssertedModuleType,
}

/// The id that `name` under `ty` resolves to, following aliases at most
/// `fuel` steps; `None` where a name on the way is not in the map or the
/// chain is longer.
pub open spec fn resolve_id(
    m: Map<ModuleKey, SymbolicModule>,
    ty: RequestedModuleTypeView,
    name: Seq<char>,
    fuel: nat,
) -> Option<usize>
    decreases fuel,
{
    if fuel == 0 || !m.contains_key((ty, name)) {
        None
    } else {
        match m[(ty, name)] {
            SymbolicModule::Mod(id) => Some(id),
            SymbolicModule::Alias(target) => resolve_id(m, ty, target@, (fuel - 1) as nat),
        }
    }
}

/// Whether following aliases from `name` under `ty` ends within `fuel`
/// steps, at a module or at a name that is not in the map.
pub open spec fn chain_ends(
    m: Map<ModuleKey, SymbolicModule>,
    ty: RequestedModuleTypeView,
    name: Seq<char>,
    fuel: nat,
) -> bool
    decreases fuel,
{
    if !m.contains_key((ty, name)) {
        true
    } else if fuel == 0 {
        false
    } else {
        match m[(ty, name)] {
            SymbolicModule::Mod(_) => true,
            SymbolicModule::Alias(target) => chain_ends(m, ty, target@, (fuel - 1) as nat),
        }
    }
}

/// Removing `name` under `ty` and, where it is an alias, the names its
/// chain goes through, at most `fuel` of them: the map after it and the id
/// the chain ends at (`None` where a name on the way is missing).
pub open spec fn remove_chain(
    m: Map<ModuleKey, SymbolicModule>,
    ty: RequestedModuleTypeView,
    name: Seq<char>,
    fuel: nat,
) -> (Map<ModuleKey, SymbolicModule>, Option<usize>)
    decreases fuel,
{
    if fuel == 0 || !m.contains_key((ty, name)) {
        (m, None)
    } else {
        let rest = m.remove((ty, name));
        match m[(ty, name)] {
            SymbolicModule::Mod(id) => (rest, Some(id)),
            SymbolicModule::Alias(target) => remove_chain(rest, ty, target@, (fuel - 1) as nat),
        }
    }
}

/// The names after a fetched module's redirect is registered.
pub open spec fn fetched_names(
    names: Map<ModuleKey, SymbolicModule>,
    ty: RequestedModuleTypeView,
    specified: String,
    found: Option<String>,
) -> Map<ModuleKey, SymbolicModule> {
    match found {
        Some(f) => names.insert((ty, specified@), SymbolicModule::Alias(f)),
        None => names,
    }
}

/// The name a fetched module goes by: the one it was found under.
pub open spec fn fetched_name(specified: String, found: Option<String>) -> String {
    match found {
        Some(f) => f,
        None => specified,
    }
}

/// How many names were ever added, after a fetched module's redirect is
/// registered: one more where the redirect is a new name.
pub open spec fn fetched_names_added(
    names: Map<ModuleKey, SymbolicModule>,
    added: nat,
    ty: RequestedModuleTypeView,
    specified: String,
    found: Option<String>,
) -> nat {
    if found is Some && !names.contains_key((ty, specified@)) {
        added + 1
    } else {
        added
    }
}

/// The records of a module map in a form that a snapshot can hold.
pub struct ModuleMapSnapshotData {
    pub next_load_id: i32,
    pub main_module_id: Option<i32>,
    pub modules: Vec<ModuleInfo>,
    pub by_name: Vec<(String, RequestedModuleType, SymbolicModule)>,
}

/// The key under which a snapshot entry registers its name.
pub open spec fn entry_key(e: (String, RequestedModuleType, SymbolicModule)) -> ModuleKey {
    (e.1@, e.0@)
}

/// `names` with the entries registered in order, later ones winning.
pub open spec fn register_all(
    names: Map<ModuleKey, SymbolicModule>,
    entries: Seq<(String, RequestedModuleType, SymbolicModule)>,
) -> Map<ModuleKey, SymbolicModule>
    decreases entries.len(),
{
    if entries.len() == 0 {
        names
    } else {
        register_all(names, entries.drop_last()).insert(
            entry_key(entries.last()),
            entries.last().2,
        )
    }
}

/// The entries list exactly the names of `names`, each once, with what the
/// name stands for.
pub open spec fn lists_exactly(
    entries: Seq<(String, RequestedModuleType, SymbolicModule)>,
    names: Map<ModuleKey, SymbolicModule>,
) -> bool {
    &&& forall|i: int|
        0 <= i < entries.len() ==> names.contains_key(entry_key(#[trigger] entries[i]))
            && names[entry_key(entries[i])] == entries[i].2
    &&& forall|key: ModuleKey|
        #[trigger] names.contains_key(key) ==> exists|i: int|
            0 <= i < entries.len() && entry_key(entries[i]) == key
    &&& forall|a: int, b: int|
        0 <= a < b < entries.len() ==> entry_key(#[trigger] entries[a]) != entry_key(
            #[trigger] entries[b],
        )
}

/// A main module id as a snapshot holds it, and back.
pub open spec fn id_to_snapshot(id: Option<usize>) -> Option<i32> {
    match id {
        Some(x) => Some(x as i32),
        None => None,
    }
}

pub open spec fn id_from_snapshot(id: Option<i32>) -> Option<usize> {
    match id {
        Some(x) => Some(x as usize),
        None => None,
    }
}

/// Whether every character of `s` is printable ASCII other than `"` and
/// `\`: the text that `Debug` shows as it is, between quotes.
pub open spec fn plain_text(s: Seq<char>) -> bool {
    forall|i: int|
        0 <= i < s.len() ==> 32 <= (#[trigger] s[i]) as u32 <= 126 && s[i] != '"' && s[i] != '\\'
}

/// What `format!("{:?}", s)` gives for the text `s`: std's `Debug` for
/// `str`, which depends on the text alone.
pub uninterp spec fn debug_text(s: Seq<char>) -> Seq<char>;

/// `format!("{:?}", s)`: the text between double quotes, with characters
/// escaped as `char::escape_debug` escapes them. The result is named
/// [`debug_text`]; only for text of printable ASCII characters other than
/// `"` and `\`, which nothing escapes, is it spelled out.
#[verifier::external_body]
fn debug_quoted(s: &str) -> (r: String)
    ensures
        r@ == debug_text(s@),
        plain_text(s@) ==> r@ == seq!['"'] + s@ + seq!['"'],
{
    format!("{:?}", s)
}

/// The message for a second main module, from the `Debug` texts of its
/// name and of the main module's name.
pub open spec fn second_main_message_of(name_debug: Seq<char>, main_debug: Seq<char>) -> Seq<char> {
    "Trying to create \"main\" module ("@ + name_debug + "), when one already exists ("@
        + main_debug + ")"@
}

/// The message for a second main module `name` while `main_name` is the
/// main module, names shown as `Debug` shows them.
pub open spec fn second_main_message(name: Seq<char>, main_name: Seq<char>) -> Seq<char> {
    second_main_message_of(debug_text(name), debug_text(main_name))
}

/// The error for a second main module, from the `Debug` texts of its name
/// and of the main module's name.
pub fn second_main_error(name_debug: &str, main_debug: &str) -> (e: JsNativeError)
    ensures
        e.spec_class()@ == "Error"@,
        e.spec_message() == second_main_message_of(name_debug@, main_debug@),
{
    let mut message = "Trying to create \"main\" module (".to_owned();
    message.append(name_debug);
    message.append("), when one already exists (");
    message.append(main_debug);
    message.append(")");
    JsNativeError::generic(message.as_str())
}

/// Every name of the map resolves within the steps that a lookup takes.
pub open spec fn all_chains_end(data: ModuleMapData) -> bool {
    forall|ty: RequestedModuleTypeView, name: Seq<char>|
        #[trigger] chain_ends(data.spec_by_name(), ty, name, data.spec_names_added() + 1)
}

/// Every module id that a name stands for has a record.
pub open spec fn ids_have_records(data: ModuleMapData) -> bool {
    forall|k: ModuleKey|
        #[trigger] data.spec_by_name().contains_key(k) && data.spec_by_name()[k] is Mod
            ==> data.spec_by_name()[k]->Mod_0 < data.info@.len()
}

/// The name `k` resolves within the steps that a lookup takes, and where it
/// stands for a module, that module has a record.
pub open spec fn name_is_sound(data: ModuleMapData, k: ModuleKey) -> bool {
    &&& chain_ends(data.spec_by_name(), k.0, k.1, data.spec_names_added() + 1)
    &&& (data.spec_by_name().contains_key(k) && data.spec_by_name()[k] is Mod
        ==> data.spec_by_name()[k]->Mod_0 < data.info@.len())
}

/// The module map's records: what each loaded module is, the names and
/// aliases by which modules are found, the id of the next load and the
/// main module.
pub struct ModuleMapData {
    pub info: Vec<ModuleInfo>,
    pub by_name: ModuleNameTypeMap<SymbolicModule>,
    pub next_load_id: i32,
    pub main_module_id: Option<usize>,
}

impl ModuleMapData {
    /// The names and aliases, by requested module type and name.
    pub closed spec fn spec_by_name(&self) -> Map<ModuleKey, SymbolicModule> {
        self.by_name@
    }

    /// How many names were ever added (see [`ModuleNameTypeMap::len`]).
    pub closed spec fn spec_names_added(&self) -> nat {
        self.by_name.spec_len()
    }

    pub closed spec fn wf(&self) -> bool {
        self.by_name.wf()
    }

    /// No module, no name, no main module.
    pub fn new() -> (r: Self)
        ensures
            r.wf(),
            r.spec_by_name() == Map::<ModuleKey, SymbolicModule>::empty(),
            r.spec_names_added() == 0,
            r.info@.len() == 0,
            r.next_load_id == 0,
            r.main_module_id is None,
            all_chains_end(r),
            ids_have_records(r),
    {
        let r = ModuleMapData {
            info: Vec::new(),
            by_name: ModuleNameTypeMap::default(),
            next_load_id: 0,
            main_module_id: None,
        };
        assert forall|ty: RequestedModuleTypeView, name: Seq<char>| #[trigger] chain_ends(
            r.spec_by_name(),
            ty,
            name,
            r.spec_names_added() + 1,
        ) by {
            assert(!r.spec_by_name().contains_key((ty, name)));
        }
        r
    }

    /// Records a loaded module: it gets the next id, its name is registered
    /// under `requested_module_type`, and it becomes the main module when
    /// `main` is set. Returns its id.
    pub fn create_module_info(
        &mut self,
        name: String,
        requested_module_type: &RequestedModuleType,
        module_type: AssertedModuleType,
        main: bool,
        requests: Vec<ModuleRequest>,
    ) -> (id: usize)
        requires
            old(self).wf(),
            old(self).spec_names_added() < usize::MAX,
        ensures
            final(self).wf(),
            id == old(self).info@.len(),
            final(self).info@.len() == id + 1,
            final(self).info@.take(id as int) == old(self).info@,
            final(self).info@[id as int].id == id,
            final(self).info@[id as int].main == main,
            final(self).info@[id as int].name@ == name@,
            final(self).spec_by_name() == old(self).spec_by_name().insert(
                (requested_module_type@, name@),
                SymbolicModule::Mod(id),
            ),
            final(self).spec_names_added() == old(self).spec_names_added() + if old(
                self,
            ).spec_by_name().contains_key((requested_module_type@, name@)) {
                0nat
            } else {
                1nat
            },
            final(self).main_module_id == if main {
                Some(id)
            } else {
                old(self).main_module_id
            },
            final(self).next_load_id == old(self).next_load_id,
            all_chains_end(*old(self)) ==> all_chains_end(*final(self)),
            ids_have_records(*old(self)) ==> ids_have_records(*final(self)),
    {
        let id = self.info.len();
        if main {
            self.main_module_id = Some(id);
        }
        let name2 = name.clone();
        let ghost key = (requested_module_type@, name@);
        self.by_name.insert(requested_module_type, name, SymbolicModule::Mod(id));
        let ghost before = self.info@;
        self.info.push(ModuleInfo { id, main, name: name2, requests, module_type });
        assert(self.info@.take(id as int) =~= before);
        proof {
            let m0 = old(self).spec_by_name();
            if all_chains_end(*old(self)) {
                assert forall|ty: RequestedModuleTypeView, n: Seq<char>| #[trigger] chain_ends(
                    self.spec_by_name(),
                    ty,
                    n,
                    self.spec_names_added() + 1,
                ) by {
                    assert(chain_ends(m0, ty, n, old(self).spec_names_added() + 1));
                    lemma_chain_ends_insert_mod(
                        m0,
                        ty,
                        n,
                        (old(self).spec_names_added() + 1) as nat,
                        (self.spec_names_added() + 1) as nat,
                        key,
                        id,
                    );
                }
            }
            if ids_have_records(*old(self)) {
                assert forall|k: ModuleKey| #[trigger] self.spec_by_name().contains_key(k)
                    && self.spec_by_name()[k] is Mod implies self.spec_by_name()[k]->Mod_0
                    < self.info@.len() by {
                    if k != key {
                        assert(m0.contains_key(k));
                    }
                }
            }
        }
        id
    }

    /// Registers `name` under `requested_module_type` as another name for
    /// `target`.
    pub fn alias(&mut self, name: String, requested_module_type: &RequestedModuleType, target: String)
        requires
            old(self).wf(),
            old(self).spec_names_added() < usize::MAX,
        ensures
            final(self).wf(),
            final(self).spec_by_name() == old(self).spec_by_name().insert(
                (requested_module_type@, name@),
                SymbolicModule::Alias(target),
            ),
            final(self).spec_names_added() == old(self).spec_names_added() + if old(
                self,
            ).spec_by_name().contains_key((requested_module_type@, name@)) {
                0nat
            } else {
                1nat
            },
            final(self).info == old(self).info,
            final(self).main_module_id == old(self).main_module_id,
            final(self).next_load_id == old(self).next_load_id,
    {
        self.by_name.insert(requested_module_type, name, SymbolicModule::Alias(target));
    }

    /// Whether `name` under `requested_module_type` is an alias.
    pub fn is_alias(&self, name: &str, requested_module_type: &RequestedModuleType) -> (r: bool)
        requires
            self.wf(),
        ensures
            r == (self.spec_by_name().contains_key((requested_module_type@, name@))
                && self.spec_by_name()[(requested_module_type@, name@)] is Alias),
    {
        match self.by_name.get(requested_module_type, name) {
            Some(SymbolicModule::Alias(_)) => true,
            _ => false,
        }
    }

    /// The id of the module that `name` under `requested_module_type`
    /// stands for, following aliases; `None` where a name on the way is
    /// not registered. The chain of aliases must end.
    pub fn get_id(&self, name: &str, requested_module_type: &RequestedModuleType) -> (r: Option<
        usize,
    >)
        requires
            self.wf(),
            chain_ends(
                self.spec_by_name(),
                requested_module_type@,
                name@,
                self.spec_names_added() + 1,
            ),
        ensures
            r == resolve_id(
                self.spec_by_name(),
                requested_module_type@,
                name@,
                self.spec_names_added() + 1,
            ),
    {
        let ghost m = self.by_name@;
        let ghost ty = requested_module_type@;
        let ghost total = (self.by_name.spec_len() + 1) as nat;
        let first = match self.by_name.get(requested_module_type, name) {
            Some(s) => s,
            None => {
                return None;
            },
        };
        let mut mod_name: &str = match first {
            SymbolicModule::Mod(mod_id) => {
                return Some(*mod_id);
            },
            SymbolicModule::Alias(target) => target.as_str(),
        };
        let ghost mut fuel: nat = (total - 1) as nat;
        loop
            invariant
                self.wf(),
                m == self.by_name@,
                total == self.by_name.spec_len() + 1,
                ty == requested_module_type@,
                chain_ends(m, ty, mod_name@, fuel),
                resolve_id(m, ty, name@, total) == resolve_id(m, ty, mod_name@, fuel),
            decreases fuel,
        {
            let symbolic = match self.by_name.get(requested_module_type, mod_name) {
                Some(s) => s,
                None => {
                    return None;
                },
            };
            match symbolic {
                SymbolicModule::Alias(target) => {
                    proof {
                        fuel = (fuel - 1) as nat;
                    }
                    mod_name = target.as_str();
                },
                SymbolicModule::Mod(mod_id) => {
                    return Some(*mod_id);
                },
            }
        }
    }

    /// Whether `specifier` under `requested_module_type` resolves to a
    /// module.
    pub fn is_registered(&self, specifier: &str, requested_module_type: &RequestedModuleType) -> (r: bool)
        requires
            self.wf(),
            chain_ends(
                self.spec_by_name(),
                requested_module_type@,
                specifier@,
                self.spec_names_added() + 1,
            ),
        ensures
            r == resolve_id(
                self.spec_by_name(),
                requested_module_type@,
                specifier@,
                self.spec_names_added() + 1,
            ) is Some,
    {
        self.get_id(specifier, requested_module_type).is_some()
    }

    /// Removes `name` under `requested_module_type` and, where it is an
    /// alias, every name its chain goes through; returns the id the chain
    /// ends at. Removing the main module clears the main module. The chain
    /// of aliases must end.
    pub fn remove_id(&mut self, name: &str, requested_module_type: &RequestedModuleType, main: bool) -> (r:
        Option<usize>)
        requires
            old(self).wf(),
            chain_ends(
                old(self).spec_by_name(),
                requested_module_type@,
                name@,
                old(self).spec_names_added() + 1,
            ),
        ensures
            final(self).wf(),
            (final(self).spec_by_name(), r) == remove_chain(
                old(self).spec_by_name(),
                requested_module_type@,
                name@,
                old(self).spec_names_added() + 1,
            ),
            final(self).info == old(self).info,
            final(self).next_load_id == old(self).next_load_id,
            final(self).main_module_id == if r is Some && main {
                None
            } else {
                old(self).main_module_id
            },
            final(self).spec_names_added() == old(self).spec_names_added(),
            all_chains_end(*old(self)) ==> all_chains_end(*final(self)),
            ids_have_records(*old(self)) ==> ids_have_records(*final(self)),
    {
        let r = self.remove_id_inner(name, requested_module_type, main);
        proof {
            let m = old(self).spec_by_name();
            let f = (old(self).spec_names_added() + 1) as nat;
            lemma_remove_chain_keeps(m, requested_module_type@, name@, f);
            assert(self.spec_by_name() == remove_chain(m, requested_module_type@, name@, f).0);
            if all_chains_end(*old(self)) {
                assert forall|t2: RequestedModuleTypeView, n2: Seq<char>| #[trigger] chain_ends(
                    self.spec_by_name(),
                    t2,
                    n2,
                    self.spec_names_added() + 1,
                ) by {
                    assert(chain_ends(m, t2, n2, f));
                }
            }
            if ids_have_records(*old(self)) {
                assert forall|k: ModuleKey| #[trigger] self.spec_by_name().contains_key(k)
                    && self.spec_by_name()[k] is Mod implies self.spec_by_name()[k]->Mod_0
                    < self.info@.len() by {
                    assert(m.contains_key(k));
                }
            }
        }
        r
    }

    /// Removes the chain of `name` (see [`ModuleMapData::remove_id`]).
    fn remove_id_inner(&mut self, name: &str, requested_module_type: &RequestedModuleType, main: bool) -> (r:
        Option<usize>)
        requires
            old(self).wf(),
            chain_ends(
                old(self).spec_by_name(),
                requested_module_type@,
                name@,
                old(self).spec_names_added() + 1,
            ),
        ensures
            final(self).wf(),
            (final(self).spec_by_name(), r) == remove_chain(
                old(self).spec_by_name(),
                requested_module_type@,
                name@,
                old(self).spec_names_added() + 1,
            ),
            final(self).info == old(self).info,
            final(self).next_load_id == old(self).next_load_id,
            final(self).main_module_id == if r is Some && main {
                None
            } else {
                old(self).main_module_id
            },
            final(self).spec_names_added() == old(self).spec_names_added(),
    {
        let ghost ty = requested_module_type@;
        let ghost total = (self.by_name.spec_len() + 1) as nat;
        let ghost m0 = self.by_name@;
        let first = match self.by_name.remove(requested_module_type, name) {
            Some(s) => s,
            None => {
                return None;
            },
        };
        let mod_id = match first {
            SymbolicModule::Mod(mod_id) => mod_id,
            SymbolicModule::Alias(target) => {
                proof {
                    lemma_chain_ends_after_removal(m0, ty, name@, total);
                }
                let mut mod_name = target;
                let ghost mut fuel: nat = (total - 1) as nat;
                loop
                    invariant
                        self.wf(),
                        ty == requested_module_type@,
                        m0 == old(self).by_name@,
                        total == old(self).by_name.spec_len() + 1,
                        self.info == old(self).info,
                        self.next_load_id == old(self).next_load_id,
                        self.main_module_id == old(self).main_module_id,
                        self.by_name.spec_len() == old(self).by_name.spec_len(),
                        chain_ends(self.by_name@, ty, mod_name@, fuel),
                        remove_chain(m0, ty, name@, total) == remove_chain(
                            self.by_name@,
                            ty,
                            mod_name@,
                            fuel,
                        ),
                    decreases fuel,
                {
                    let ghost before = self.by_name@;
                    let symbolic = match self.by_name.remove(requested_module_type, mod_name.as_str()) {
                        Some(s) => s,
                        None => {
                            return None;
                        },
                    };
                    match symbolic {
                        SymbolicModule::Alias(t) => {
                            proof {
                                lemma_chain_ends_after_removal(before, ty, mod_name@, fuel);
                                fuel = (fuel - 1) as nat;
                            }
                            mod_name = t;
                        },
                        SymbolicModule::Mod(id) => {
                            if main {
                                self.main_module_id = None;
                            }
                            return Some(id);
                        },
                    }
                }
            },
        };
        if main {
            self.main_module_id = None;
        }
        Some(mod_id)
    }

    /// The records in snapshot form: the load id, the main module, the
    /// modules, and one entry per registered name.
    pub fn serialize_for_snapshotting(self) -> (r: ModuleMapSnapshotData)
        requires
            self.wf(),
        ensures
            r.next_load_id == self.next_load_id,
            r.main_module_id == id_to_snapshot(self.main_module_id),
            r.modules@ == self.info@,
            lists_exactly(r.by_name@, self.spec_by_name()),
    {
        let ghost names = self.by_name@;
        let main_module_id = match self.main_module_id {
            Some(x) => Some(x as i32),
            None => None,
        };
        let drained = self.by_name.drain();
        let mut by_name: Vec<(String, RequestedModuleType, SymbolicModule)> = Vec::new();
        let mut rest = drained;
        let ghost all = rest@;
        let mut i: usize = 0;
        let n = rest.len();
        while i < n
            invariant
                n == all.len(),
                i <= n,
                rest@ == all.skip(i as int),
                by_name@.len() == i,
                forall|j: int|
                    0 <= j < i ==> entry_key(#[trigger] by_name@[j]) == (all[j].0@, all[j].1@)
                        && by_name@[j].2 == all[j].2,
            decreases n - i,
        {
            let (ty, name, module) = rest.remove(0);
            proof {
                assert(all.skip(i as int)[0] == all[i as int]);
                assert(all.skip(i + 1) =~= all.skip(i as int).skip(1));
            }
            by_name.push((name, ty, module));
            i = i + 1;
        }
        proof {
            assert forall|key: ModuleKey| #[trigger] names.contains_key(key) implies exists|i: int|
                0 <= i < by_name@.len() && entry_key(by_name@[i]) == key by {
                let k = choose|k: int| 0 <= k < all.len() && all[k].0@ == key.0 && all[k].1@ == key.1;
                assert(entry_key(by_name@[k]) == key);
            }
            assert forall|a: int, b: int|
                0 <= a < b < by_name@.len() implies entry_key(#[trigger] by_name@[a]) != entry_key(
                #[trigger] by_name@[b],
            ) by {
                assert(entry_key(by_name@[a]) == (all[a].0@, all[a].1@));
                assert(entry_key(by_name@[b]) == (all[b].0@, all[b].1@));
            }
        }
        ModuleMapSnapshotData {
            next_load_id: self.next_load_id,
            main_module_id,
            modules: self.info,
            by_name,
        }
    }

    /// Takes over the records of a snapshot: the load id, the main module
    /// and the modules replace those held; the names of the snapshot are
    /// registered in order.
    pub fn update_with_snapshotted_data(&mut self, data: ModuleMapSnapshotData)
        requires
            old(self).wf(),
            old(self).spec_names_added() + data.by_name@.len() <= usize::MAX,
        ensures
            final(self).wf(),
            final(self).next_load_id == data.next_load_id,
            final(self).main_module_id == id_from_snapshot(data.main_module_id),
            final(self).info@ == data.modules@,
            final(self).spec_by_name() == register_all(old(self).spec_by_name(), data.by_name@),
    {
        self.next_load_id = data.next_load_id;
        self.main_module_id = match data.main_module_id {
            Some(x) => Some(x as usize),
            None => None,
        };
        self.info = data.modules;
        let entries = data.by_name;
        let ghost all = entries@;
        let ghost start = self.by_name@;
        let ghost next_load_id = self.next_load_id;
        let ghost main_module_id = self.main_module_id;
        let ghost info = self.info@;
        let ghost added = self.by_name.spec_len();
        let mut rest = entries;
        let n = rest.len();
        let mut i: usize = 0;
        while i < n
            invariant
                n == all.len(),
                i <= n,
                rest@ == all.skip(i as int),
                self.by_name.wf(),
                self.by_name@ == register_all(start, all.take(i as int)),
                self.by_name.spec_len() <= added + i,
                added + n <= usize::MAX,
                self.next_load_id == next_load_id,
                self.main_module_id == main_module_id,
                self.info@ == info,
            decreases n - i,
        {
            let (name, ty, module) = rest.remove(0);
            proof {
                assert(all.skip(i as int)[0] == all[i as int]);
                assert(all.skip(i + 1) =~= all.skip(i as int).skip(1));
                assert(all.take(i + 1).drop_last() =~= all.take(i as int));
            }
            self.by_name.insert(&ty, name, module);
            i = i + 1;
        }
        assert(all.take(n as int) =~= all);
    }

    /// The first step of registering a fetched module, asked for as
    /// `specified` and found under `found` where that differs: the
    /// redirect is registered as an alias of the found name; returns the
    /// name the module goes by and its id where it is registered already.
    /// Looking the name up afterwards must end.
    pub fn register_fetched(
        &mut self,
        specified: String,
        found: Option<String>,
        requested_module_type: &RequestedModuleType,
    ) -> (r: (String, Option<usize>))
        requires
            old(self).wf(),
            old(self).spec_names_added() + 1 < usize::MAX,
            chain_ends(
                fetched_names(old(self).spec_by_name(), requested_module_type@, specified, found),
                requested_module_type@,
                fetched_name(specified, found)@,
                fetched_names_added(
                    old(self).spec_by_name(),
                    old(self).spec_names_added(),
                    requested_module_type@,
                    specified,
                    found,
                ) + 1,
            ),
        ensures
            final(self).wf(),
            final(self).spec_by_name() == fetched_names(
                old(self).spec_by_name(),
                requested_module_type@,
                specified,
                found,
            ),
            r.0@ == fetched_name(specified, found)@,
            r.1 == resolve_id(
                final(self).spec_by_name(),
                requested_module_type@,
                r.0@,
                final(self).spec_names_added() + 1,
            ),
            final(self).spec_names_added() == fetched_names_added(
                old(self).spec_by_name(),
                old(self).spec_names_added(),
                requested_module_type@,
                specified,
                found,
            ),
            final(self).info == old(self).info,
            final(self).main_module_id == old(self).main_module_id,
            final(self).next_load_id == old(self).next_load_id,
    {
        let name = match found {
            Some(found) => {
                let target = found.clone();
                self.alias(specified, requested_module_type, target);
                found
            },
            None => specified,
        };
        let id = self.get_id(name.as_str(), requested_module_type);
        (name, id)
    }

    /// Whether following aliases from `name` under `ty` ends within the
    /// steps that a lookup takes.
    fn chain_ends_within(&self, ty: &RequestedModuleType, name: &str) -> (r: bool)
        requires
            self.wf(),
        ensures
            r == chain_ends(self.spec_by_name(), ty@, name@, self.spec_names_added() + 1),
    {
        let ghost m = self.spec_by_name();
        let ghost total = (self.spec_names_added() + 1) as nat;
        let mut rest: usize = self.by_name.len();
        let mut current: &str = name;
        loop
            invariant
                self.wf(),
                m == self.spec_by_name(),
                total == self.spec_names_added() + 1,
                rest <= self.by_name.spec_len(),
                chain_ends(m, ty@, name@, total) == chain_ends(m, ty@, current@, (rest + 1) as nat),
            decreases rest,
        {
            match self.by_name.get(ty, current) {
                None => {
                    return true;
                },
                Some(SymbolicModule::Mod(_)) => {
                    assert(chain_ends(m, ty@, current@, (rest + 1) as nat));
                    return true;
                },
                Some(SymbolicModule::Alias(target)) => {
                    if rest == 0 {
                        let next = self.by_name.get(ty, target.as_str());
                        proof {
                            assert(chain_ends(m, ty@, current@, 1) == chain_ends(m, ty@, target@, 0));
                        }
                        return next.is_none();
                    }
                    assert(chain_ends(m, ty@, current@, (rest + 1) as nat) == chain_ends(
                        m,
                        ty@,
                        target@,
                        rest as nat,
                    ));
                    rest = rest - 1;
                    current = target.as_str();
                },
            }
        }
    }

    /// Whether every lookup in the map ends and every module id that a name
    /// stands for has a record: what walking the module graph relies on.
    pub fn lookups_are_sound(&self) -> (r: bool)
        requires
            self.wf(),
        ensures
            r == (all_chains_end(*self) && ids_have_records(*self)),
    {
        let n_sub = self.by_name.submaps.len();
        let mut i: usize = 0;
        while i < n_sub
            invariant
                self.wf(),
                n_sub == self.by_name.submaps@.len(),
                i <= n_sub,
                forall|i2: int, k: Seq<char>|
                    0 <= i2 < i && #[trigger] self.by_name.submaps@[i2]@.contains_key(k)
                        ==> name_is_sound(*self, (self.by_name.map_index@[i2]@, k)),
            decreases n_sub - i,
        {
            let keys = self.by_name.submaps[i].keys();
            let ty = &self.by_name.map_index[i];
            let mut j: usize = 0;
            while j < keys.len()
                invariant
                    self.wf(),
                    n_sub == self.by_name.submaps@.len(),
                    i < n_sub,
                    *ty == self.by_name.map_index@[i as int],
                    j <= keys@.len(),
                    forall|j2: int| 0 <= j2 < keys@.len() ==> self.by_name.submaps@[i as int]@.contains_key(
                        #[trigger] keys@[j2]@,
                    ),
                    forall|k: Seq<char>|
                        #[trigger] self.by_name.submaps@[i as int]@.contains_key(k) ==> exists|j2: int|
                            0 <= j2 < keys@.len() && keys@[j2]@ == k,
                    forall|j2: int| 0 <= j2 < j ==> name_is_sound(*self, (ty@, #[trigger] keys@[j2]@)),
                    forall|i2: int, k: Seq<char>|
                        0 <= i2 < i && #[trigger] self.by_name.submaps@[i2]@.contains_key(k)
                            ==> name_is_sound(*self, (self.by_name.map_index@[i2]@, k)),
                decreases keys@.len() - j,
            {
                let name = keys[j].as_str();
                proof {
                    assert(self.by_name.submaps@[i as int]@.contains_key(keys@[j as int]@));
                    assert(self.spec_by_name().contains_key((ty@, name@)));
                }
                if let Some(SymbolicModule::Mod(id)) = self.by_name.get(ty, name) {
                    if *id >= self.info.len() {
                        return false;
                    }
                }
                if !self.chain_ends_within(ty, name) {
                    return false;
                }
                j = j + 1;
            }
            proof {
                assert forall|i2: int, k: Seq<char>|
                    0 <= i2 < i + 1 && #[trigger] self.by_name.submaps@[i2]@.contains_key(k)
                        implies name_is_sound(*self, (self.by_name.map_index@[i2]@, k)) by {
                    if i2 == i {
                        let j2 = choose|j2: int| 0 <= j2 < keys@.len() && keys@[j2]@ == k;
                        assert(name_is_sound(*self, (ty@, keys@[j2]@)));
                    }
                }
            }
            i = i + 1;
        }
        proof {
            assert forall|ty: RequestedModuleTypeView, name: Seq<char>| #[trigger] chain_ends(
                self.spec_by_name(),
                ty,
                name,
                self.spec_names_added() + 1,
            ) by {
                if self.spec_by_name().contains_key((ty, name)) {
                    let kk = (ty, name);
                    assert(self.by_name@.contains_key(kk));
                    let i2 = choose|i2: int|
                        0 <= i2 < self.by_name.submaps@.len() && self.by_name.map_index@[i2]@ == kk.0
                            && self.by_name.submaps@[i2]@.contains_key(kk.1);
                    assert(name_is_sound(*self, (self.by_name.map_index@[i2]@, name)));
                }
            }
            assert forall|k: ModuleKey| #[trigger] self.spec_by_name().contains_key(k)
                && self.spec_by_name()[k] is Mod implies self.spec_by_name()[k]->Mod_0
                < self.info@.len() by {
                let i2 = choose|i2: int|
                    0 <= i2 < self.by_name.submaps@.len() && self.by_name.map_index@[i2]@ == k.0
                        && self.by_name.submaps@[i2]@.contains_key(k.1);
                assert(name_is_sound(*self, (self.by_name.map_index@[i2]@, k.1)));
            }
        }
        true
    }

    /// Takes the id for a new recursive load: one more than the count of
    /// loads so far, which it then becomes.
    pub fn next_load_id(&mut self) -> (id: i32)
        requires
            old(self).next_load_id < i32::MAX,
        ensures
            id == old(self).next_load_id + 1,
            final(self).next_load_id == old(self).next_load_id + 1,
            final(self).info == old(self).info,
            final(self).spec_by_name() == old(self).spec_by_name(),
            final(self).spec_names_added() == old(self).spec_names_added(),
            final(self).main_module_id == old(self).main_module_id,
            final(self).wf() == old(self).wf(),
    {
        let id = self.next_load_id;
        self.next_load_id = id + 1;
        id + 1
    }

    /// Checks a module about to be registered under `name`: a main module
    /// is refused while there is one already, with an error naming both.
    pub fn check_main_module(&self, name: &str, main: bool) -> (r: Result<(), JsNativeError>)
        requires
            main ==> (self.main_module_id matches Some(id) ==> id < self.info@.len()),
        ensures
            r is Err <==> main && self.main_module_id is Some,
            r matches Err(e) ==> e.spec_class()@ == "Error"@ && e.spec_message()
                == second_main_message(name@, self.info@[self.main_module_id->0 as int].name@),
    {
        if main {
            if let Some(main_module) = self.main_module_id {
                let main_name = self.get_name_by_id(main_module).unwrap();
                let quoted_name = debug_quoted(name);
                let quoted_main = debug_quoted(main_name.as_str());
                return Err(second_main_error(quoted_name.as_str(), quoted_main.as_str()));
            }
        }
        Ok(())
    }

    /// The name of the module with id `id`.
    pub fn get_name_by_id(&self, id: usize) -> (r: Option<String>)
        ensures
            match r {
                Some(n) => id < self.info@.len() && n@ == self.info@[id as int].name@,
                None => id >= self.info@.len(),
            },
    {
        if id < self.info.len() {
            Some(self.info[id].name.clone())
        } else {
            None
        }
    }
}

/// Removing any name keeps every chain ending: where the chain reaches the
/// removed name it now ends there.
proof fn lemma_chain_ends_remove(
    m: Map<ModuleKey, SymbolicModule>,
    ty: RequestedModuleTypeView,
    name: Seq<char>,
    fuel: nat,
    key: ModuleKey,
)
    requires
        chain_ends(m, ty, name, fuel),
    ensures
        chain_ends(m.remove(key), ty, name, fuel),
    decreases fuel,
{
    if m.remove(key).contains_key((ty, name)) && fuel > 0 {
        match m[(ty, name)] {
            SymbolicModule::Mod(_) => {},
            SymbolicModule::Alias(target) => {
                lemma_chain_ends_remove(m, ty, target@, (fuel - 1) as nat, key);
            },
        }
    }
}

/// Removing the first link of an alias chain keeps the rest of the chain
/// ending.
proof fn lemma_chain_ends_after_removal(
    m: Map<ModuleKey, SymbolicModule>,
    ty: RequestedModuleTypeView,
    name: Seq<char>,
    fuel: nat,
)
    requires
        chain_ends(m, ty, name, fuel),
        m.contains_key((ty, name)),
        m[(ty, name)] is Alias,
    ensures
        fuel > 0,
        chain_ends(m.remove((ty, name)), ty, m[(ty, name)]->Alias_0@, (fuel - 1) as nat),
{
    let target = m[(ty, name)]->Alias_0;
    lemma_chain_ends_remove(m, ty, target@, (fuel - 1) as nat, (ty, name));
}

/// Adding a name that was not in the map changes nothing on a chain that
/// resolves: such a chain never reaches a missing name.
pub proof fn lemma_resolve_after_insert(
    m: Map<ModuleKey, SymbolicModule>,
    ty: RequestedModuleTypeView,
    name: Seq<char>,
    fuel: nat,
    key: ModuleKey,
    value: SymbolicModule,
)
    requires
        resolve_id(m, ty, name, fuel) is Some,
        !m.contains_key(key),
    ensures
        resolve_id(m.insert(key, value), ty, name, fuel) == resolve_id(m, ty, name, fuel),
        chain_ends(m.insert(key, value), ty, name, fuel),
    decreases fuel,
{
    match m[(ty, name)] {
        SymbolicModule::Mod(_) => {},
        SymbolicModule::Alias(target) => {
            lemma_resolve_after_insert(m, ty, target@, (fuel - 1) as nat, key, value);
        },
    }
}

/// Removing along a chain only takes names out of the map.
pub proof fn lemma_remove_chain_shrinks(
    m: Map<ModuleKey, SymbolicModule>,
    ty: RequestedModuleTypeView,
    name: Seq<char>,
    fuel: nat,
)
    ensures
        forall|k: ModuleKey| #[trigger] remove_chain(m, ty, name, fuel).0.contains_key(k)
            ==> m.contains_key(k),
    decreases fuel,
{
    if fuel > 0 && m.contains_key((ty, name)) {
        let rest = m.remove((ty, name));
        match m[(ty, name)] {
            SymbolicModule::Mod(_) => {},
            SymbolicModule::Alias(target) => {
                lemma_remove_chain_shrinks(rest, ty, target@, (fuel - 1) as nat);
                assert(remove_chain(m, ty, name, fuel) == remove_chain(
                    rest,
                    ty,
                    target@,
                    (fuel - 1) as nat,
                ));
                assert forall|k: ModuleKey| #[trigger]
                    remove_chain(m, ty, name, fuel).0.contains_key(k) implies m.contains_key(k) by {
                    assert(remove_chain(rest, ty, target@, (fuel - 1) as nat).0.contains_key(k));
                }
            },
        }
    }
}

/// Registering entries with distinct keys into an empty map gives exactly
/// those entries.
pub proof fn lemma_register_all_distinct(entries: Seq<(String, RequestedModuleType, SymbolicModule)>)
    requires
        forall|a: int, b: int|
            0 <= a < b < entries.len() ==> entry_key(#[trigger] entries[a]) != entry_key(
                #[trigger] entries[b],
            ),
    ensures
        forall|i: int|
            0 <= i < entries.len() ==> register_all(Map::empty(), entries).contains_key(
                entry_key(#[trigger] entries[i]),
            ) && register_all(Map::empty(), entries)[entry_key(entries[i])] == entries[i].2,
        forall|k: ModuleKey| #[trigger]
            register_all(Map::empty(), entries).contains_key(k) ==> exists|i: int|
                0 <= i < entries.len() && entry_key(entries[i]) == k,
    decreases entries.len(),
{
    if entries.len() > 0 {
        let init = entries.drop_last();
        lemma_register_all_distinct(init);
        let before = register_all(Map::empty(), init);
        let last = entries.len() - 1;
        assert forall|i: int| 0 <= i < entries.len() implies register_all(
            Map::empty(),
            entries,
        ).contains_key(entry_key(#[trigger] entries[i])) && register_all(Map::empty(), entries)[entry_key(
            entries[i],
        )] == entries[i].2 by {
            if i < last {
                assert(init[i] == entries[i]);
                assert(entry_key(entries[i]) != entry_key(entries[last]));
            }
        }
        assert forall|k: ModuleKey| #[trigger]
            register_all(Map::empty(), entries).contains_key(k) implies exists|i: int|
                0 <= i < entries.len() && entry_key(entries[i]) == k by {
            if k != entry_key(entries[last]) {
                assert(before.contains_key(k));
                let i = choose|i: int| 0 <= i < init.len() && entry_key(init[i]) == k;
                assert(init[i] == entries[i]);
            }
        }
    }
}

/// The name reached from `name` under `ty` after following `steps` aliases,
/// if each name on the way is an alias.
pub open spec fn nth_link(
    m: Map<ModuleKey, SymbolicModule>,
    ty: RequestedModuleTypeView,
    name: Seq<char>,
    steps: nat,
) -> Option<Seq<char>>
    decreases steps,
{
    if steps == 0 {
        Some(name)
    } else if m.contains_key((ty, name)) && m[(ty, name)] is Alias {
        nth_link(m, ty, m[(ty, name)]->Alias_0@, (steps - 1) as nat)
    } else {
        None
    }
}

/// A chain that ends within `fuel` steps still ends, within what is left,
/// from any name it reaches.
proof fn lemma_chain_ends_along(
    m: Map<ModuleKey, SymbolicModule>,
    ty: RequestedModuleTypeView,
    name: Seq<char>,
    fuel: nat,
    steps: nat,
    reached: Seq<char>,
)
    requires
        chain_ends(m, ty, name, fuel),
        nth_link(m, ty, name, steps) == Some(reached),
    ensures
        steps <= fuel,
        chain_ends(m, ty, reached, (fuel - steps) as nat),
    decreases steps,
{
    if steps > 0 {
        let target = m[(ty, name)]->Alias_0;
        lemma_chain_ends_along(m, ty, target@, (fuel - 1) as nat, (steps - 1) as nat, reached);
    }
}

/// A chain that ends never comes back to where it started.
proof fn lemma_chain_ends_no_cycle(
    m: Map<ModuleKey, SymbolicModule>,
    ty: RequestedModuleTypeView,
    name: Seq<char>,
    fuel: nat,
    steps: nat,
)
    requires
        chain_ends(m, ty, name, fuel),
        steps > 0,
    ensures
        nth_link(m, ty, name, steps) != Some(name),
    decreases fuel,
{
    if nth_link(m, ty, name, steps) == Some(name) {
        lemma_chain_ends_along(m, ty, name, fuel, steps, name);
        lemma_chain_ends_no_cycle(m, ty, name, (fuel - steps) as nat, steps);
    }
}

/// Removing a name that a chain does not reach within `fuel` steps leaves
/// what the chain resolves to.
proof fn lemma_resolve_after_remove(
    m: Map<ModuleKey, SymbolicModule>,
    ty: RequestedModuleTypeView,
    name: Seq<char>,
    fuel: nat,
    removed: Seq<char>,
)
    requires
        forall|j: nat| j < fuel ==> #[trigger] nth_link(m, ty, name, j) != Some(removed),
    ensures
        resolve_id(m.remove((ty, removed)), ty, name, fuel) == resolve_id(m, ty, name, fuel),
    decreases fuel,
{
    if fuel > 0 {
        assert(nth_link(m, ty, name, 0) == Some(name));
        if m.contains_key((ty, name)) {
            match m[(ty, name)] {
                SymbolicModule::Mod(_) => {},
                SymbolicModule::Alias(target) => {
                    assert forall|j: nat| j < (fuel - 1) as nat implies #[trigger] nth_link(
                        m,
                        ty,
                        target@,
                        j,
                    ) != Some(removed) by {
                        assert(nth_link(m, ty, name, j + 1) == nth_link(m, ty, target@, j));
                    }
                    lemma_resolve_after_remove(m, ty, target@, (fuel - 1) as nat, removed);
                },
            }
        }
    }
}

/// Removing along a chain that ends gives the id that resolving the chain
/// gives.
pub proof fn lemma_remove_chain_resolves(
    m: Map<ModuleKey, SymbolicModule>,
    ty: RequestedModuleTypeView,
    name: Seq<char>,
    fuel: nat,
)
    requires
        chain_ends(m, ty, name, fuel),
    ensures
        remove_chain(m, ty, name, fuel).1 == resolve_id(m, ty, name, fuel),
    decreases fuel,
{
    if fuel > 0 && m.contains_key((ty, name)) {
        match m[(ty, name)] {
            SymbolicModule::Mod(_) => {},
            SymbolicModule::Alias(target) => {
                let rest = m.remove((ty, name));
                lemma_chain_ends_after_removal(m, ty, name, fuel);
                lemma_remove_chain_resolves(rest, ty, target@, (fuel - 1) as nat);
                assert forall|j: nat| j < (fuel - 1) as nat implies #[trigger] nth_link(
                    m,
                    ty,
                    target@,
                    j,
                ) != Some(name) by {
                    assert(nth_link(m, ty, name, j + 1) == nth_link(m, ty, target@, j));
                    lemma_chain_ends_no_cycle(m, ty, name, fuel, j + 1);
                }
                lemma_resolve_after_remove(m, ty, target@, (fuel - 1) as nat, name);
            },
        }
    }
}

/// Registering a module under a name keeps every chain ending, within one
/// step more where the name is new: a chain that reaches it stops there.
proof fn lemma_chain_ends_insert_mod(
    m: Map<ModuleKey, SymbolicModule>,
    ty: RequestedModuleTypeView,
    name: Seq<char>,
    fuel: nat,
    more: nat,
    key: ModuleKey,
    id: usize,
)
    requires
        chain_ends(m, ty, name, fuel),
        more >= fuel + if m.contains_key(key) {
            0nat
        } else {
            1nat
        },
    ensures
        chain_ends(m.insert(key, SymbolicModule::Mod(id)), ty, name, more),
    decreases fuel,
{
    let m2 = m.insert(key, SymbolicModule::Mod(id));
    if m2.contains_key((ty, name)) && (ty, name) != key {
        match m[(ty, name)] {
            SymbolicModule::Mod(_) => {},
            SymbolicModule::Alias(target) => {
                lemma_chain_ends_insert_mod(m, ty, target@, (fuel - 1) as nat, (more - 1) as nat, key, id);
            },
        }
    }
}

/// Removing along a chain leaves the names that stay as they were, and
/// keeps every chain ending.
pub proof fn lemma_remove_chain_keeps(
    m: Map<ModuleKey, SymbolicModule>,
    ty: RequestedModuleTypeView,
    name: Seq<char>,
    fuel: nat,
)
    ensures
        forall|k: ModuleKey| #[trigger] remove_chain(m, ty, name, fuel).0.contains_key(k)
            ==> m.contains_key(k) && remove_chain(m, ty, name, fuel).0[k] == m[k],
        forall|t2: RequestedModuleTypeView, n2: Seq<char>, f: nat|
            chain_ends(m, t2, n2, f) ==> #[trigger] chain_ends(
                remove_chain(m, ty, name, fuel).0,
                t2,
                n2,
                f,
            ),
    decreases fuel,
{
    if fuel > 0 && m.contains_key((ty, name)) {
        let rest = m.remove((ty, name));
        assert forall|t2: RequestedModuleTypeView, n2: Seq<char>, f: nat|
            chain_ends(m, t2, n2, f) implies #[trigger] chain_ends(rest, t2, n2, f) by {
            lemma_chain_ends_remove(m, t2, n2, f, (ty, name));
        }
        match m[(ty, name)] {
            SymbolicModule::Mod(_) => {},
            SymbolicModule::Alias(target) => {
                lemma_remove_chain_keeps(rest, ty, target@, (fuel - 1) as nat);
                assert(remove_chain(m, ty, name, fuel) == remove_chain(
                    rest,
                    ty,
                    target@,
                    (fuel - 1) as nat,
                ));
                assert forall|k: ModuleKey| #[trigger]
                    remove_chain(m, ty, name, fuel).0.contains_key(k) implies m.contains_key(k)
                    && remove_chain(m, ty, name, fuel).0[k] == m[k] by {
                    assert(remove_chain(rest, ty, target@, (fuel - 1) as nat).0.contains_key(k));
                }
                assert forall|t2: RequestedModuleTypeView, n2: Seq<char>, f: nat|
                    chain_ends(m, t2, n2, f) implies #[trigger] chain_ends(
                    remove_chain(m, ty, name, fuel).0,
                    t2,
                    n2,
                    f,
                ) by {
                    assert(chain_ends(rest, t2, n2, f));
                    assert(chain_ends(remove_chain(rest, ty, target@, (fuel - 1) as nat).0, t2, n2, f));
                }
            },
        }
    }
}

} // verus!

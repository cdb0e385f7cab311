//! A recursive load of a module graph: after a module is registered, which
//! of the modules it imports, directly or through modules already
//! registered, still have to be loaded; and the phases the load goes
//! through until the whole graph is in the module map.
use vstd::prelude::*;
use crate::module_map_data::{
    all_chains_end, chain_ends, ids_have_records, request_key, resolve_id, ModuleInfo, ModuleKey, ModuleMapData, ModuleRequest,
    SymbolicModule,
};
use crate::modules::{RequestedModuleType, RequestedModuleTypeView};
use crate::text::str_eq;

verus! {

/// The id of the module a request finds in the map, if it is registered.
pub open spec fn lookup(data: ModuleMapData, r: ModuleRequest) -> Option<usize> {
    resolve_id(
        data.spec_by_name(),
        r.requested_module_type@,
        r.specifier@,
        data.spec_names_added() + 1,
    )
}

/// The requests that the source of module `id` makes.
pub open spec fn requests_of(data: ModuleMapData, id: usize) -> Seq<ModuleRequest> {
    data.info@[id as int].requests@
}

/// The requests of the modules `ids`, in order.
pub open spec fn requests_of_all(data: ModuleMapData, ids: Seq<usize>) -> Seq<ModuleRequest>
    decreases ids.len(),
{
    if ids.len() == 0 {
        Seq::empty()
    } else {
        requests_of_all(data, ids.drop_last()) + requests_of(data, ids.last())
    }
}

/// The requests of all modules on record.
pub open spec fn recorded_requests(info: Seq<ModuleInfo>) -> Seq<ModuleRequest>
    decreases info.len(),
{
    if info.len() == 0 {
        Seq::empty()
    } else {
        recorded_requests(info.drop_last()) + info.last().requests@
    }
}

/// Whether a load follows a request: it was not visited before, and no
/// load found its module under its specifier by a redirect.
pub open spec fn follows(
    visited: Set<ModuleKey>,
    found_by_redirect: Set<Seq<char>>,
    r: ModuleRequest,
) -> bool {
    !visited.contains(request_key(r)) && !found_by_redirect.contains(r.specifier@)
}

/// Module `order[t]` is what request `j` of module `order[i]`, an earlier
/// one, leads to.
pub open spec fn walk_step(
    data: ModuleMapData,
    visited: Set<ModuleKey>,
    found_by_redirect: Set<Seq<char>>,
    order: Seq<usize>,
    i: int,
    j: int,
    t: int,
) -> bool {
    &&& 0 <= i < t
    &&& 0 <= j < requests_of(data, order[i]).len()
    &&& follows(visited, found_by_redirect, requests_of(data, order[i])[j])
    &&& lookup(data, requests_of(data, order[i])[j]) == Some(order[t])
}

/// Module `order[t]` is what a followed request of an earlier module leads
/// to.
pub open spec fn reached_from_earlier(
    data: ModuleMapData,
    visited: Set<ModuleKey>,
    found_by_redirect: Set<Seq<char>>,
    order: Seq<usize>,
    t: int,
) -> bool {
    exists|i: int, j: int| #[trigger] walk_step(data, visited, found_by_redirect, order, i, j, t)
}

/// The outcome of walking the registered part of the module graph from
/// module `root`, with `visited` the requests visited before and
/// `found_by_redirect` the specifiers loaded by redirect: `order` are the
/// modules walked, `root` first, each other one reached by a request that
/// an earlier one makes and the load follows; every followed request of a
/// walked module that is registered leads to a walked module, and every one
/// that is not is among `loads`, which hold each such request once and
/// nothing else. Afterwards, the visited requests are those visited before
/// and those followed.
pub open spec fn walk_result(
    data: ModuleMapData,
    visited: Set<ModuleKey>,
    found_by_redirect: Set<Seq<char>>,
    root: usize,
    order: Seq<usize>,
    visited_after: Set<ModuleKey>,
    loads: Seq<ModuleRequest>,
) -> bool {
    let followed = requests_of_all(data, order);
    &&& order.len() >= 1
    &&& order[0] == root
    &&& forall|t: int|
        1 <= t < order.len() ==> #[trigger] reached_from_earlier(
            data,
            visited,
            found_by_redirect,
            order,
            t,
        )
    &&& forall|r: ModuleRequest|
        #[trigger] followed.contains(r) && follows(visited, found_by_redirect, r) && lookup(
            data,
            r,
        ) is Some ==> order.contains(lookup(data, r)->0)
    &&& forall|r: ModuleRequest|
        #[trigger] followed.contains(r) && follows(visited, found_by_redirect, r) && lookup(
            data,
            r,
        ) is None ==> exists|l: int|
            0 <= l < loads.len() && request_key(#[trigger] loads[l]) == request_key(r)
    &&& forall|l: int|
        0 <= l < loads.len() ==> follows(visited, found_by_redirect, #[trigger] loads[l])
            && lookup(data, loads[l]) is None && exists|r: ModuleRequest|
            #[trigger] followed.contains(r) && request_key(r) == request_key(loads[l])
    &&& forall|a: int, b: int|
        0 <= a < b < loads.len() ==> request_key(#[trigger] loads[a]) != request_key(
            #[trigger] loads[b],
        )
    &&& forall|k: ModuleKey|
        #[trigger] visited_after.contains(k) <==> visited.contains(k) || exists|r: ModuleRequest|
            #[trigger] followed.contains(r) && follows(visited, found_by_redirect, r)
                && request_key(r) == k
}

/// What holds of the requests `done` that a walk has gone through so far:
/// the visited requests are those visited before and those of `done` that
/// the walk followed; each followed one that is registered leads to a
/// module among `ids`, and each one that is not is among `loads`, which
/// hold each such request once and nothing else.
pub open spec fn walk_so_far(
    data: ModuleMapData,
    visited_before: Set<ModuleKey>,
    found_by_redirect: Set<Seq<char>>,
    ids: Seq<usize>,
    done: Seq<ModuleRequest>,
    visited: Set<ModuleKey>,
    loads: Seq<ModuleRequest>,
) -> bool {
    &&& forall|k: ModuleKey|
        #[trigger] visited.contains(k) <==> visited_before.contains(k) || exists|r: ModuleRequest|
            #[trigger] done.contains(r) && follows(visited_before, found_by_redirect, r)
                && request_key(r) == k
    &&& forall|r: ModuleRequest|
        #[trigger] done.contains(r) && follows(visited_before, found_by_redirect, r) && lookup(
            data,
            r,
        ) is Some ==> ids.contains(lookup(data, r)->0)
    &&& forall|r: ModuleRequest|
        #[trigger] done.contains(r) && follows(visited_before, found_by_redirect, r) && lookup(
            data,
            r,
        ) is None ==> exists|l: int|
            0 <= l < loads.len() && request_key(#[trigger] loads[l]) == request_key(r)
    &&& forall|l: int|
        0 <= l < loads.len() ==> follows(visited_before, found_by_redirect, #[trigger] loads[l])
            && lookup(data, loads[l]) is None && exists|r: ModuleRequest|
            #[trigger] done.contains(r) && request_key(r) == request_key(loads[l])
    &&& forall|a: int, b: int|
        0 <= a < b < loads.len() ==> request_key(#[trigger] loads[a]) != request_key(
            #[trigger] loads[b],
        )
}

/// A name that resolves stands, at the end of its chain, for a module.
proof fn lemma_resolved_id_is_registered(
    m: Map<ModuleKey, SymbolicModule>,
    ty: RequestedModuleTypeView,
    name: Seq<char>,
    fuel: nat,
)
    ensures
        resolve_id(m, ty, name, fuel) matches Some(id) ==> exists|k: ModuleKey|
            #[trigger] m.contains_key(k) && m[k] == SymbolicModule::Mod(id),
    decreases fuel,
{
    if fuel > 0 && m.contains_key((ty, name)) {
        match m[(ty, name)] {
            SymbolicModule::Mod(_) => {
                assert(m.contains_key((ty, name)));
            },
            SymbolicModule::Alias(target) => {
                lemma_resolved_id_is_registered(m, ty, target@, (fuel - 1) as nat);
            },
        }
    }
}

/// A request that finds a module finds one on record.
proof fn lemma_lookup_in_range(data: ModuleMapData, r: ModuleRequest)
    requires
        ids_have_records(data),
    ensures
        lookup(data, r) matches Some(id) ==> id < data.info@.len(),
{
    lemma_resolved_id_is_registered(
        data.spec_by_name(),
        r.requested_module_type@,
        r.specifier@,
        data.spec_names_added() + 1,
    );
}

/// The requests of a module on record are among all recorded requests.
proof fn lemma_recorded_requests_contains(info: Seq<ModuleInfo>, id: int, j: int)
    requires
        0 <= id < info.len(),
        0 <= j < info[id].requests@.len(),
    ensures
        recorded_requests(info).contains(info[id].requests@[j]),
    decreases info.len(),
{
    let init = recorded_requests(info.drop_last());
    let last = info.last().requests@;
    if id == info.len() - 1 {
        assert((init + last)[init.len() + j] == last[j]);
    } else {
        lemma_recorded_requests_contains(info.drop_last(), id, j);
        let k = choose|k: int| 0 <= k < init.len() && init[k] == info[id].requests@[j];
        assert((init + last)[k] == init[k]);
    }
}

/// Every request of a module among `ids` is among their requests.
proof fn lemma_requests_of_all_contains(data: ModuleMapData, ids: Seq<usize>, i: int, j: int)
    requires
        0 <= i < ids.len(),
        0 <= j < requests_of(data, ids[i]).len(),
    ensures
        requests_of_all(data, ids).contains(requests_of(data, ids[i])[j]),
    decreases ids.len(),
{
    let init = requests_of_all(data, ids.drop_last());
    let last = requests_of(data, ids.last());
    if i == ids.len() - 1 {
        assert((init + last)[init.len() + j] == last[j]);
    } else {
        lemma_requests_of_all_contains(data, ids.drop_last(), i, j);
        let k = choose|k: int| 0 <= k < init.len() && init[k] == requests_of(data, ids[i])[j];
        assert((init + last)[k] == init[k]);
    }
}

/// Adding a request to the visited ones adds its key.
proof fn lemma_visited_push(vs: Seq<ModuleRequest>, r: ModuleRequest)
    ensures
        vs.push(r).map_values(|x: ModuleRequest| request_key(x)).to_set() == vs.map_values(
            |x: ModuleRequest| request_key(x),
        ).to_set().insert(request_key(r)),
{
    let keys = vs.map_values(|x: ModuleRequest| request_key(x));
    assert(vs.push(r).map_values(|x: ModuleRequest| request_key(x)) =~= keys.push(request_key(r)));
    keys.lemma_push_to_set_commute(request_key(r));
}

/// Distinct keys among the recorded ones are no more than the recorded
/// requests.
proof fn lemma_pushed_bound(pushed: Seq<ModuleKey>, all: Seq<ModuleKey>)
    requires
        pushed.no_duplicates(),
        forall|i: int| 0 <= i < pushed.len() ==> all.contains(#[trigger] pushed[i]),
    ensures
        pushed.len() <= all.len(),
{
    pushed.unique_seq_to_set();
    assert(pushed.to_set().subset_of(all.to_set())) by {
        assert forall|x: ModuleKey| pushed.to_set().contains(x) implies all.to_set().contains(x) by {
            let i = choose|i: int| 0 <= i < pushed.len() && pushed[i] == x;
            assert(all.contains(pushed[i]));
        }
    }
    vstd::set_lib::lemma_len_subset(pushed.to_set(), all.to_set());
    all.lemma_cardinality_of_set();
}

/// Going through a request that the walk follows: it becomes visited, and
/// leads to the module it finds or becomes a load.
#[verifier::spinoff_prover]
#[verifier::rlimit(50)]
proof fn lemma_follow_step(
    data: ModuleMapData,
    v0: Set<ModuleKey>,
    alias: Set<Seq<char>>,
    ids: Seq<usize>,
    ids2: Seq<usize>,
    done: Seq<ModuleRequest>,
    r: ModuleRequest,
    visited: Set<ModuleKey>,
    visited2: Set<ModuleKey>,
    loads: Seq<ModuleRequest>,
    loads2: Seq<ModuleRequest>,
)
    requires
        walk_so_far(data, v0, alias, ids, done, visited, loads),
        !visited.contains(request_key(r)),
        !alias.contains(r.specifier@),
        visited2 == visited.insert(request_key(r)),
        lookup(data, r) matches Some(x) ==> ids2 == ids.push(x) && loads2 == loads,
        lookup(data, r) is None ==> ids2 == ids && loads2.len() == loads.len() + 1 && loads2.drop_last()
            == loads && request_key(loads2.last()) == request_key(r),
    ensures
        walk_so_far(data, v0, alias, ids2, done.push(r), visited2, loads2),
{
    let done2 = done.push(r);
    assert(!v0.contains(request_key(r)));
    assert(follows(v0, alias, r));
    assert(done2.contains(r)) by {
        assert(done2[done.len() as int] == r);
    }
    assert forall|x: ModuleRequest| #[trigger] done2.contains(x) implies done.contains(x) || x == r by {
        let i = choose|i: int| 0 <= i < done2.len() && done2[i] == x;
        if i < done.len() {
            assert(done[i] == x);
        }
    }
    assert forall|x: ModuleRequest| #[trigger] done.contains(x) implies done2.contains(x) by {
        let i = choose|i: int| 0 <= i < done.len() && done[i] == x;
        assert(done2[i] == x);
    }
    assert forall|x: usize| ids.contains(x) implies ids2.contains(x) by {
        let i = choose|i: int| 0 <= i < ids.len() && ids[i] == x;
        assert(ids2[i] == x);
    }
    if lookup(data, r) is Some {
        assert(ids2[ids.len() as int] == lookup(data, r)->0);
        assert(ids2.contains(lookup(data, r)->0));
    } else {
        assert(loads2[loads.len() as int] == loads2.last());
        assert forall|l: int| 0 <= l < loads.len() implies loads2[l] == #[trigger] loads[l] by {
            assert(loads2.drop_last()[l] == loads2[l]);
        }
    }
    assert forall|k: ModuleKey| #[trigger] visited2.contains(k) <==> v0.contains(k) || exists|
        x: ModuleRequest,
    | #[trigger] done2.contains(x) && follows(v0, alias, x) && request_key(x) == k by {
        if k == request_key(r) {
        } else if visited.contains(k) && !v0.contains(k) {
            let x = choose|x: ModuleRequest|
                #[trigger] done.contains(x) && follows(v0, alias, x) && request_key(x) == k;
            assert(done2.contains(x));
        }
    }
    assert forall|x: ModuleRequest|
        #[trigger] done2.contains(x) && follows(v0, alias, x) && lookup(data, x) is Some implies ids2.contains(
        lookup(data, x)->0,
    ) by {
        if x != r {
            assert(done.contains(x));
        }
    }
    assert forall|x: ModuleRequest|
        #[trigger] done2.contains(x) && follows(v0, alias, x) && lookup(data, x) is None implies exists|
        l: int,
    | 0 <= l < loads2.len() && request_key(#[trigger] loads2[l]) == request_key(x) by {
        if x == r {
            assert(request_key(loads2[loads.len() as int]) == request_key(x));
        } else {
            assert(done.contains(x));
            let l = choose|l: int| 0 <= l < loads.len() && request_key(#[trigger] loads[l]) == request_key(x);
            if lookup(data, r) is None {
                assert(loads2[l] == loads[l]);
            }
            assert(request_key(loads2[l]) == request_key(x));
        }
    }
    assert forall|l: int| 0 <= l < loads2.len() implies follows(v0, alias, #[trigger] loads2[l])
        && lookup(data, loads2[l]) is None && exists|x: ModuleRequest|
        #[trigger] done2.contains(x) && request_key(x) == request_key(loads2[l]) by {
        if l < loads.len() {
            if lookup(data, r) is None {
                assert(loads2[l] == loads[l]);
            }
            let x = choose|x: ModuleRequest| #[trigger] done.contains(x) && request_key(x) == request_key(loads[l]);
            assert(done2.contains(x));
        } else {
            assert(request_key(loads2[l]) == request_key(r));
        }
    }
    assert forall|a: int, b: int| 0 <= a < b < loads2.len() implies request_key(#[trigger] loads2[a])
        != request_key(#[trigger] loads2[b]) by {
        if lookup(data, r) is None {
            assert(loads2[a] == loads[a]);
            if b < loads.len() {
                assert(loads2[b] == loads[b]);
            } else {
                let x = choose|x: ModuleRequest| #[trigger] done.contains(x) && request_key(x) == request_key(loads[a]);
                assert(visited.contains(request_key(loads[a])));
            }
        }
    }
}

/// Going through a request that the walk does not follow, or whose key it
/// already followed, changes nothing.
proof fn lemma_skip_step(
    data: ModuleMapData,
    v0: Set<ModuleKey>,
    alias: Set<Seq<char>>,
    ids: Seq<usize>,
    done: Seq<ModuleRequest>,
    r: ModuleRequest,
    visited: Set<ModuleKey>,
    loads: Seq<ModuleRequest>,
)
    requires
        walk_so_far(data, v0, alias, ids, done, visited, loads),
        visited.contains(request_key(r)) || alias.contains(r.specifier@),
    ensures
        walk_so_far(data, v0, alias, ids, done.push(r), visited, loads),
{
    let done2 = done.push(r);
    assert forall|x: ModuleRequest| #[trigger] done2.contains(x) implies done.contains(x) || x == r by {
        let i = choose|i: int| 0 <= i < done2.len() && done2[i] == x;
        if i < done.len() {
            assert(done[i] == x);
        }
    }
    assert forall|x: ModuleRequest| #[trigger] done.contains(x) implies done2.contains(x) by {
        let i = choose|i: int| 0 <= i < done.len() && done[i] == x;
        assert(done2[i] == x);
    }
    if follows(v0, alias, r) {
        let x = choose|x: ModuleRequest|
            #[trigger] done.contains(x) && follows(v0, alias, x) && request_key(x) == request_key(r);
        assert(lookup(data, x) == lookup(data, r));
    }
    assert forall|k: ModuleKey| #[trigger] visited.contains(k) <==> v0.contains(k) || exists|
        x: ModuleRequest,
    | #[trigger] done2.contains(x) && follows(v0, alias, x) && request_key(x) == k by {
        if visited.contains(k) && !v0.contains(k) {
            let x = choose|x: ModuleRequest|
                #[trigger] done.contains(x) && follows(v0, alias, x) && request_key(x) == k;
            assert(done2.contains(x));
        }
    }
    assert forall|l: int| 0 <= l < loads.len() implies follows(v0, alias, #[trigger] loads[l])
        && lookup(data, loads[l]) is None && exists|x: ModuleRequest|
        #[trigger] done2.contains(x) && request_key(x) == request_key(loads[l]) by {
        let x = choose|x: ModuleRequest| #[trigger] done.contains(x) && request_key(x) == request_key(loads[l]);
        assert(done2.contains(x));
    }
}

/// What a recursive load starts from.
#[derive(Debug)]
pub enum LoadInit {
    /// The specifier of the main module.
    Main(String),
    /// The specifier of a side module.
    Side(String),
    /// The specifier and referrer of a dynamic import, and the module type
    /// its import attributes ask for.
    DynamicImport(String, String, RequestedModuleType),
}

/// How far a recursive load has come.
#[derive(Clone, Copy, Debug, PartialEq, Eq, Structural)]
pub enum LoadState {
    Init,
    LoadingRoot,
    LoadingImports,
    Done,
}

/// The bookkeeping of a recursive load of a module graph: its phase, its
/// root module once known, how many module loads it has started that have
/// not finished, the requests it has visited, and the specifiers under
/// which a load found its module by a redirect.
pub struct RecursiveModuleLoad {
    id: i32,
    init: LoadInit,
    root_module_id: Option<usize>,
    state: LoadState,
    pending: usize,
    visited: Vec<ModuleRequest>,
    visited_as_alias: Vec<String>,
}

impl RecursiveModuleLoad {
    /// The keys of the requests visited.
    pub closed spec fn spec_visited(&self) -> Set<ModuleKey> {
        self.visited@.map_values(|r: ModuleRequest| request_key(r)).to_set()
    }

    /// The specifiers under which a load found its module by a redirect.
    pub closed spec fn spec_found_by_redirect(&self) -> Set<Seq<char>> {
        self.visited_as_alias@.map_values(|s: String| s@).to_set()
    }

    /// The id of the load.
    pub closed spec fn spec_id(&self) -> i32 {
        self.id
    }

    /// What the load starts from.
    pub closed spec fn spec_init(&self) -> LoadInit {
        self.init
    }

    /// The root module, once it is registered.
    pub closed spec fn spec_root_module_id(&self) -> Option<usize> {
        self.root_module_id
    }

    /// The phase of the load.
    pub closed spec fn spec_state(&self) -> LoadState {
        self.state
    }

    /// How many module loads were started and have not finished.
    pub closed spec fn spec_pending(&self) -> nat {
        self.pending as nat
    }

    /// A load with id `id` from `init`, in its first phase, with nothing
    /// visited; `root_module_id` is the root module where it is already
    /// registered.
    pub fn new(id: i32, init: LoadInit, root_module_id: Option<usize>) -> (r: Self)
        ensures
            r.spec_id() == id,
            r.spec_init() == init,
            r.spec_root_module_id() == root_module_id,
            r.spec_state() == LoadState::Init,
            r.spec_pending() == 0,
            r.spec_visited() == Set::<ModuleKey>::empty(),
            r.spec_found_by_redirect() == Set::<Seq<char>>::empty(),
    {
        let r = RecursiveModuleLoad {
            id,
            init,
            root_module_id,
            state: LoadState::Init,
            pending: 0,
            visited: Vec::new(),
            visited_as_alias: Vec::new(),
        };
        assert(r.visited@.map_values(|x: ModuleRequest| request_key(x)).to_set() =~= Set::empty());
        assert(r.visited_as_alias@.map_values(|x: String| x@).to_set() =~= Set::empty());
        r
    }

    /// The id of the load.
    pub fn id(&self) -> (r: i32)
        ensures
            r == self.spec_id(),
    {
        self.id
    }

    /// The phase of the load.
    pub fn state(&self) -> (r: LoadState)
        ensures
            r == self.spec_state(),
    {
        self.state
    }

    /// The root module, once it is registered.
    pub fn root_module_id(&self) -> (r: Option<usize>)
        ensures
            r == self.spec_root_module_id(),
    {
        self.root_module_id
    }

    /// How many module loads were started and have not finished.
    pub fn pending(&self) -> (r: usize)
        ensures
            r == self.spec_pending(),
    {
        self.pending
    }

    /// Whether the load is of a dynamic import.
    pub fn is_dynamic_import(&self) -> (r: bool)
        ensures
            r == (self.spec_init() is DynamicImport),
    {
        match self.init {
            LoadInit::DynamicImport(..) => true,
            _ => false,
        }
    }

    /// Whether the load is loading the main module itself.
    pub fn is_currently_loading_main_module(&self) -> (r: bool)
        ensures
            r == (self.spec_init() is Main && self.spec_state() == LoadState::LoadingRoot),
    {
        !self.is_dynamic_import() && match self.init {
            LoadInit::Main(..) => true,
            _ => false,
        } && self.state == LoadState::LoadingRoot
    }

    /// The module type asked for the root module: that of a dynamic import,
    /// none for a main or side module.
    pub fn root_requested_module_type(&self) -> (r: RequestedModuleType)
        ensures
            r@ == match self.spec_init() {
                LoadInit::DynamicImport(_, _, t) => t@,
                _ => RequestedModuleType::NoAttribute@,
            },
    {
        match &self.init {
            LoadInit::DynamicImport(_, _, t) => t.duplicate(),
            _ => RequestedModuleType::NoAttribute,
        }
    }

    /// Starts the load from its root, `root` being the root's resolved
    /// request: a root already registered is walked at once (see
    /// [`RecursiveModuleLoad::register_and_recurse_inner`]), and the load is
    /// done unless that starts loads; otherwise the root itself is loaded.
    /// Returns the module loads to start.
    pub fn start(&mut self, data: &ModuleMapData, root: &ModuleRequest) -> (loads: Vec<
        ModuleRequest,
    >)
        requires
            old(self).spec_state() == LoadState::Init,
            data.wf(),
            all_chains_end(*data),
            ids_have_records(*data),
            old(self).spec_root_module_id() matches Some(id) ==> id < data.info@.len(),
            old(self).spec_pending() + recorded_requests(data.info@).len() + 1 <= usize::MAX,
        ensures
            final(self).spec_root_module_id() == old(self).spec_root_module_id(),
            final(self).spec_init() == old(self).spec_init(),
            final(self).spec_found_by_redirect() == old(self).spec_found_by_redirect(),
            final(self).spec_pending() == old(self).spec_pending() + loads@.len(),
            match old(self).spec_root_module_id() {
                Some(id) => {
                    &&& exists|order: Seq<usize>|
                        #[trigger] walk_result(
                            *data,
                            old(self).spec_visited().insert(request_key(*root)),
                            old(self).spec_found_by_redirect(),
                            id,
                            order,
                            final(self).spec_visited(),
                            loads@,
                        )
                    &&& final(self).spec_state() == if final(self).spec_pending() == 0 {
                        LoadState::Done
                    } else {
                        LoadState::LoadingImports
                    }
                },
                None => {
                    &&& loads@.len() == 1
                    &&& request_key(loads@[0]) == request_key(*root)
                    &&& final(self).spec_visited() == old(self).spec_visited()
                    &&& final(self).spec_state() == LoadState::LoadingRoot
                },
            },
    {
        match self.root_module_id {
            Some(id) => {
                let loads = self.register_and_recurse_inner(data, id, root);
                let ghost v0 = old(self).spec_visited().insert(request_key(*root));
                let ghost alias = old(self).spec_found_by_redirect();
                let ghost visited = self.spec_visited();
                let ghost order = choose|order: Seq<usize>|
                    #[trigger] walk_result(*data, v0, alias, id, order, visited, loads@);
                self.pending = self.pending + loads.len();
                if self.pending == 0 {
                    self.state = LoadState::Done;
                } else {
                    self.state = LoadState::LoadingImports;
                }
                assert(walk_result(*data, v0, alias, id, order, self.spec_visited(), loads@));
                loads
            },
            None => {
                let mut loads = Vec::new();
                loads.push(root.duplicate());
                self.pending = self.pending + 1;
                self.state = LoadState::LoadingRoot;
                loads
            },
        }
    }

    /// A started load finished with module `module_id`, registered under
    /// `reference`: its imports are walked (see
    /// [`RecursiveModuleLoad::register_and_recurse_inner`]); the first
    /// module becomes the root; the load is done once no module load is
    /// left. Returns the module loads to start.
    pub fn register_and_recurse(
        &mut self,
        data: &ModuleMapData,
        module_id: usize,
        reference: &ModuleRequest,
    ) -> (loads: Vec<ModuleRequest>)
        requires
            old(self).spec_state() == LoadState::LoadingRoot || old(self).spec_state()
                == LoadState::LoadingImports,
            old(self).spec_pending() > 0,
            data.wf(),
            all_chains_end(*data),
            ids_have_records(*data),
            module_id < data.info@.len(),
            old(self).spec_pending() + recorded_requests(data.info@).len() <= usize::MAX,
        ensures
            exists|order: Seq<usize>|
                #[trigger] walk_result(
                    *data,
                    old(self).spec_visited().insert(request_key(*reference)),
                    old(self).spec_found_by_redirect(),
                    module_id,
                    order,
                    final(self).spec_visited(),
                    loads@,
                ),
            final(self).spec_init() == old(self).spec_init(),
            final(self).spec_found_by_redirect() == old(self).spec_found_by_redirect(),
            final(self).spec_pending() == old(self).spec_pending() - 1 + loads@.len(),
            final(self).spec_root_module_id() == if old(self).spec_state() == LoadState::LoadingRoot {
                Some(module_id)
            } else {
                old(self).spec_root_module_id()
            },
            final(self).spec_state() == if final(self).spec_pending() == 0 {
                LoadState::Done
            } else {
                LoadState::LoadingImports
            },
    {
        self.pending = self.pending - 1;
        let loads = self.register_and_recurse_inner(data, module_id, reference);
        let ghost v0 = old(self).spec_visited().insert(request_key(*reference));
        let ghost alias = old(self).spec_found_by_redirect();
        let ghost visited = self.spec_visited();
        let ghost order = choose|order: Seq<usize>|
            #[trigger] walk_result(*data, v0, alias, module_id, order, visited, loads@);
        self.pending = self.pending + loads.len();
        if self.state == LoadState::LoadingRoot {
            self.root_module_id = Some(module_id);
            self.state = LoadState::LoadingImports;
        }
        if self.pending == 0 {
            self.state = LoadState::Done;
        }
        assert(walk_result(*data, v0, alias, module_id, order, self.spec_visited(), loads@));
        loads
    }

    /// A started load found nothing to register: its module was already
    /// loaded under a redirect. The load is done once no module load is
    /// left.
    pub fn load_skipped(&mut self)
        requires
            old(self).spec_pending() > 0,
            old(self).spec_state() == LoadState::LoadingRoot || old(self).spec_state()
                == LoadState::LoadingImports,
        ensures
            final(self).spec_pending() == old(self).spec_pending() - 1,
            final(self).spec_state() == if final(self).spec_pending() == 0 {
                LoadState::Done
            } else {
                old(self).spec_state()
            },
            final(self).spec_init() == old(self).spec_init(),
            final(self).spec_root_module_id() == old(self).spec_root_module_id(),
            final(self).spec_visited() == old(self).spec_visited(),
            final(self).spec_found_by_redirect() == old(self).spec_found_by_redirect(),
    {
        self.pending = self.pending - 1;
        if self.pending == 0 {
            self.state = LoadState::Done;
        }
    }

    /// Decides whether a started load of `request` goes on: a load of a
    /// specifier that a redirect already found finishes at once, without a
    /// module (see [`RecursiveModuleLoad::load_skipped`]). Returns whether
    /// the module still has to be fetched.
    pub fn continue_load(&mut self, request: &ModuleRequest) -> (r: bool)
        requires
            old(self).spec_pending() > 0,
            old(self).spec_state() == LoadState::LoadingRoot || old(self).spec_state()
                == LoadState::LoadingImports,
        ensures
            r == !old(self).spec_found_by_redirect().contains(request.specifier@),
            r ==> *final(self) == *old(self),
            !r ==> final(self).spec_pending() == old(self).spec_pending() - 1
                && final(self).spec_state() == if final(self).spec_pending() == 0 {
                LoadState::Done
            } else {
                old(self).spec_state()
            } && final(self).spec_init() == old(self).spec_init()
                && final(self).spec_root_module_id() == old(self).spec_root_module_id()
                && final(self).spec_visited() == old(self).spec_visited()
                && final(self).spec_found_by_redirect() == old(self).spec_found_by_redirect(),
    {
        if self.found_by_redirect(request.specifier.as_str()) {
            self.load_skipped();
            false
        } else {
            true
        }
    }

    /// A load found its module under `found`, a redirect of what it asked
    /// for: later loads of `found` are skipped.
    pub fn note_redirect(&mut self, found: String)
        ensures
            final(self).spec_found_by_redirect() == old(self).spec_found_by_redirect().insert(found@),
            final(self).spec_visited() == old(self).spec_visited(),
            final(self).spec_state() == old(self).spec_state(),
            final(self).spec_pending() == old(self).spec_pending(),
            final(self).spec_init() == old(self).spec_init(),
            final(self).spec_root_module_id() == old(self).spec_root_module_id(),
    {
        let ghost before = self.visited_as_alias@;
        self.visited_as_alias.push(found);
        proof {
            let texts = before.map_values(|s: String| s@);
            assert(self.visited_as_alias@.map_values(|s: String| s@) =~= texts.push(
                self.visited_as_alias@.last()@,
            ));
            texts.lemma_push_to_set_commute(self.visited_as_alias@.last()@);
        }
    }

    /// Follows the imports of module `module_id`, just registered under
    /// `reference`, through the modules already registered (see
    /// [`walk_result`]); returns the requests whose modules still have to
    /// be loaded. Lookups in the map must end.
    fn register_and_recurse_inner(
        &mut self,
        data: &ModuleMapData,
        module_id: usize,
        reference: &ModuleRequest,
    ) -> (loads: Vec<ModuleRequest>)
        requires
            data.wf(),
            all_chains_end(*data),
            ids_have_records(*data),
            module_id < data.info@.len(),
        ensures
            exists|order: Seq<usize>|
                #[trigger] walk_result(
                    *data,
                    old(self).spec_visited().insert(request_key(*reference)),
                    old(self).spec_found_by_redirect(),
                    module_id,
                    order,
                    final(self).spec_visited(),
                    loads@,
                ),
            loads@.len() <= recorded_requests(data.info@).len(),
            final(self).spec_found_by_redirect() == old(self).spec_found_by_redirect(),
            final(self).spec_state() == old(self).spec_state(),
            final(self).spec_pending() == old(self).spec_pending(),
            final(self).spec_root_module_id() == old(self).spec_root_module_id(),
            final(self).spec_init() == old(self).spec_init(),
    {
        let ghost alias = self.spec_found_by_redirect();
        if !self.visited_contains(reference) {
            let ghost before = self.visited@;
            self.visited.push(reference.duplicate());
            proof {
                lemma_visited_push(before, self.visited@.last());
            }
        } else {
            assert(self.spec_visited() =~= old(self).spec_visited().insert(request_key(*reference)));
        }
        let ghost v0 = self.spec_visited();
        let ghost all = recorded_requests(data.info@).map_values(|r: ModuleRequest| request_key(r));
        let mut ids: Vec<usize> = Vec::new();
        ids.push(module_id);
        let mut loads: Vec<ModuleRequest> = Vec::new();
        let ghost mut parent: Seq<int> = seq![0int];
        let ghost mut parent_req: Seq<int> = seq![0int];
        let ghost mut pushed: Seq<ModuleKey> = Seq::empty();
        let mut head: usize = 0;
        proof {
            assert(ids@.take(0) =~= Seq::<usize>::empty());
            assert(requests_of_all(*data, ids@.take(0)) =~= Seq::<ModuleRequest>::empty());
            assert forall|k: ModuleKey| #[trigger] self.spec_visited().contains(k) <==> v0.contains(k)
                || exists|r: ModuleRequest|
                #[trigger] requests_of_all(*data, ids@.take(0)).contains(r) && follows(v0, alias, r)
                    && request_key(r) == k by {}
        }
        while head < ids.len()
            invariant
                data.wf(),
                all_chains_end(*data),
                ids_have_records(*data),
                all == recorded_requests(data.info@).map_values(|r: ModuleRequest| request_key(r)),
                self.spec_found_by_redirect() == alias,
                self.state == old(self).state,
                self.pending == old(self).pending,
                self.root_module_id == old(self).root_module_id,
                self.init == old(self).init,
                forall|l: int| 0 <= l < loads@.len() ==> all.contains(request_key(#[trigger] loads@[l])),
                1 <= ids@.len(),
                ids@[0] == module_id,
                head <= ids@.len(),
                forall|t: int| 0 <= t < ids@.len() ==> #[trigger] ids@[t] < data.info@.len(),
                parent.len() == ids@.len(),
                parent_req.len() == ids@.len(),
                forall|t: int|
                    1 <= t < ids@.len() ==> #[trigger] walk_step(
                        *data,
                        v0,
                        alias,
                        ids@,
                        parent[t],
                        parent_req[t],
                        t,
                    ),
                walk_so_far(
                    *data,
                    v0,
                    alias,
                    ids@,
                    requests_of_all(*data, ids@.take(head as int)),
                    self.spec_visited(),
                    loads@,
                ),
                pushed.len() + 1 == ids@.len(),
                pushed.no_duplicates(),
                forall|i: int|
                    0 <= i < pushed.len() ==> all.contains(#[trigger] pushed[i])
                        && self.spec_visited().contains(pushed[i]),
            decreases all.len() + 1 - head,
        {
            proof {
                lemma_pushed_bound(pushed, all);
            }
            let id = ids[head];
            let reqs = &data.info[id].requests;
            let n = reqs.len();
            let ghost done0 = requests_of_all(*data, ids@.take(head as int));
            let ghost ids0 = ids@;
            let mut k: usize = 0;
            while k < n
                invariant
                    data.wf(),
                    all_chains_end(*data),
                    ids_have_records(*data),
                    all == recorded_requests(data.info@).map_values(|r: ModuleRequest| request_key(r)),
                    self.spec_found_by_redirect() == alias,
                    self.state == old(self).state,
                    self.pending == old(self).pending,
                    self.root_module_id == old(self).root_module_id,
                    self.init == old(self).init,
                    forall|l: int| 0 <= l < loads@.len() ==> all.contains(request_key(#[trigger] loads@[l])),
                    id < data.info@.len(),
                    reqs@ == requests_of(*data, id),
                    n == reqs@.len(),
                    k <= n,
                    head < ids0.len(),
                    ids0[head as int] == id,
                    ids@.len() >= ids0.len(),
                    ids@.take(ids0.len() as int) == ids0,
                    done0 == requests_of_all(*data, ids0.take(head as int)),
                    ids@[0] == module_id,
                    forall|t: int| 0 <= t < ids@.len() ==> #[trigger] ids@[t] < data.info@.len(),
                    parent.len() == ids@.len(),
                    parent_req.len() == ids@.len(),
                    forall|t: int|
                        1 <= t < ids@.len() ==> #[trigger] walk_step(
                            *data,
                            v0,
                            alias,
                            ids@,
                            parent[t],
                            parent_req[t],
                            t,
                        ),
                    walk_so_far(
                        *data,
                        v0,
                        alias,
                        ids@,
                        done0 + reqs@.take(k as int),
                        self.spec_visited(),
                        loads@,
                    ),
                    pushed.len() + 1 == ids@.len(),
                    pushed.no_duplicates(),
                    forall|i: int|
                        0 <= i < pushed.len() ==> all.contains(#[trigger] pushed[i])
                            && self.spec_visited().contains(pushed[i]),
                decreases n - k,
            {
                let r = &reqs[k];
                let ghost done = done0 + reqs@.take(k as int);
                let ghost done2 = done0 + reqs@.take(k + 1);
                proof {
                    assert(done2 =~= done.push(*r));
                    lemma_recorded_requests_contains(data.info@, id as int, k as int);
                    lemma_lookup_in_range(*data, *r);
                }
                if !self.visited_contains(r) && !self.found_by_redirect(r.specifier.as_str()) {
                    proof {
                        assert(chain_ends(
                            data.spec_by_name(),
                            r.requested_module_type@,
                            r.specifier@,
                            data.spec_names_added() + 1,
                        ));
                    }
                    let ghost ids_before = ids@;
                    let ghost loads_before = loads@;
                    let ghost visited_before = self.spec_visited();
                    let ghost pushed_before = pushed;
                    match data.get_id(r.specifier.as_str(), &r.requested_module_type) {
                        Some(id2) => {
                            ids.push(id2);
                            proof {
                                parent = parent.push(head as int);
                                parent_req = parent_req.push(k as int);
                                pushed = pushed.push(request_key(*r));
                                assert(ids@[head as int] == id);
                                assert(requests_of(*data, ids@[head as int])[k as int] == *r);
                                assert forall|t: int| 1 <= t < ids@.len() implies #[trigger] walk_step(
                                    *data,
                                    v0,
                                    alias,
                                    ids@,
                                    parent[t],
                                    parent_req[t],
                                    t,
                                ) by {
                                    if t < ids_before.len() {
                                        assert(walk_step(
                                            *data,
                                            v0,
                                            alias,
                                            ids_before,
                                            parent[t],
                                            parent_req[t],
                                            t,
                                        ));
                                        assert(ids@[parent[t]] == ids_before[parent[t]]);
                                        assert(ids@[t] == ids_before[t]);
                                    }
                                }
                            }
                        },
                        None => {
                            loads.push(r.duplicate());
                            proof {
                                assert(loads@.drop_last() =~= loads_before);
                                let rec = recorded_requests(data.info@);
                                let ii = choose|ii: int| 0 <= ii < rec.len() && rec[ii] == *r;
                                assert(all[ii] == request_key(*r));
                                assert forall|l: int| 0 <= l < loads@.len() implies all.contains(
                                    request_key(#[trigger] loads@[l]),
                                ) by {
                                    if l < loads_before.len() {
                                        assert(loads@[l] == loads_before[l]);
                                    }
                                }
                            }
                        },
                    }
                    let ghost vs = self.visited@;
                    self.visited.push(r.duplicate());
                    proof {
                        lemma_visited_push(vs, self.visited@.last());
                        lemma_follow_step(
                            *data,
                            v0,
                            alias,
                            ids_before,
                            ids@,
                            done,
                            *r,
                            visited_before,
                            self.spec_visited(),
                            loads_before,
                            loads@,
                        );
                        let rec = recorded_requests(data.info@);
                        let ii = choose|ii: int| 0 <= ii < rec.len() && rec[ii] == *r;
                        assert(all[ii] == request_key(*r));
                        assert(all.contains(request_key(*r)));
                        assert(!pushed_before.contains(request_key(*r)));
                        assert forall|i: int| 0 <= i < pushed.len() implies all.contains(
                            #[trigger] pushed[i],
                        ) && self.spec_visited().contains(pushed[i]) by {
                            if i < pushed_before.len() {
                                assert(pushed[i] == pushed_before[i]);
                            }
                        }
                        if pushed.len() > pushed_before.len() {
                            assert forall|a: int, b: int| 0 <= a < b < pushed.len() implies pushed[a]
                                != pushed[b] by {
                                if b == pushed.len() - 1 {
                                    assert(pushed_before.contains(pushed[a]));
                                } else {
                                    assert(pushed[a] == pushed_before[a] && pushed[b] == pushed_before[b]);
                                }
                            }
                        }
                    }
                } else {
                    proof {
                        lemma_skip_step(*data, v0, alias, ids@, done, *r, self.spec_visited(), loads@);
                    }
                }
                k = k + 1;
            }
            proof {
                assert(reqs@.take(n as int) =~= reqs@);
                assert(ids@.take(head + 1).drop_last() =~= ids0.take(head as int));
                assert(ids@.take(head + 1).last() == id);
            }
            head = head + 1;
        }
        proof {
            assert(ids@.take(head as int) =~= ids@);
            assert forall|t: int| 1 <= t < ids@.len() implies #[trigger] reached_from_earlier(
                *data,
                v0,
                alias,
                ids@,
                t,
            ) by {
                assert(walk_step(*data, v0, alias, ids@, parent[t], parent_req[t], t));
            }
            assert(walk_result(*data, v0, alias, module_id, ids@, self.spec_visited(), loads@));
            let keys = loads@.map_values(|l: ModuleRequest| request_key(l));
            assert forall|a: int, b: int| 0 <= a < b < keys.len() implies keys[a] != keys[b] by {
                assert(request_key(loads@[a]) != request_key(loads@[b]));
            }
            lemma_pushed_bound(keys, all);
            assert(all.len() == recorded_requests(data.info@).len());
        }
        loads
    }

    /// Whether request `r` was visited.
    fn visited_contains(&self, r: &ModuleRequest) -> (b: bool)
        ensures
            b == self.spec_visited().contains(request_key(*r)),
    {
        let ghost keys = self.visited@.map_values(|r: ModuleRequest| request_key(r));
        let mut i: usize = 0;
        while i < self.visited.len()
            invariant
                i <= self.visited@.len(),
                keys == self.visited@.map_values(|r: ModuleRequest| request_key(r)),
                forall|j: int| 0 <= j < i ==> keys[j] != request_key(*r),
            decreases self.visited@.len() - i,
        {
            let v = &self.visited[i];
            if v.requested_module_type.same_as(&r.requested_module_type) && str_eq(
                v.specifier.as_str(),
                r.specifier.as_str(),
            ) {
                assert(keys[i as int] == request_key(*r));
                assert(keys.contains(request_key(*r)));
                return true;
            }
            i = i + 1;
        }
        assert(!keys.contains(request_key(*r)));
        false
    }

    /// Whether a load found its module under `specifier` by a redirect;
    /// a load of such a specifier is skipped.
    pub fn found_by_redirect(&self, specifier: &str) -> (b: bool)
        ensures
            b == self.spec_found_by_redirect().contains(specifier@),
    {
        let ghost texts = self.visited_as_alias@.map_values(|s: String| s@);
        let mut i: usize = 0;
        while i < self.visited_as_alias.len()
            invariant
                i <= self.visited_as_alias@.len(),
                texts == self.visited_as_alias@.map_values(|s: String| s@),
                forall|j: int| 0 <= j < i ==> texts[j] != specifier@,
            decreases self.visited_as_alias@.len() - i,
        {
            if str_eq(self.visited_as_alias[i].as_str(), specifier) {
                assert(texts[i as int] == specifier@);
                assert(texts.contains(specifier@));
                return true;
            }
            i = i + 1;
        }
        assert(!texts.contains(specifier@));
        false
    }
}

} // verus!

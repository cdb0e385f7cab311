//! Properties that span several operations of the library, stated over the
//! models its contracts use.
use vstd::prelude::*;
use crate::arena::RawArena;
use crate::buffer_channel::{concat_views, total_len, BoundedBufferChannelInner};
use crate::inspector::{
    after_poll, attach_notes, response_for, target_outcome, woken, CdpMessage, CdpResult, Outgoing,
    PollState, PollStep, TargetInfo,
};
use crate::io::BufView;
use crate::loaders::{
    is_last_of_name, lemma_sources_map_last, lemma_sources_map_names, sources_map, text_pairs,
    ExtModuleLoader,
};
use crate::module_map_data::{
    chain_ends, entry_key, id_from_snapshot, id_to_snapshot, lemma_register_all_distinct,
    lemma_remove_chain_resolves, lemma_remove_chain_shrinks, lemma_resolve_after_insert,
    lists_exactly, register_all, remove_chain, request_key, resolve_id, ModuleKey, ModuleMapData,
    ModuleRequest, SymbolicModule,
};
use crate::modules::{
    asserted_of_module_type, asserted_type_of_attributes, AssertedModuleType, ModuleType,
    RequestedModuleType, RequestedModuleTypeView,
};
use crate::recursive_load::{follows, lookup, requests_of_all, walk_result};
use crate::resource_table::{ResourceId, ResourceTable};
use crate::error::{format_frame_spec, ErrorFormat, JsStackFrame};
use crate::extension_set::{
    dependency_problem, extensions_problem, missing_dependency_message, names_of,
    self_dependency_message, ExtensionDeps,
};
use crate::js_error::{
    aggregated_eq, frame_eq, frames_eq, js_error_eq, opt_text_eq, same_error, JsError,
};

verus! {

/// An arena holds exactly as many live values as it counts as allocated,
/// never more than its capacity; so `remaining` is the number of free slots.
pub proof fn law_arena_counts_live_values<T, const BASE_CAPACITY: usize>(
    arena: &RawArena<T, BASE_CAPACITY>,
)
    requires
        arena.wf(),
    ensures
        arena@.dom().finite(),
        arena@.dom().len() == arena.spec_allocated(),
        arena.spec_allocated() <= BASE_CAPACITY,
{
    arena.lemma_live_count();
}

/// Recycling what an allocation into a slot produced gives back the value
/// and leaves the arena's contents as they were before the allocation.
pub proof fn law_recycle_undoes_allocate<T>(before: Map<usize, T>, slot: usize, value: T)
    requires
        !before.dom().contains(slot),
    ensures
        before.insert(slot, value)[slot] == value,
        before.insert(slot, value).remove(slot) == before,
{
    assert(before.insert(slot, value).remove(slot) =~= before);
}

/// Splitting a buffer at any point and putting the two parts together
/// gives back the buffer.
pub proof fn law_split_rejoins(buffer: Seq<u8>, at: int)
    requires
        0 <= at <= buffer.len(),
    ensures
        buffer.take(at) + buffer.skip(at) == buffer,
{
    assert(buffer.take(at) + buffer.skip(at) =~= buffer);
}

/// Advancing a view's cursor by `n` drops exactly the first `n` bytes of
/// what the view exposes.
pub proof fn law_advance_drops_prefix(before: BufView, after: BufView, n: nat)
    requires
        before.wf(),
        n <= before.view().len(),
        after.buffer() == before.buffer(),
        after.spec_cursor() == before.spec_cursor() + n,
    ensures
        after.view() == before.view().skip(n as int),
{
    assert(after.view() =~= before.view().skip(n as int));
}

/// Resetting the cursor exposes the whole buffer again.
pub proof fn law_reset_exposes_buffer(view: BufView)
    requires
        view.spec_cursor() == 0,
    ensures
        view.view() == view.buffer(),
{
    assert(view.view() =~= view.buffer());
}

/// A channel counts exactly the bytes its queue holds.
pub proof fn law_channel_counts_queued_bytes(channel: &BoundedBufferChannelInner)
    requires
        channel.wf(),
    ensures
        channel.spec_size() == total_len(channel.queue()),
        channel.spec_size() == concat_views(channel.queue()).len(),
{
    channel.lemma_size_is_total();
    crate::buffer_channel::lemma_concat_len(channel.queue());
}

/// Writing a buffer appends its bytes to the end of the stream the reader
/// will see: the channel is first in, first out.
pub proof fn law_write_appends_to_stream(queue: Seq<BufView>, buffer: BufView)
    ensures
        concat_views(queue.push(buffer)) == concat_views(queue) + buffer.view(),
    decreases queue.len(),
{
    if queue.len() == 0 {
        assert(queue.push(buffer).drop_first() =~= Seq::<BufView>::empty());
        assert(concat_views(Seq::<BufView>::empty()) == Seq::<u8>::empty());
        assert(concat_views(queue.push(buffer)) =~= concat_views(queue) + buffer.view());
    } else {
        law_write_appends_to_stream(queue.drop_first(), buffer);
        assert(queue.push(buffer).drop_first() =~= queue.drop_first().push(buffer));
        assert(concat_views(queue.push(buffer)) =~= concat_views(queue) + buffer.view());
    }
}

/// Reading the oldest buffer takes the front of the stream: what it hands
/// out, followed by what stays queued, is the stream that was queued.
pub proof fn law_read_takes_front_of_stream(queue: Seq<BufView>)
    requires
        queue.len() > 0,
    ensures
        concat_views(queue) == queue[0].view() + concat_views(queue.drop_first()),
{
}

/// A wake-up always leaves the poller woken, and a woken poller that runs
/// out of work polls its sessions again rather than sleeping: no wake-up is
/// lost.
pub proof fn law_wake_is_never_lost(state: PollState, should_block: bool)
    ensures
        woken(state).0 == PollState::Woken,
        after_poll(woken(state).0, should_block) == (PollState::Polling, PollStep::PollAgain),
{
}

/// Attaching targets is idempotent: once every target is attached, a
/// second round announces nothing.
pub proof fn law_attach_is_idempotent(n: nat)
    ensures
        attach_notes(Seq::new(n, |i: int| true), n) == Seq::<crate::inspector::Outgoing>::empty(),
{
    lemma_attach_notes_all_attached(Seq::new(n, |i: int| true), n);
}

proof fn lemma_attach_notes_all_attached(attached: Seq<bool>, n: nat)
    requires
        n <= attached.len(),
        forall|i: int| 0 <= i < attached.len() ==> attached[i],
    ensures
        attach_notes(attached, n) == Seq::<crate::inspector::Outgoing>::empty(),
    decreases n,
{
    if n > 0 {
        lemma_attach_notes_all_attached(attached, (n - 1) as nat);
    }
}

/// Resource ids are never handed out twice: every resource in the table
/// has an id below the next id, and `add` hands out the next id and counts
/// up, while `take` leaves the next id as it is.
pub proof fn law_resource_ids_are_fresh<R>(table: &ResourceTable<R>)
    requires
        table.wf(),
    ensures
        forall|k: ResourceId| #[trigger] table@.contains_key(k) ==> k < table.spec_next_rid(),
{
    table.lemma_ids_below_next();
}

/// What is inserted under a module name and type is what a lookup of that
/// name and type finds, and other names and types keep what they had.
pub proof fn law_module_map_get_after_insert<T>(
    before: Map<ModuleKey, T>,
    key: ModuleKey,
    value: T,
    other: ModuleKey,
)
    ensures
        before.insert(key, value).contains_key(key),
        before.insert(key, value)[key] == value,
        other != key ==> before.insert(key, value).contains_key(other) == before.contains_key(
            other,
        ),
        other != key && before.contains_key(other) ==> before.insert(key, value)[other]
            == before[other],
{
}

/// A module just registered under a name is found under that name: the
/// name resolves, within any number of steps, to the module's id.
pub proof fn law_registered_module_is_found(
    names: Map<ModuleKey, SymbolicModule>,
    ty: RequestedModuleTypeView,
    name: Seq<char>,
    id: usize,
    fuel: nat,
)
    requires
        fuel > 0,
    ensures
        chain_ends(names.insert((ty, name), SymbolicModule::Mod(id)), ty, name, fuel),
        resolve_id(names.insert((ty, name), SymbolicModule::Mod(id)), ty, name, fuel) == Some(id),
{
}

/// A new alias for a name that resolves resolves to the same module, one
/// step further.
pub proof fn law_alias_resolves_to_target(
    names: Map<ModuleKey, SymbolicModule>,
    ty: RequestedModuleTypeView,
    alias: Seq<char>,
    target: String,
    fuel: nat,
)
    requires
        !names.contains_key((ty, alias)),
        resolve_id(names, ty, target@, fuel) is Some,
    ensures
        chain_ends(names.insert((ty, alias), SymbolicModule::Alias(target)), ty, alias, fuel + 1),
        resolve_id(names.insert((ty, alias), SymbolicModule::Alias(target)), ty, alias, fuel + 1)
            == resolve_id(names, ty, target@, fuel),
{
    let after = names.insert((ty, alias), SymbolicModule::Alias(target));
    lemma_resolve_after_insert(names, ty, target@, fuel, (ty, alias), SymbolicModule::Alias(target));
    assert(after[(ty, alias)] == SymbolicModule::Alias(target));
}

/// After a name is removed, with the chain of aliases it starts, the name
/// resolves to nothing, and no name was added.
pub proof fn law_removed_name_is_gone(
    names: Map<ModuleKey, SymbolicModule>,
    ty: RequestedModuleTypeView,
    name: Seq<char>,
    fuel: nat,
    later: nat,
)
    requires
        fuel > 0,
    ensures
        !remove_chain(names, ty, name, fuel).0.contains_key((ty, name)),
        resolve_id(remove_chain(names, ty, name, fuel).0, ty, name, later) is None,
        remove_chain(names, ty, name, fuel).0.dom().subset_of(names.dom()),
{
    lemma_remove_chain_shrinks(names, ty, name, fuel);
    if names.contains_key((ty, name)) {
        let rest = names.remove((ty, name));
        match names[(ty, name)] {
            SymbolicModule::Mod(_) => {},
            SymbolicModule::Alias(target) => {
                lemma_remove_chain_shrinks(rest, ty, target@, (fuel - 1) as nat);
                assert(!rest.contains_key((ty, name)));
                assert(remove_chain(names, ty, name, fuel) == remove_chain(
                    rest,
                    ty,
                    target@,
                    (fuel - 1) as nat,
                ));
                assert(!remove_chain(rest, ty, target@, (fuel - 1) as nat).0.contains_key(
                    (ty, name),
                ));
            },
        }
    }
}

/// Removing a name gives back the id that looking the name up gives: both
/// follow the same chain of aliases, and a chain that ends never comes back
/// to a name it already removed.
pub proof fn law_remove_returns_looked_up_id(
    names: Map<ModuleKey, SymbolicModule>,
    ty: RequestedModuleTypeView,
    name: Seq<char>,
    fuel: nat,
)
    requires
        chain_ends(names, ty, name, fuel),
    ensures
        remove_chain(names, ty, name, fuel).1 == resolve_id(names, ty, name, fuel),
{
    lemma_remove_chain_resolves(names, ty, name, fuel);
}

/// A walk of the module graph that starts no module load has the whole
/// graph below its module in the map: every import it follows from a module
/// it walked is registered, and leads to a module it walked.
pub proof fn law_walk_without_loads_is_complete(
    data: ModuleMapData,
    visited: Set<ModuleKey>,
    found_by_redirect: Set<Seq<char>>,
    root: usize,
    order: Seq<usize>,
    visited_after: Set<ModuleKey>,
    r: ModuleRequest,
)
    requires
        walk_result(
            data,
            visited,
            found_by_redirect,
            root,
            order,
            visited_after,
            Seq::<ModuleRequest>::empty(),
        ),
        requests_of_all(data, order).contains(r),
        follows(visited, found_by_redirect, r),
    ensures
        lookup(data, r) is Some,
        order.contains(lookup(data, r)->0),
{
    if lookup(data, r) is None {
        let l = choose|l: int|
            0 <= l < Seq::<ModuleRequest>::empty().len() && request_key(
                #[trigger] Seq::<ModuleRequest>::empty()[l],
            ) == request_key(r);
    }
}

/// A module map restored from a snapshot into an empty map has the names
/// of the map that was snapshotted, each standing for what it stood for,
/// and the same main module, where its id fits a snapshot.
pub proof fn law_snapshot_restores_names(
    names: Map<ModuleKey, SymbolicModule>,
    entries: Seq<(String, RequestedModuleType, SymbolicModule)>,
    main_module_id: Option<usize>,
)
    requires
        lists_exactly(entries, names),
        main_module_id matches Some(id) ==> id <= i32::MAX,
    ensures
        register_all(Map::empty(), entries) == names,
        id_from_snapshot(id_to_snapshot(main_module_id)) == main_module_id,
{
    lemma_register_all_distinct(entries);
    let restored = register_all(Map::empty(), entries);
    assert forall|k: ModuleKey| #[trigger] names.contains_key(k) implies restored.contains_key(k)
        && restored[k] == names[k] by {
        let i = choose|i: int| 0 <= i < entries.len() && entry_key(entries[i]) == k;
        assert(restored.contains_key(entry_key(entries[i])));
    }
    assert forall|k: ModuleKey| #[trigger] restored.contains_key(k) implies names.contains_key(k) by {
        let i = choose|i: int| 0 <= i < entries.len() && entry_key(entries[i]) == k;
        assert(names.contains_key(entry_key(entries[i])));
    }
    assert(restored =~= names);
}

/// A loader built from (name, code) pairs, as `ExtModuleLoader::new`
/// builds it, serves exactly the names of the pairs: `load` of such a name
/// gives the code of its last pair, and `load` of any other specifier is
/// refused as excluded from the snapshot. Finalizing it right away succeeds
/// exactly when there were no pairs, and otherwise names the modules of the
/// pairs as unused.
pub proof fn law_ext_loader_serves_its_pairs(
    loader: &ExtModuleLoader,
    loaded_sources: Seq<(String, String)>,
)
    requires
        loader.spec_sources() == sources_map(text_pairs(loaded_sources)),
    ensures
        forall|k: Seq<char>|
            #[trigger] loader.spec_sources().contains_key(k) <==> exists|i: int|
                0 <= i < loaded_sources.len() && loaded_sources[i].0@ == k,
        forall|i: int|
            0 <= i < loaded_sources.len() && is_last_of_name(text_pairs(loaded_sources), i)
                ==> loader.spec_sources()[#[trigger] loaded_sources[i].0@] == loaded_sources[i].1,
        loader.spec_sources().dom() =~= Set::<Seq<char>>::empty() <==> loaded_sources.len() == 0,
{
    let pairs = text_pairs(loaded_sources);
    assert forall|i: int| 0 <= i < loaded_sources.len() implies #[trigger] pairs[i] == (
        loaded_sources[i].0@,
        loaded_sources[i].1,
    ) by {}
    lemma_sources_map_names(pairs);
    assert forall|k: Seq<char>|
        #[trigger] loader.spec_sources().contains_key(k) <==> exists|i: int|
            0 <= i < loaded_sources.len() && loaded_sources[i].0@ == k by {
        if loader.spec_sources().contains_key(k) {
            let i = choose|i: int| 0 <= i < pairs.len() && pairs[i].0 == k;
            assert(pairs[i] == (loaded_sources[i].0@, loaded_sources[i].1));
        }
        if exists|i: int| 0 <= i < loaded_sources.len() && loaded_sources[i].0@ == k {
            let i = choose|i: int| 0 <= i < loaded_sources.len() && loaded_sources[i].0@ == k;
            assert(pairs[i] == (loaded_sources[i].0@, loaded_sources[i].1));
        }
    }
    assert forall|i: int|
        0 <= i < loaded_sources.len() && is_last_of_name(pairs, i) implies loader.spec_sources()[
        #[trigger] loaded_sources[i].0@] == loaded_sources[i].1 by {
        assert(pairs[i] == (loaded_sources[i].0@, loaded_sources[i].1));
        lemma_sources_map_last(pairs, i);
    }
    if loaded_sources.len() > 0 {
        let last = loaded_sources.len() - 1;
        assert(pairs[last] == (loaded_sources[last].0@, loaded_sources[last].1));
        assert(loader.spec_sources().contains_key(loaded_sources[last].0@));
    }
}

/// A module that a one-shot loader served is gone from it: loading it again
/// fails.
pub proof fn law_served_module_is_gone(sources: Map<Seq<char>, String>, specifier: Seq<char>)
    ensures
        !sources.remove(specifier).contains_key(specifier),
{
}

/// Every error is the same error as itself.
pub proof fn law_same_error_is_reflexive(e: JsError)
    ensures
        same_error(e, e),
{
    lemma_frames_eq_refl(e.frames@);
    lemma_aggregated_eq_refl(e);
}

/// Whether two errors are the same error does not depend on their order.
pub proof fn law_same_error_is_symmetric(a: JsError, b: JsError)
    requires
        same_error(a, b),
    ensures
        same_error(b, a),
{
    lemma_frames_eq_symmetric(a.frames@, b.frames@);
    lemma_aggregated_eq_symmetric(a, b);
}

/// Equality of errors is symmetric.
pub proof fn law_error_equality_is_symmetric(a: JsError, b: JsError)
    requires
        js_error_eq(a, b),
    ensures
        js_error_eq(b, a),
    decreases a,
{
    lemma_frames_eq_symmetric(a.frames@, b.frames@);
    match (a.cause, b.cause) {
        (Some(x), Some(y)) => {
            law_error_equality_is_symmetric(*x, *y);
        },
        _ => {},
    }
    lemma_aggregated_eq_symmetric(a, b);
}

proof fn lemma_aggregated_eq_symmetric(a: JsError, b: JsError)
    requires
        aggregated_eq(a, b),
    ensures
        aggregated_eq(b, a),
    decreases a, 0int,
{
    match (a.aggregated, b.aggregated) {
        (Some(v), Some(w)) => {
            assert forall|i: int| 0 <= i < w@.len() implies js_error_eq(
                #[trigger] w@[i],
                v@[i],
            ) by {
                assert(js_error_eq(v@[i], w@[i]));
                assert(decreases_to!(a => v@[i]));
                law_error_equality_is_symmetric(v@[i], w@[i]);
            }
        },
        _ => {},
    }
}

proof fn lemma_frames_eq_symmetric(a: Seq<crate::error::JsStackFrame>, b: Seq<crate::error::JsStackFrame>)
    requires
        frames_eq(a, b),
    ensures
        frames_eq(b, a),
{
    assert forall|i: int| 0 <= i < b.len() implies frame_eq(#[trigger] b[i], a[i]) by {
        assert(frame_eq(a[i], b[i]));
    }
}

/// Equality of errors is reflexive.
pub proof fn law_error_equality_is_reflexive(e: JsError)
    ensures
        js_error_eq(e, e),
    decreases e,
{
    lemma_frames_eq_refl(e.frames@);
    match e.cause {
        Some(c) => {
            law_error_equality_is_reflexive(*c);
        },
        None => {},
    }
    lemma_aggregated_eq_refl(e);
}

proof fn lemma_aggregated_eq_refl(e: JsError)
    ensures
        aggregated_eq(e, e),
    decreases e, 0int,
{
    match e.aggregated {
        Some(v) => {
            assert forall|i: int| 0 <= i < v@.len() implies js_error_eq(
                #[trigger] v@[i],
                v@[i],
            ) by {
                assert(decreases_to!(e => v@[i]));
                law_error_equality_is_reflexive(v@[i]);
            }
        },
        None => {},
    }
}

proof fn lemma_frames_eq_refl(frames: Seq<crate::error::JsStackFrame>)
    ensures
        frames_eq(frames, frames),
{
    assert forall|i: int| 0 <= i < frames.len() implies frame_eq(#[trigger] frames[i], frames[i]) by {
        let f = frames[i];
        assert(opt_text_eq(f.typename, f.typename));
        assert(opt_text_eq(f.function_name, f.function_name));
        assert(opt_text_eq(f.method_name, f.method_name));
        assert(opt_text_eq(f.file_name, f.file_name));
        assert(opt_text_eq(f.eval_origin, f.eval_origin));
    }
}

/// A constructor frame that is no `Promise.all` frame is shown as a `new`
/// expression: its text starts with `new ` (after `async ` for an async
/// frame), whatever the frame's function name is and however the format
/// shows the parts.
pub proof fn law_constructor_frame_starts_with_new<F: ErrorFormat>(frame: &JsStackFrame)
    requires
        frame.is_constructor,
        !frame.is_promise_all,
    ensures
        ({
            let p = if frame.is_async {
                "async "@
            } else {
                Seq::<char>::empty()
            };
            let t = format_frame_spec::<F>(frame);
            p.len() + 4 <= t.len() && t.subrange(0, p.len() + 4int) == p + "new "@
        }),
{
    reveal_strlit("async ");
    reveal_strlit("new ");
    let p = if frame.is_async {
        "async "@
    } else {
        Seq::<char>::empty()
    };
    let t = format_frame_spec::<F>(frame);
    let rest = t.subrange(p.len() + 4int, t.len() as int);
    assert(t =~= (p + "new "@) + rest);
    assert(t.subrange(0, p.len() + 4int) =~= p + "new "@);
}

/// The announcement that a target is now attached, waiting for a debugger.
pub open spec fn target_announcement(i: int) -> Outgoing {
    Outgoing::AttachedToTarget { target: i as usize, attached: false, waiting_for_debugger: true }
}

/// What `attach_notes` announces over the first `n` targets: each target
/// among them that was not attached, in increasing order, and nothing else.
proof fn lemma_attach_notes_announce(attached: Seq<bool>, n: nat)
    requires
        n <= attached.len(),
        attached.len() <= usize::MAX,
    ensures
        forall|j: int|
            0 <= j < attach_notes(attached, n).len() ==> exists|i: int|
                0 <= i < n && !attached[i] && #[trigger] attach_notes(attached, n)[j]
                    == target_announcement(i),
        forall|i: int|
            0 <= i < n && !attached[i] ==> attach_notes(attached, n).contains(
                #[trigger] target_announcement(i),
            ),
        forall|j: int, k: int|
            0 <= j < k < attach_notes(attached, n).len() ==> (#[trigger] attach_notes(
                attached,
                n,
            )[j])->AttachedToTarget_target < (#[trigger] attach_notes(attached, n)[k])->AttachedToTarget_target,
        forall|j: int|
            0 <= j < attach_notes(attached, n).len() ==> (#[trigger] attach_notes(attached, n)[j])
                is AttachedToTarget && attach_notes(attached, n)[j]->AttachedToTarget_target < n,
    decreases n,
{
    if n > 0 {
        let m = (n - 1) as nat;
        lemma_attach_notes_announce(attached, m);
        let prev = attach_notes(attached, m);
        if !attached[m as int] {
            let cur = attach_notes(attached, n);
            assert(cur == prev.push(target_announcement(m as int)));
            assert forall|j: int| 0 <= j < cur.len() implies exists|i: int|
                0 <= i < n && !attached[i] && #[trigger] cur[j] == target_announcement(i) by {
                if j < prev.len() {
                    assert(cur[j] == prev[j]);
                    let i = choose|i: int| 0 <= i < m && !attached[i] && prev[j] == target_announcement(i);
                    assert(cur[j] == target_announcement(i));
                } else {
                    assert(cur[j] == target_announcement(m as int));
                }
            }
            assert forall|i: int| 0 <= i < n && !attached[i] implies cur.contains(
                #[trigger] target_announcement(i),
            ) by {
                if i < m {
                    let j = choose|j: int| 0 <= j < prev.len() && prev[j] == target_announcement(i);
                    assert(cur[j] == target_announcement(i));
                } else {
                    assert(cur[prev.len() as int] == target_announcement(i));
                }
            }
            assert forall|j: int, k: int| 0 <= j < k < cur.len() implies (
            #[trigger] cur[j])->AttachedToTarget_target < (#[trigger] cur[k])->AttachedToTarget_target by {
                assert(cur[j] == prev[j]);
                if k < prev.len() {
                    assert(cur[k] == prev[k]);
                }
            }
            assert forall|j: int| 0 <= j < cur.len() implies (#[trigger] cur[j]) is AttachedToTarget
                && cur[j]->AttachedToTarget_target < n by {
                if j < prev.len() {
                    assert(cur[j] == prev[j]);
                }
            }
        }
    }
}

/// `Target.setDiscoverTargets` with `discover` set attaches every worker
/// target and leaves auto-attach as it was. After the response, each target
/// that was not attached is announced once, as attached and waiting for a
/// debugger, in the order of the targets; nothing else is sent. With
/// `discover` not set, nothing changes and only the response is sent.
pub proof fn law_discover_targets_attaches_every_target(
    targets: Seq<TargetInfo>,
    attached: Seq<bool>,
    auto: bool,
    m: CdpMessage,
)
    requires
        attached.len() <= usize::MAX,
    ensures
        ({
            let (now_attached, now_auto, out) = target_outcome(
                targets,
                attached,
                auto,
                "Target.setDiscoverTargets"@,
                m,
            );
            let resp = response_for(m.id, CdpResult::Empty);
            let notes = out.skip(resp.len() as int);
            &&& resp.len() <= out.len()
            &&& out.take(resp.len() as int) == resp
            &&& now_auto == auto
            &&& m.params.discover == Some(true) ==> {
                &&& now_attached.len() == attached.len()
                &&& forall|i: int| 0 <= i < now_attached.len() ==> #[trigger] now_attached[i]
                &&& forall|i: int|
                    0 <= i < attached.len() && !attached[i] ==> notes.contains(
                        #[trigger] target_announcement(i),
                    )
                &&& forall|j: int|
                    0 <= j < notes.len() ==> exists|i: int|
                        0 <= i < attached.len() && !attached[i] && #[trigger] notes[j]
                            == target_announcement(i)
                &&& forall|j: int, k: int|
                    0 <= j < k < notes.len() ==> (#[trigger] notes[j])->AttachedToTarget_target < (
                    #[trigger] notes[k])->AttachedToTarget_target
            }
            &&& m.params.discover != Some(true) ==> now_attached == attached && notes.len() == 0
        }),
{
    reveal_strlit("Target.setDiscoverTargets");
    let resp = response_for(m.id, CdpResult::Empty);
    let n = attached.len();
    lemma_attach_notes_announce(attached, n);
    let (now_attached, now_auto, out) = target_outcome(
        targets,
        attached,
        auto,
        "Target.setDiscoverTargets"@,
        m,
    );
    if m.params.discover == Some(true) {
        let notes = attach_notes(attached, n);
        assert(out == resp + notes);
        assert(out.take(resp.len() as int) =~= resp);
        assert(out.skip(resp.len() as int) =~= notes);
    } else {
        assert(out == resp);
        assert(out.take(resp.len() as int) =~= resp);
        assert(out.skip(resp.len() as int) =~= Seq::<Outgoing>::empty());
    }
}

/// The value of the `type` import attribute that asks for a module of type
/// `t`, for the types an attribute can select.
pub open spec fn type_attribute_value(t: ModuleType) -> Seq<char> {
    match t {
        ModuleType::Json => "json"@,
        ModuleType::Text => "text"@,
        ModuleType::Url => "url"@,
        ModuleType::Buffer => "buffer"@,
        ModuleType::CssModule => "css-module"@,
        ModuleType::JavaScript => "javascript"@,
    }
}

/// An import whose `type` attribute names JSON, text or URL modules asserts
/// exactly the module type that a module of that type satisfies; without a
/// `type` attribute an import asserts JavaScript.
pub proof fn law_type_attribute_selects_module_type(attributes: Map<Seq<char>, String>, t: ModuleType)
    ensures
        (t == ModuleType::Json || t == ModuleType::Text || t == ModuleType::Url)
            && attributes.contains_key("type"@) && attributes["type"@]@ == type_attribute_value(t)
            ==> asserted_type_of_attributes(attributes) == asserted_of_module_type(t),
        !attributes.contains_key("type"@) ==> asserted_type_of_attributes(attributes)
            == AssertedModuleType::JavaScriptOrWasm,
{
    reveal_strlit("json");
    reveal_strlit("text");
    reveal_strlit("url");
    assert("json"@ != "text"@ && "json"@ != "url"@ && "text"@ != "url"@) by {
        assert("json"@[0] != "text"@[0]);
        assert("json"@[0] != "url"@[0]);
        assert("text"@[0] != "url"@[0]);
    }
}

/// The dependency `d` of the extension at `i` is met: it is not that
/// extension itself, and it is the core extension or an extension that
/// comes before `i`.
pub open spec fn dependency_met(core: Seq<char>, exts: Seq<ExtensionDeps>, i: int, d: Seq<char>) -> bool {
    &&& d != exts[i].name@
    &&& (d == core || exists|j: int| 0 <= j < i && #[trigger] exts[j].name@ == d)
}

/// Every dependency of the extension at `i` is met.
pub open spec fn dependencies_met(core: Seq<char>, exts: Seq<ExtensionDeps>, i: int) -> bool {
    forall|k: int|
        0 <= k < exts[i].deps@.len() ==> dependency_met(core, exts, i, #[trigger] exts[i].deps@[k]@)
}

proof fn lemma_dependency_problem_none(name: Seq<char>, deps: Seq<Seq<char>>, previous: Seq<Seq<char>>)
    ensures
        dependency_problem(name, deps, previous) is None <==> forall|k: int|
            0 <= k < deps.len() ==> #[trigger] deps[k] != name && previous.contains(deps[k]),
    decreases deps.len(),
{
    if deps.len() > 0 {
        lemma_dependency_problem_none(name, deps.drop_first(), previous);
        assert forall|k: int| 0 < k < deps.len() implies #[trigger] deps[k] == deps.drop_first()[k - 1] by {}
        if dependency_problem(name, deps, previous) is None {
            assert forall|k: int| 0 <= k < deps.len() implies #[trigger] deps[k] != name
                && previous.contains(deps[k]) by {
                if k > 0 {
                    assert(deps[k] == deps.drop_first()[k - 1]);
                }
            }
        } else {
            if deps[0] != name && previous.contains(deps[0]) {
                let k = choose|k: int| 0 <= k < deps.drop_first().len() && !(#[trigger] deps.drop_first()[k] != name
                    && previous.contains(deps.drop_first()[k]));
                assert(deps[k + 1] == deps.drop_first()[k]);
            }
        }
    }
}

proof fn lemma_previous_names(core: Seq<char>, exts: Seq<ExtensionDeps>, i: int, d: Seq<char>)
    requires
        0 <= i <= exts.len(),
    ensures
        (seq![core] + exts.take(i).map_values(|e: ExtensionDeps| e.name@)).contains(d) <==> (d
            == core || exists|j: int| 0 <= j < i && #[trigger] exts[j].name@ == d),
{
    let previous = seq![core] + exts.take(i).map_values(|e: ExtensionDeps| e.name@);
    if previous.contains(d) {
        let p = choose|p: int| 0 <= p < previous.len() && previous[p] == d;
        if p > 0 {
            assert(previous[p] == exts[p - 1].name@);
        }
    }
    if exists|j: int| 0 <= j < i && #[trigger] exts[j].name@ == d {
        let j = choose|j: int| 0 <= j < i && #[trigger] exts[j].name@ == d;
        assert(previous[j + 1] == d);
    }
    if d == core {
        assert(previous[0] == d);
    }
}

proof fn lemma_extension_problem_none_at(core: Seq<char>, exts: Seq<ExtensionDeps>, i: int)
    requires
        0 <= i < exts.len(),
    ensures
        dependency_problem(
            exts[i].name@,
            names_of(exts[i].deps@),
            seq![core] + exts.take(i).map_values(|e: ExtensionDeps| e.name@),
        ) is None <==> dependencies_met(core, exts, i),
{
    let previous = seq![core] + exts.take(i).map_values(|e: ExtensionDeps| e.name@);
    let deps = names_of(exts[i].deps@);
    lemma_dependency_problem_none(exts[i].name@, deps, previous);
    assert forall|k: int| 0 <= k < deps.len() implies (#[trigger] deps[k] != exts[i].name@
        && previous.contains(deps[k])) == dependency_met(core, exts, i, exts[i].deps@[k]@) by {
        assert(deps[k] == exts[i].deps@[k]@);
        lemma_previous_names(core, exts, i, deps[k]);
    }
    if dependencies_met(core, exts, i) {
        assert forall|k: int| 0 <= k < deps.len() implies #[trigger] deps[k] != exts[i].name@
            && previous.contains(deps[k]) by {
            assert(dependency_met(core, exts, i, exts[i].deps@[k]@));
        }
    }
    if dependency_problem(exts[i].name@, deps, previous) is None {
        assert forall|k: int| 0 <= k < exts[i].deps@.len() implies dependency_met(
            core,
            exts,
            i,
            #[trigger] exts[i].deps@[k]@,
        ) by {
            assert(deps[k] != exts[i].name@ && previous.contains(deps[k]));
        }
    }
}

proof fn lemma_extensions_problem_none_from(core: Seq<char>, exts: Seq<ExtensionDeps>, i: int)
    requires
        0 <= i <= exts.len(),
    ensures
        extensions_problem(core, exts, i) is None <==> forall|k: int|
            i <= k < exts.len() ==> #[trigger] dependencies_met(core, exts, k),
    decreases exts.len() - i,
{
    if i < exts.len() {
        lemma_extensions_problem_none_from(core, exts, i + 1);
        lemma_extension_problem_none_at(core, exts, i);
    }
}

/// Each extension may depend only on the core extension and on extensions
/// listed before it, never on itself: the check finds no problem exactly
/// when every dependency of every extension is met that way. A dependency
/// that is listed later than the extension that needs it is a problem.
pub proof fn law_dependencies_come_first(core: Seq<char>, exts: Seq<ExtensionDeps>)
    ensures
        extensions_problem(core, exts, 0) is None <==> forall|i: int, k: int|
            0 <= i < exts.len() && 0 <= k < exts[i].deps@.len() ==> dependency_met(
                core,
                exts,
                i,
                #[trigger] exts[i].deps@[k]@,
            ),
{
    lemma_extensions_problem_none_from(core, exts, 0);
    if extensions_problem(core, exts, 0) is None {
        assert forall|i: int, k: int|
            0 <= i < exts.len() && 0 <= k < exts[i].deps@.len() implies dependency_met(
            core,
            exts,
            i,
            #[trigger] exts[i].deps@[k]@,
        ) by {
            assert(dependencies_met(core, exts, i));
        }
    } else {
        let i = choose|i: int| 0 <= i < exts.len() && !#[trigger] dependencies_met(core, exts, i);
        let k = choose|k: int|
            0 <= k < exts[i].deps@.len() && !dependency_met(core, exts, i, #[trigger] exts[i].deps@[k]@);
    }
}

/// The message for the unmet dependency `d` of the extension `name`.
pub open spec fn unmet_dependency_message(name: Seq<char>, d: Seq<char>) -> Seq<char> {
    if d == name {
        self_dependency_message(name)
    } else {
        missing_dependency_message(name, d)
    }
}

proof fn lemma_dependency_problem_first(
    name: Seq<char>,
    deps: Seq<Seq<char>>,
    previous: Seq<Seq<char>>,
    m: Seq<char>,
)
    requires
        dependency_problem(name, deps, previous) == Some(m),
    ensures
        exists|k: int|
            0 <= k < deps.len() && !(deps[k] != name && previous.contains(deps[k])) && m
                == unmet_dependency_message(name, #[trigger] deps[k]) && forall|k2: int|
                0 <= k2 < k ==> #[trigger] deps[k2] != name && previous.contains(deps[k2]),
    decreases deps.len(),
{
    if deps[0] == name || !previous.contains(deps[0]) {
        assert(m == unmet_dependency_message(name, deps[0]));
    } else {
        let rest = deps.drop_first();
        lemma_dependency_problem_first(name, rest, previous, m);
        let k = choose|k: int|
            0 <= k < rest.len() && !(rest[k] != name && previous.contains(rest[k])) && m
                == unmet_dependency_message(name, #[trigger] rest[k]) && forall|k2: int|
                0 <= k2 < k ==> #[trigger] rest[k2] != name && previous.contains(rest[k2]);
        assert(deps[k + 1] == rest[k]);
        assert forall|k2: int| 0 <= k2 < k + 1 implies #[trigger] deps[k2] != name
            && previous.contains(deps[k2]) by {
            if k2 > 0 {
                assert(deps[k2] == rest[k2 - 1]);
            }
        }
    }
}

proof fn lemma_extensions_problem_first(
    core: Seq<char>,
    exts: Seq<ExtensionDeps>,
    i: int,
    m: Seq<char>,
)
    requires
        0 <= i,
        extensions_problem(core, exts, i) == Some(m),
    ensures
        exists|j: int|
            i <= j < exts.len() && dependency_problem(
                exts[j].name@,
                names_of(exts[j].deps@),
                seq![core] + exts.take(j).map_values(|e: ExtensionDeps| e.name@),
            ) == Some(m) && forall|j2: int| i <= j2 < j ==> #[trigger] dependencies_met(core, exts, j2),
    decreases exts.len() - i,
{
    let previous = seq![core] + exts.take(i).map_values(|e: ExtensionDeps| e.name@);
    if dependency_problem(exts[i].name@, names_of(exts[i].deps@), previous) is None {
        lemma_extension_problem_none_at(core, exts, i);
        lemma_extensions_problem_first(core, exts, i + 1, m);
    }
}

/// When the check finds a problem, it is that of the first extension with
/// an unmet dependency, at its first unmet dependency `d`: either that the
/// extension depends on itself (`d` is its own name) or that it misses `d`.
pub proof fn law_first_unmet_dependency_is_reported(
    core: Seq<char>,
    exts: Seq<ExtensionDeps>,
    m: Seq<char>,
)
    requires
        extensions_problem(core, exts, 0) == Some(m),
    ensures
        exists|i: int, k: int|
            0 <= i < exts.len() && 0 <= k < exts[i].deps@.len() && (forall|i2: int|
                0 <= i2 < i ==> #[trigger] dependencies_met(core, exts, i2)) && (forall|k2: int|
                0 <= k2 < k ==> dependency_met(core, exts, i, #[trigger] exts[i].deps@[k2]@))
                && !dependency_met(core, exts, i, #[trigger] exts[i].deps@[k]@) && m
                == unmet_dependency_message(exts[i].name@, exts[i].deps@[k]@),
{
    lemma_extensions_problem_first(core, exts, 0, m);
    let i = choose|i: int|
        0 <= i < exts.len() && dependency_problem(
            exts[i].name@,
            names_of(exts[i].deps@),
            seq![core] + exts.take(i).map_values(|e: ExtensionDeps| e.name@),
        ) == Some(m) && forall|j2: int| 0 <= j2 < i ==> #[trigger] dependencies_met(core, exts, j2);
    let previous = seq![core] + exts.take(i).map_values(|e: ExtensionDeps| e.name@);
    let deps = names_of(exts[i].deps@);
    lemma_dependency_problem_first(exts[i].name@, deps, previous, m);
    let k = choose|k: int|
        0 <= k < deps.len() && !(deps[k] != exts[i].name@ && previous.contains(deps[k])) && m
            == unmet_dependency_message(exts[i].name@, #[trigger] deps[k]) && forall|k2: int|
            0 <= k2 < k ==> #[trigger] deps[k2] != exts[i].name@ && previous.contains(deps[k2]);
    assert(deps[k] == exts[i].deps@[k]@);
    lemma_previous_names(core, exts, i, deps[k]);
    assert forall|k2: int| 0 <= k2 < k implies dependency_met(
        core,
        exts,
        i,
        #[trigger] exts[i].deps@[k2]@,
    ) by {
        assert(deps[k2] == exts[i].deps@[k2]@);
        assert(deps[k2] != exts[i].name@ && previous.contains(deps[k2]));
        lemma_previous_names(core, exts, i, deps[k2]);
    }
}

} // verus!

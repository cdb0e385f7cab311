//! Checks on a set of extensions: the phases that consume it, in order,
//! that dependencies come first, and that op names are unique.
use vstd::prelude::*;
use crate::text::str_eq;

verus! {

/// How far a set of extensions has been consumed; the phases go in this
/// order.
#[derive(Clone, Copy, Debug, PartialEq, Eq, Structural)]
pub enum ExtensionSetState {
    Created,
    OpsConsumed,
    OpStateConsumed,
    SourceCodeAvailable,
}

/// A set of extensions, the runtime core's own first, consumed in phases:
/// first their ops, then their op state, then their source code.
pub struct ExtensionSet<E> {
    deno_core_ext: E,
    extensions: Vec<E>,
    state: ExtensionSetState,
}

impl<E> ExtensionSet<E> {
    /// The runtime core's own extension.
    pub closed spec fn spec_core_ext(&self) -> E {
        self.deno_core_ext
    }

    /// The other extensions, in order.
    pub closed spec fn spec_extensions(&self) -> Seq<E> {
        self.extensions@
    }

    /// The phase the set is in.
    pub closed spec fn spec_state(&self) -> ExtensionSetState {
        self.state
    }

    /// A set that no phase has consumed yet.
    pub fn new(deno_core_ext: E, extensions: Vec<E>) -> (r: Self)
        ensures
            r.spec_core_ext() == deno_core_ext,
            r.spec_extensions() == extensions@,
            r.spec_state() == ExtensionSetState::Created,
    {
        ExtensionSet { deno_core_ext, extensions, state: ExtensionSetState::Created }
    }

    /// The phase the set is in.
    pub fn state(&self) -> (r: ExtensionSetState)
        ensures
            r == self.spec_state(),
    {
        self.state
    }

    /// Moves the set from phase `assert_state` to `advance_to`; a phase run
    /// out of order is a programming error.
    pub fn advance_state(&mut self, assert_state: ExtensionSetState, advance_to: ExtensionSetState)
        requires
            old(self).spec_state() == assert_state,
        ensures
            final(self).spec_state() == advance_to,
            final(self).spec_core_ext() == old(self).spec_core_ext(),
            final(self).spec_extensions() == old(self).spec_extensions(),
    {
        self.state = advance_to;
    }

    /// Hands out the extensions for their source code, once their op state
    /// was consumed.
    pub fn consume(self) -> (r: Vec<E>)
        requires
            self.spec_state() == ExtensionSetState::OpStateConsumed,
        ensures
            r@ == self.spec_extensions(),
    {
        let mut set = self;
        set.advance_state(ExtensionSetState::OpStateConsumed, ExtensionSetState::SourceCodeAvailable);
        set.extensions
    }
}

/// The message for an extension that depends on itself or shares its name
/// with another.
pub open spec fn self_dependency_message(name: Seq<char>) -> Seq<char> {
    "Extension '"@ + name
        + "' is either depending on itself or there is another extension with the same name"@
}

/// The message for an extension that misses a dependency.
pub open spec fn missing_dependency_message(name: Seq<char>, dep: Seq<char>) -> Seq<char> {
    "Extension '"@ + name + "' is missing dependency '"@ + dep + "'"@
}

/// What is wrong with the dependencies `deps` of extension `name`, given the
/// extensions `previous` that come before it: the first dependency that is
/// the extension itself or is not among those before it.
pub open spec fn dependency_problem(
    name: Seq<char>,
    deps: Seq<Seq<char>>,
    previous: Seq<Seq<char>>,
) -> Option<Seq<char>>
    decreases deps.len(),
{
    if deps.len() == 0 {
        None
    } else if deps[0] == name {
        Some(self_dependency_message(name))
    } else if !previous.contains(deps[0]) {
        Some(missing_dependency_message(name, deps[0]))
    } else {
        dependency_problem(name, deps.drop_first(), previous)
    }
}

/// The texts of a list of names.
pub open spec fn names_of(names: Seq<&'static str>) -> Seq<Seq<char>> {
    names.map_values(|n: &'static str| n@)
}

fn contains_name(names: &[&'static str], name: &str) -> (r: bool)
    ensures
        r == names_of(names@).contains(name@),
{
    let mut i: usize = 0;
    while i < names.len()
        invariant
            i <= names@.len(),
            forall|j: int| 0 <= j < i ==> names@[j]@ != name@,
        decreases names@.len() - i,
    {
        if str_eq(names[i], name) {
            assert(names_of(names@)[i as int] == name@);
            return true;
        }
        i = i + 1;
    }
    proof {
        if names_of(names@).contains(name@) {
            let k = choose|k: int| 0 <= k < names_of(names@).len() && names_of(names@)[k] == name@;
            assert(names@[k]@ == name@);
        }
    }
    false
}

/// Checks the dependencies `deps` of extension `name` against the
/// extensions `previous_exts` that come before it (see
/// [`dependency_problem`]).
pub fn check_dependencies(
    name: &'static str,
    deps: &[&'static str],
    previous_exts: &[&'static str],
) -> (r: Option<String>)
    ensures
        match r {
            Some(m) => dependency_problem(name@, names_of(deps@), names_of(previous_exts@)) == Some(
                m@,
            ),
            None => dependency_problem(name@, names_of(deps@), names_of(previous_exts@)) is None,
        },
{
    let mut i: usize = 0;
    assert(names_of(deps@).skip(0) =~= names_of(deps@));
    while i < deps.len()
        invariant
            i <= deps@.len(),
            dependency_problem(name@, names_of(deps@), names_of(previous_exts@))
                == dependency_problem(name@, names_of(deps@).skip(i as int), names_of(previous_exts@)),
        decreases deps@.len() - i,
    {
        let dep = deps[i];
        proof {
            let rest = names_of(deps@).skip(i as int);
            assert(rest[0] == dep@);
            assert(rest.drop_first() =~= names_of(deps@).skip(i + 1));
        }
        if str_eq(dep, name) {
            let mut m = "Extension '".to_owned();
            m.append(name);
            m.append(
                "' is either depending on itself or there is another extension with the same name",
            );
            return Some(m);
        }
        if !contains_name(previous_exts, dep) {
            let mut m = "Extension '".to_owned();
            m.append(name);
            m.append("' is missing dependency '");
            m.append(dep);
            m.append("'");
            return Some(m);
        }
        i = i + 1;
    }
    None
}

/// An extension's name and the names of the extensions it depends on.
pub struct ExtensionDeps {
    pub name: &'static str,
    pub deps: Vec<&'static str>,
}

/// What is wrong with the dependencies of the extensions `exts`, each of
/// which may depend on the core extension `core` and on those before it:
/// the problem of the first extension that has one.
pub open spec fn extensions_problem(core: Seq<char>, exts: Seq<ExtensionDeps>, i: int) -> Option<
    Seq<char>,
>
    decreases exts.len() - i,
{
    if i < 0 || i >= exts.len() {
        None
    } else {
        let previous = seq![core] + exts.take(i).map_values(|e: ExtensionDeps| e.name@);
        match dependency_problem(exts[i].name@, names_of(exts[i].deps@), previous) {
            Some(m) => Some(m),
            None => extensions_problem(core, exts, i + 1),
        }
    }
}

/// Checks that every extension's dependencies come before it (see
/// [`extensions_problem`]).
pub fn check_extensions_dependencies(core: &'static str, exts: &Vec<ExtensionDeps>) -> (r: Option<
    String,
>)
    ensures
        match r {
            Some(m) => extensions_problem(core@, exts@, 0) == Some(m@),
            None => extensions_problem(core@, exts@, 0) is None,
        },
{
    let mut previous: Vec<&'static str> = vec![core];
    let mut i: usize = 0;
    while i < exts.len()
        invariant
            i <= exts@.len(),
            names_of(previous@) == seq![core@] + exts@.take(i as int).map_values(
                |e: ExtensionDeps| e.name@,
            ),
            extensions_problem(core@, exts@, 0) == extensions_problem(core@, exts@, i as int),
        decreases exts@.len() - i,
    {
        let ext = &exts[i];
        match check_dependencies(ext.name, ext.deps.as_slice(), previous.as_slice()) {
            Some(m) => {
                return Some(m);
            },
            None => {},
        }
        let ghost before = previous@;
        previous.push(ext.name);
        proof {
            assert(names_of(previous@) =~= names_of(before).push(ext.name@));
            assert(exts@.take(i + 1).map_values(|e: ExtensionDeps| e.name@) =~= exts@.take(
                i as int,
            ).map_values(|e: ExtensionDeps| e.name@).push(ext.name@));
        }
        i = i + 1;
    }
    None
}

/// Whether `name` occurs at two different positions of `names`.
pub open spec fn is_duplicated(names: Seq<Seq<char>>, name: Seq<char>) -> bool {
    exists|i: int, j: int| 0 <= i < j < names.len() && names[i] == name && names[j] == name
}

/// The names that occur more than once in `names`, each once, in the order
/// of their first occurrence, from position `k` on.
pub open spec fn duplicates_from(names: Seq<Seq<char>>, k: int) -> Seq<Seq<char>>
    decreases names.len() - k,
{
    if k < 0 || k >= names.len() {
        Seq::empty()
    } else if is_duplicated(names, names[k]) && !names.take(k).contains(names[k]) {
        seq![names[k]] + duplicates_from(names, k + 1)
    } else {
        duplicates_from(names, k + 1)
    }
}

/// The lines `  - {name}` for the names `ns`.
pub open spec fn name_lines(ns: Seq<Seq<char>>) -> Seq<char>
    decreases ns.len(),
{
    if ns.len() == 0 {
        Seq::empty()
    } else {
        "  - "@ + ns[0] + "\n"@ + name_lines(ns.drop_first())
    }
}

/// The message for op names that are not unique.
pub open spec fn duplicate_ops_message(dups: Seq<Seq<char>>) -> Seq<char> {
    "Found ops with duplicate names:\n"@ + name_lines(dups) + "Op names need to be unique."@
}

fn occurs_before(names: &[&'static str], k: usize) -> (r: bool)
    requires
        k < names@.len(),
    ensures
        r == names_of(names@).take(k as int).contains(names@[k as int]@),
{
    let found = contains_name(slice_prefix(names, k), names[k]);
    proof {
        assert(names_of(slice_prefix_spec(names@, k as int)) =~= names_of(names@).take(k as int));
    }
    found
}

spec fn slice_prefix_spec(s: Seq<&'static str>, k: int) -> Seq<&'static str> {
    s.take(k)
}

fn slice_prefix<'a>(names: &'a [&'static str], k: usize) -> (r: &'a [&'static str])
    requires
        k <= names@.len(),
    ensures
        r@ == slice_prefix_spec(names@, k as int),
{
    let (head, _tail) = names.split_at(k);
    head
}

fn occurs_twice(names: &[&'static str], name: &str) -> (r: bool)
    ensures
        r == is_duplicated(names_of(names@), name@),
{
    let mut first: Option<usize> = None;
    let mut i: usize = 0;
    while i < names.len()
        invariant
            i <= names@.len(),
            match first {
                None => forall|j: int| 0 <= j < i ==> names@[j]@ != name@,
                Some(f) => f < i && names@[f as int]@ == name@ && forall|j: int|
                    0 <= j < i && j != f ==> names@[j]@ != name@,
            },
        decreases names@.len() - i,
    {
        if str_eq(names[i], name) {
            match first {
                Some(f) => {
                    assert(names_of(names@)[f as int] == name@);
                    assert(names_of(names@)[i as int] == name@);
                    return true;
                },
                None => {
                    first = Some(i);
                },
            }
        }
        i = i + 1;
    }
    proof {
        if is_duplicated(names_of(names@), name@) {
            let (a, b) = choose|a: int, b: int|
                0 <= a < b < names@.len() && names_of(names@)[a] == name@ && names_of(names@)[b]
                    == name@;
            assert(names@[a]@ == name@);
            assert(names@[b]@ == name@);
        }
    }
    false
}

/// Checks that op names are unique: `None` when they are, else the message
/// that lists each name that occurs more than once, in the order of its
/// first occurrence.
pub fn check_no_duplicate_op_names(names: &[&'static str]) -> (r: Option<String>)
    ensures
        match r {
            None => duplicates_from(names_of(names@), 0).len() == 0,
            Some(m) => duplicates_from(names_of(names@), 0).len() > 0 && m@ == duplicate_ops_message(
                duplicates_from(names_of(names@), 0),
            ),
        },
{
    let ghost ns = names_of(names@);
    let mut lines = String::new();
    let mut any = false;
    let mut k: usize = names.len();
    assert(duplicates_from(ns, k as int) =~= Seq::<Seq<char>>::empty());
    while k > 0
        invariant
            k <= names@.len(),
            ns == names_of(names@),
            lines@ == name_lines(duplicates_from(ns, k as int)),
            any == (duplicates_from(ns, k as int).len() > 0),
        decreases k,
    {
        k = k - 1;
        let name = names[k];
        assert(ns[k as int] == name@);
        let dup = occurs_twice(names, name);
        let seen = occurs_before(names, k);
        if dup && !seen {
            let mut line = "  - ".to_owned();
            line.append(name);
            line.append("\n");
            line.append(lines.as_str());
            proof {
                let d = seq![name@] + duplicates_from(ns, k + 1);
                assert(d.drop_first() =~= duplicates_from(ns, k + 1));
            }
            lines = line;
            any = true;
        }
    }
    if !any {
        return None;
    }
    let mut m = "Found ops with duplicate names:\n".to_owned();
    m.append(lines.as_str());
    m.append("Op names need to be unique.");
    Some(m)
}

} // verus!

//! Module loaders: the errors they report and the loaders that serve modules
//! from memory.
use vstd::prelude::*;
use vstd::string::*;
use crate::core_error::CoreError;
use crate::error::JsNativeError;
use crate::module_specifier::ModuleSpecifier;
use crate::modules::{ModuleSource, ModuleType, RequestedModuleType, RequestedModuleTypeView};
use crate::str_map::StrMap;

verus! {

/// Why a module loader could not serve a module.
#[derive(Debug)]
pub enum ModuleLoaderError {
    SpecifierExcludedFromSnapshot(ModuleSpecifier),
    SpecifierMissingLazyLoadable(ModuleSpecifier),
    NpmUnsupportedMetaResolve,
    JsonMissingAttribute,
    NotFound,
    Unsupported { specifier: Box<ModuleSpecifier>, maybe_referrer: Option<Box<ModuleSpecifier>> },
}

/// The message of a module loader error.
pub open spec fn loader_error_message(e: ModuleLoaderError) -> Seq<char> {
    match e {
        ModuleLoaderError::SpecifierExcludedFromSnapshot(s) => "Specifier \""@ + s@
            + "\" was not passed as an extension module and was not included in the snapshot."@,
        ModuleLoaderError::SpecifierMissingLazyLoadable(s) => "Specifier \""@ + s@
            + "\" cannot be lazy-loaded as it was not included in the binary."@,
        ModuleLoaderError::NpmUnsupportedMetaResolve => "\"npm:\" specifiers are currently not supported in import.meta.resolve()"@,
        ModuleLoaderError::JsonMissingAttribute => "Attempted to load JSON module without specifying \"type\": \"json\" attribute in the import statement."@,
        ModuleLoaderError::NotFound => "Module not found"@,
        ModuleLoaderError::Unsupported { specifier, maybe_referrer } => "Module loading is not supported; attempted to load: \""@
            + specifier@ + "\" from \""@ + match maybe_referrer {
            Some(r) => r@,
            None => "(no referrer)"@,
        } + "\""@,
    }
}

impl ModuleLoaderError {
    /// The JavaScript error class the error is thrown as.
    pub fn get_class(&self) -> (r: &'static str)
        ensures
            r@ == "Error"@,
    {
        "Error"
    }

    /// The message of the error.
    pub fn to_display_string(&self) -> (r: String)
        ensures
            r@ == loader_error_message(*self),
    {
        match self {
            ModuleLoaderError::SpecifierExcludedFromSnapshot(s) => {
                let mut r = "Specifier \"".to_owned();
                r.append(s.as_str());
                r.append(
                    "\" was not passed as an extension module and was not included in the snapshot.",
                );
                r
            },
            ModuleLoaderError::SpecifierMissingLazyLoadable(s) => {
                let mut r = "Specifier \"".to_owned();
                r.append(s.as_str());
                r.append("\" cannot be lazy-loaded as it was not included in the binary.");
                r
            },
            ModuleLoaderError::NpmUnsupportedMetaResolve => {
                "\"npm:\" specifiers are currently not supported in import.meta.resolve()".to_owned()
            },
            ModuleLoaderError::JsonMissingAttribute => {
                "Attempted to load JSON module without specifying \"type\": \"json\" attribute in the import statement.".to_owned()
            },
            ModuleLoaderError::NotFound => "Module not found".to_owned(),
            ModuleLoaderError::Unsupported { specifier, maybe_referrer } => {
                let mut r = "Module loading is not supported; attempted to load: \"".to_owned();
                r.append(specifier.as_str());
                r.append("\" from \"");
                match maybe_referrer {
                    Some(referrer) => r.append(referrer.as_str()),
                    None => r.append("(no referrer)"),
                }
                r.append("\"");
                r
            },
        }
    }
}

/// The map that a list of (name, code) pairs builds when each pair is
/// inserted in turn: a later pair for a name replaces an earlier one.
pub open spec fn sources_map(pairs: Seq<(Seq<char>, String)>) -> Map<Seq<char>, String>
    decreases pairs.len(),
{
    if pairs.len() == 0 {
        Map::empty()
    } else {
        sources_map(pairs.drop_last()).insert(pairs.last().0, pairs.last().1)
    }
}

/// No later pair than `pairs[i]` has its name.
pub open spec fn is_last_of_name(pairs: Seq<(Seq<char>, String)>, i: int) -> bool {
    forall|j: int| i < j < pairs.len() ==> #[trigger] pairs[j].0 != pairs[i].0
}

/// The names of the map of sources are those of the pairs.
pub proof fn lemma_sources_map_names(pairs: Seq<(Seq<char>, String)>)
    ensures
        forall|k: Seq<char>|
            #[trigger] sources_map(pairs).contains_key(k) <==> exists|i: int|
                0 <= i < pairs.len() && pairs[i].0 == k,
    decreases pairs.len(),
{
    if pairs.len() > 0 {
        let init = pairs.drop_last();
        let last = pairs.len() - 1;
        lemma_sources_map_names(init);
        assert forall|k: Seq<char>|
            #[trigger] sources_map(pairs).contains_key(k) <==> exists|i: int|
                0 <= i < pairs.len() && pairs[i].0 == k by {
            if sources_map(pairs).contains_key(k) && k != pairs[last].0 {
                assert(sources_map(init).contains_key(k));
                let i = choose|i: int| 0 <= i < init.len() && init[i].0 == k;
                assert(pairs[i] == init[i]);
            }
            if exists|i: int| 0 <= i < pairs.len() && pairs[i].0 == k {
                let i = choose|i: int| 0 <= i < pairs.len() && pairs[i].0 == k;
                if i < last && k != pairs[last].0 {
                    assert(init[i] == pairs[i]);
                    assert(sources_map(init).contains_key(k));
                }
            }
        }
    }
}

/// The code of a name in the map of sources is that of its last pair.
pub proof fn lemma_sources_map_last(pairs: Seq<(Seq<char>, String)>, i: int)
    requires
        0 <= i < pairs.len(),
        is_last_of_name(pairs, i),
    ensures
        sources_map(pairs).contains_key(pairs[i].0),
        sources_map(pairs)[pairs[i].0] == pairs[i].1,
    decreases pairs.len(),
{
    let last = pairs.len() - 1;
    if i < last {
        let init = pairs.drop_last();
        assert(pairs[last].0 != pairs[i].0);
        assert(init[i] == pairs[i]);
        assert forall|j: int| i < j < init.len() implies #[trigger] init[j].0 != init[i].0 by {
            assert(init[j] == pairs[j]);
            assert(pairs[j].0 != pairs[i].0);
        }
        lemma_sources_map_last(init, i);
    }
}

/// The (name, code) pairs of a list of (specifier, code) pairs.
pub open spec fn specifier_pairs(pairs: Seq<(ModuleSpecifier, String)>) -> Seq<(Seq<char>, String)> {
    pairs.map_values(|p: (ModuleSpecifier, String)| (p.0@, p.1))
}

/// The (name, code) pairs of a list of text pairs.
pub open spec fn text_pairs(pairs: Seq<(String, String)>) -> Seq<(Seq<char>, String)> {
    pairs.map_values(|p: (String, String)| (p.0@, p.1))
}

/// Builds a map of sources from (name, code) pairs, in order.
fn sources_from_texts(pairs: Vec<(String, String)>) -> (r: StrMap<String>)
    ensures
        r.wf(),
        r@ == sources_map(text_pairs(pairs@)),
{
    let mut map = StrMap::new();
    let mut i: usize = 0;
    while i < pairs.len()
        invariant
            i <= pairs@.len(),
            map.wf(),
            map@ == sources_map(text_pairs(pairs@.take(i as int))),
        decreases pairs@.len() - i,
    {
        let name = pairs[i].0.clone();
        let code = pairs[i].1.clone();
        map.insert(name, code);
        proof {
            let t = text_pairs(pairs@.take(i + 1));
            assert(t.drop_last() =~= text_pairs(pairs@.take(i as int)));
        }
        i = i + 1;
    }
    assert(pairs@.take(pairs@.len() as int) =~= pairs@);
    map
}

/// The source of a module that a loader serves from memory: JavaScript,
/// under the URL it was asked for.
pub open spec fn served_source(src: ModuleSource, specifier: Seq<char>, code: String) -> bool {
    &&& src.spec_code() == code@
    &&& src.spec_module_type() == ModuleType::JavaScript
    &&& src.spec_url_specified() == specifier
    &&& src.spec_url_found() is None
}

/// A loader for runtimes that load no modules: every load is refused.
pub struct NoopModuleLoader;

impl NoopModuleLoader {
    /// Refuses to load `module_specifier`, naming it and the referrer.
    pub fn load(
        &self,
        module_specifier: &ModuleSpecifier,
        maybe_referrer: Option<&ModuleSpecifier>,
    ) -> (r: Result<ModuleSource, ModuleLoaderError>)
        ensures
            match r {
                Err(ModuleLoaderError::Unsupported { specifier, maybe_referrer: m }) => specifier@
                    == module_specifier@ && match (m, maybe_referrer) {
                    (Some(a), Some(b)) => a@ == b@,
                    (None, None) => true,
                    _ => false,
                },
                _ => false,
            },
    {
        let maybe = match maybe_referrer {
            Some(referrer) => Some(Box::new(referrer.duplicate())),
            None => None,
        };
        Err(
            ModuleLoaderError::Unsupported {
                specifier: Box::new(module_specifier.duplicate()),
                maybe_referrer: maybe,
            },
        )
    }
}

/// Loads the modules that extensions bring; each can be loaded once.
pub struct ExtModuleLoader {
    sources: StrMap<String>,
}

impl ExtModuleLoader {
    /// The sources not loaded yet, by module name.
    pub closed spec fn spec_sources(&self) -> Map<Seq<char>, String> {
        self.sources@
    }

    pub closed spec fn wf(&self) -> bool {
        self.sources.wf()
    }

    /// A loader for the (name, code) pairs `loaded_sources`; a later pair for
    /// a name replaces an earlier one.
    pub fn new(loaded_sources: Vec<(String, String)>) -> (r: Self)
        ensures
            r.wf(),
            r.spec_sources() == sources_map(text_pairs(loaded_sources@)),
    {
        ExtModuleLoader { sources: sources_from_texts(loaded_sources) }
    }

    /// Takes the source of `specifier` out of the loader; an error where
    /// there is none.
    pub fn load(&mut self, specifier: &ModuleSpecifier) -> (r: Result<ModuleSource, ModuleLoaderError>)
        requires
            old(self).wf(),
        ensures
            final(self).wf(),
            final(self).spec_sources() == old(self).spec_sources().remove(specifier@),
            match r {
                Ok(src) => old(self).spec_sources().contains_key(specifier@) && served_source(
                    src,
                    specifier@,
                    old(self).spec_sources()[specifier@],
                ),
                Err(ModuleLoaderError::SpecifierExcludedFromSnapshot(s)) => !old(
                    self,
                ).spec_sources().contains_key(specifier@) && s@ == specifier@,
                Err(_) => false,
            },
    {
        match self.sources.remove(specifier.as_str()) {
            Some(code) => Ok(ModuleSource::new(ModuleType::JavaScript, code, specifier)),
            None => Err(ModuleLoaderError::SpecifierExcludedFromSnapshot(specifier.duplicate())),
        }
    }

    /// Ends loading: an error naming the modules that were never loaded,
    /// if there are any.
    pub fn finalize(self) -> (r: Result<(), CoreError>)
        requires
            self.wf(),
        ensures
            match r {
                Ok(()) => self.spec_sources().dom() =~= Set::<Seq<char>>::empty(),
                Err(CoreError::UnusedModules(names)) => {
                    &&& names@.len() > 0
                    &&& forall|i: int|
                        0 <= i < names@.len() ==> self.spec_sources().contains_key(
                            #[trigger] names@[i]@,
                        )
                    &&& forall|k: Seq<char>|
                        #[trigger] self.spec_sources().contains_key(k) ==> exists|i: int|
                            0 <= i < names@.len() && names@[i]@ == k
                },
                Err(_) => false,
            },
    {
        if self.sources.is_empty() {
            Ok(())
        } else {
            let names = self.sources.keys();
            proof {
                let k = choose|k: Seq<char>| self.sources@.contains_key(k);
                assert(self.sources@.dom().contains(k));
            }
            Err(CoreError::UnusedModules(names))
        }
    }
}

/// Loads the modules that were embedded to be loaded lazily; each can be
/// loaded once.
pub struct LazyEsmModuleLoader {
    sources: StrMap<String>,
}

impl LazyEsmModuleLoader {
    /// The sources not loaded yet, by module name.
    pub closed spec fn spec_sources(&self) -> Map<Seq<char>, String> {
        self.sources@
    }

    pub closed spec fn wf(&self) -> bool {
        self.sources.wf()
    }

    /// A loader for `sources`.
    pub fn new(sources: StrMap<String>) -> (r: Self)
        requires
            sources.wf(),
        ensures
            r.wf(),
            r.spec_sources() == sources@,
    {
        LazyEsmModuleLoader { sources }
    }

    /// Takes the source of `specifier` out of the loader; an error where
    /// there is none.
    pub fn load(&mut self, specifier: &ModuleSpecifier) -> (r: Result<ModuleSource, ModuleLoaderError>)
        requires
            old(self).wf(),
        ensures
            final(self).wf(),
            final(self).spec_sources() == old(self).spec_sources().remove(specifier@),
            match r {
                Ok(src) => old(self).spec_sources().contains_key(specifier@) && served_source(
                    src,
                    specifier@,
                    old(self).spec_sources()[specifier@],
                ),
                Err(ModuleLoaderError::SpecifierMissingLazyLoadable(s)) => !old(
                    self,
                ).spec_sources().contains_key(specifier@) && s@ == specifier@,
                Err(_) => false,
            },
    {
        match self.sources.remove(specifier.as_str()) {
            Some(code) => Ok(ModuleSource::new(ModuleType::JavaScript, code, specifier)),
            None => Err(ModuleLoaderError::SpecifierMissingLazyLoadable(specifier.duplicate())),
        }
    }
}

/// A loader that serves a fixed set of modules from memory, for tests and
/// for embedders without a file system.
pub struct StaticModuleLoader {
    map: StrMap<String>,
}

impl StaticModuleLoader {
    /// The code it serves, by specifier.
    pub closed spec fn spec_map(&self) -> Map<Seq<char>, String> {
        self.map@
    }

    pub closed spec fn wf(&self) -> bool {
        self.map.wf()
    }

    /// A loader for the (specifier, code) pairs `from`; a later pair for a
    /// specifier replaces an earlier one.
    pub fn new(from: Vec<(ModuleSpecifier, String)>) -> (r: Self)
        ensures
            r.wf(),
            r.spec_map() == sources_map(specifier_pairs(from@)),
    {
        let mut map = StrMap::new();
        let mut i: usize = 0;
        while i < from.len()
            invariant
                i <= from@.len(),
                map.wf(),
                map@ == sources_map(specifier_pairs(from@.take(i as int))),
            decreases from@.len() - i,
        {
            let name = from[i].0.to_string();
            let code = from[i].1.clone();
            map.insert(name, code);
            proof {
                let t = specifier_pairs(from@.take(i + 1));
                assert(t.drop_last() =~= specifier_pairs(from@.take(i as int)));
            }
            i = i + 1;
        }
        assert(from@.take(from@.len() as int) =~= from@);
        StaticModuleLoader { map }
    }

    /// A loader that serves one module.
    pub fn with(specifier: ModuleSpecifier, code: String) -> (r: Self)
        ensures
            r.wf(),
            r.spec_map() == Map::<Seq<char>, String>::empty().insert(specifier@, code),
    {
        let v = vec![(specifier, code)];
        proof {
            let p = specifier_pairs(v@);
            assert(p.drop_last() =~= Seq::<(Seq<char>, String)>::empty());
            assert(sources_map(p.drop_last()) == Map::<Seq<char>, String>::empty());
        }
        let r = Self::new(v);
        r
    }

    /// The module for `module_specifier`, or `NotFound`.
    pub fn load(&self, module_specifier: &ModuleSpecifier) -> (r: Result<ModuleSource, ModuleLoaderError>)
        requires
            self.wf(),
        ensures
            match r {
                Ok(src) => self.spec_map().contains_key(module_specifier@) && served_source(
                    src,
                    module_specifier@,
                    self.spec_map()[module_specifier@],
                ),
                Err(e) => !self.spec_map().contains_key(module_specifier@) && e
                    is NotFound,
            },
    {
        match self.map.get(module_specifier.as_str()) {
            Some(code) => Ok(ModuleSource::new(ModuleType::JavaScript, code.clone(), module_specifier)),
            None => Err(ModuleLoaderError::NotFound),
        }
    }
}

/// The ASCII lower case of a byte.
pub open spec fn ascii_lower(b: u8) -> u8 {
    if 65 <= b <= 90 {
        (b + 32) as u8
    } else {
        b
    }
}

/// Whether the extension `ext` is `json` in any case.
pub open spec fn is_json_extension(ext: Seq<u8>) -> bool {
    ext.len() == 4 && ascii_lower(ext[0]) == 106 && ascii_lower(ext[1]) == 115 && ascii_lower(ext[2])
        == 111 && ascii_lower(ext[3]) == 110
}

/// The module type a file gets: JSON where its extension is `json`, else
/// JavaScript.
pub open spec fn file_module_type(extension: Option<Seq<u8>>) -> ModuleType {
    match extension {
        Some(ext) => if is_json_extension(ext) {
            ModuleType::Json
        } else {
            ModuleType::JavaScript
        },
        None => ModuleType::JavaScript,
    }
}

fn lower(b: u8) -> (r: u8)
    ensures
        r == ascii_lower(b),
{
    if 65 <= b && b <= 90 {
        b + 32
    } else {
        b
    }
}

/// A loader that reads modules from the file system; reading happens
/// outside this library.
pub struct FsModuleLoader;

impl FsModuleLoader {
    /// The type of the module in a file with extension `extension`, checked
    /// against the type the import asked for: a JSON file is an error unless
    /// JSON was asked for.
    pub fn module_type_for(
        extension: Option<&str>,
        requested_module_type: &RequestedModuleType,
    ) -> (r: Result<ModuleType, ModuleLoaderError>)
        ensures
            ({
                let t = file_module_type(
                    match extension {
                        Some(e) => Some(e.spec_bytes()),
                        None => None,
                    },
                );
                match r {
                    Ok(ty) => ty == t && (t == ModuleType::Json ==> requested_module_type@
                        == RequestedModuleTypeView::Json),
                    Err(e) => e is JsonMissingAttribute && t == ModuleType::Json
                        && requested_module_type@ != RequestedModuleTypeView::Json,
                }
            }),
    {
        let module_type = match extension {
            Some(ext) => {
                let b = ext.as_bytes();
                if b.len() == 4 && lower(b[0]) == 106 && lower(b[1]) == 115 && lower(b[2]) == 111
                    && lower(b[3]) == 110 {
                    ModuleType::Json
                } else {
                    ModuleType::JavaScript
                }
            },
            None => ModuleType::JavaScript,
        };
        let requested_json = match requested_module_type {
            RequestedModuleType::Json => true,
            _ => false,
        };
        if module_type == ModuleType::Json && !requested_json {
            return Err(ModuleLoaderError::JsonMissingAttribute);
        }
        Ok(module_type)
    }

    /// The error for a specifier that is no file URL.
    pub fn not_a_file_url(module_specifier: &ModuleSpecifier) -> (r: JsNativeError)
        ensures
            r.spec_class()@ == "Error"@,
            r.spec_message() == "Provided module specifier \""@ + module_specifier@
                + "\" is not a file URL."@,
    {
        let mut msg = "Provided module specifier \"".to_owned();
        msg.append(module_specifier.as_str());
        msg.append("\" is not a file URL.");
        JsNativeError::generic(msg.as_str())
    }
}

/// How many times a loader was asked to resolve, prepare and load.
#[derive(Clone, Copy, Debug, PartialEq, Eq, Structural)]
pub struct ModuleLoadEventCounts {
    pub resolve: usize,
    pub prepare: usize,
    pub load: usize,
}

impl ModuleLoadEventCounts {
    /// The counts `resolve`, `prepare` and `load`.
    pub fn new(resolve: usize, prepare: usize, load: usize) -> (r: Self)
        ensures
            r.resolve == resolve,
            r.prepare == prepare,
            r.load == load,
    {
        ModuleLoadEventCounts { resolve, prepare, load }
    }
}

impl Default for ModuleLoadEventCounts {
    fn default() -> (r: Self)
        ensures
            r.resolve == 0 && r.prepare == 0 && r.load == 0,
    {
        ModuleLoadEventCounts { resolve: 0, prepare: 0, load: 0 }
    }
}

} // verus!

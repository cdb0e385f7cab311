//! Module kinds, module sources, import attributes and module loaders.
use vstd::prelude::*;
use crate::module_specifier::ModuleSpecifier;
use crate::str_map::StrMap;
use crate::loaders::ModuleLoaderError;
use crate::text::{bytes_starts_with, starts_with, str_eq};

verus! {

/// What `import.meta.resolve` gives by default: `npm:` specifiers are
/// refused; any other specifier is what `resolve`, the loader's resolution
/// of it as a dynamic import, gives.
pub fn default_import_meta_resolve_cb<F: FnOnce() -> Result<ModuleSpecifier, ModuleLoaderError>>(
    resolve: F,
    specifier: &str,
) -> (r: Result<ModuleSpecifier, ModuleLoaderError>)
    requires
        !starts_with(specifier@, "npm:"@) ==> call_requires(resolve, ()),
    ensures
        starts_with(specifier@, "npm:"@) ==> r matches Err(ModuleLoaderError::NpmUnsupportedMetaResolve),
        !starts_with(specifier@, "npm:"@) ==> call_ensures(resolve, (), r),
{
    proof {
        reveal_strlit("npm:");
    }
    if bytes_starts_with(specifier.as_bytes(), "npm:".as_bytes()) {
        return Err(ModuleLoaderError::NpmUnsupportedMetaResolve);
    }
    resolve()
}

/// A type of module to be executed.
///
/// For non-JavaScript modules this does not say how to interpret the module;
/// it only serves to check the module against an import attribute.
#[derive(Clone, Copy, Debug, PartialEq, Eq, Hash, Structural)]
pub enum ModuleType {
    JavaScript,
    Json,
    Text,
    Url,
    Buffer,
    CssModule,
}

/// The name under which a module type is shown.
pub open spec fn module_type_name(t: ModuleType) -> Seq<char> {
    match t {
        ModuleType::JavaScript => "JavaScript"@,
        ModuleType::Json => "JSON"@,
        ModuleType::Text => "Text"@,
        ModuleType::Url => "Url"@,
        ModuleType::Buffer => "Buffer"@,
        ModuleType::CssModule => "CssModule"@,
    }
}

impl ModuleType {
    /// The name under which the module type is shown.
    pub fn to_display_string(&self) -> (r: String)
        ensures
            r@ == module_type_name(*self),
    {
        match self {
            ModuleType::JavaScript => "JavaScript".to_owned(),
            ModuleType::Json => "JSON".to_owned(),
            ModuleType::Text => "Text".to_owned(),
            ModuleType::Url => "Url".to_owned(),
            ModuleType::Buffer => "Buffer".to_owned(),
            ModuleType::CssModule => "CssModule".to_owned(),
        }
    }
}

/// How a module came to be requested.
#[derive(Clone, Copy, Debug, PartialEq, Eq, Structural)]
pub enum ResolutionKind {
    /// The top-level module passed to the runtime's main-module load.
    MainModule,
    /// Any other module reached through a static import.
    Import,
    /// A module loaded through `import()`, with everything it imports.
    DynamicImport,
}

/// The module type that an import asks for through its attributes.
#[derive(Debug)]
pub enum RequestedModuleType {
    /// No `type` attribute.
    NoAttribute,
    /// `type: "json"`.
    Json,
    /// Any other `type` attribute.
    Other(String),
}

/// A requested module type, with its text as a sequence of characters.
pub enum RequestedModuleTypeView {
    NoAttribute,
    Json,
    Other(Seq<char>),
}

impl View for RequestedModuleType {
    type V = RequestedModuleTypeView;

    open spec fn view(&self) -> RequestedModuleTypeView {
        match self {
            RequestedModuleType::NoAttribute => RequestedModuleTypeView::NoAttribute,
            RequestedModuleType::Json => RequestedModuleTypeView::Json,
            RequestedModuleType::Other(s) => RequestedModuleTypeView::Other(s@),
        }
    }
}

impl RequestedModuleType {
    /// A second value equal to this one.
    pub fn duplicate(&self) -> (r: RequestedModuleType)
        ensures
            r@ == self@,
    {
        match self {
            RequestedModuleType::NoAttribute => RequestedModuleType::NoAttribute,
            RequestedModuleType::Json => RequestedModuleType::Json,
            RequestedModuleType::Other(s) => RequestedModuleType::Other(s.clone()),
        }
    }

    /// Whether two requested module types are the same.
    pub fn same_as(&self, other: &RequestedModuleType) -> (r: bool)
        ensures
            r == (self@ == other@),
    {
        match (self, other) {
            (RequestedModuleType::NoAttribute, RequestedModuleType::NoAttribute) => true,
            (RequestedModuleType::Json, RequestedModuleType::Json) => true,
            (RequestedModuleType::Other(a), RequestedModuleType::Other(b)) => str_eq(
                a.as_str(),
                b.as_str(),
            ),
            _ => false,
        }
    }
}

/// The module type that an import statement asserts.
#[derive(Debug)]
pub enum AssertedModuleType {
    /// JavaScript or WebAssembly.
    JavaScriptOrWasm,
    Json,
    Text,
    Url,
    CssModule,
    /// A module type that is not well known.
    Other(String),
}

/// The name under which an asserted module type is shown.
pub open spec fn asserted_module_type_name(t: AssertedModuleType) -> Seq<char> {
    match t {
        AssertedModuleType::JavaScriptOrWasm => "JavaScriptOrWasm"@,
        AssertedModuleType::Json => "JSON"@,
        AssertedModuleType::Text => "text"@,
        AssertedModuleType::Url => "url"@,
        AssertedModuleType::CssModule => "css-module"@,
        AssertedModuleType::Other(ty) => "Other("@ + ty@ + ")"@,
    }
}

/// The asserted module type that a module of type `t` satisfies; `Buffer`
/// has none.
pub open spec fn asserted_of_module_type(t: ModuleType) -> AssertedModuleType
    recommends
        t != ModuleType::Buffer,
{
    match t {
        ModuleType::JavaScript => AssertedModuleType::JavaScriptOrWasm,
        ModuleType::Json => AssertedModuleType::Json,
        ModuleType::Text => AssertedModuleType::Text,
        ModuleType::Url => AssertedModuleType::Url,
        _ => AssertedModuleType::CssModule,
    }
}

impl AssertedModuleType {
    /// The asserted module type that a module of type `module_type`
    /// satisfies. There is none for `Buffer`.
    pub fn from_module_type(module_type: ModuleType) -> (r: AssertedModuleType)
        requires
            module_type != ModuleType::Buffer,
        ensures
            r == asserted_of_module_type(module_type),
    {
        match module_type {
            ModuleType::JavaScript => AssertedModuleType::JavaScriptOrWasm,
            ModuleType::Json => AssertedModuleType::Json,
            ModuleType::Text => AssertedModuleType::Text,
            ModuleType::Url => AssertedModuleType::Url,
            _ => AssertedModuleType::CssModule,
        }
    }

    /// Whether a module of type `other` satisfies this assertion. There is
    /// no answer for `Buffer`.
    pub fn matches_module_type(&self, other: ModuleType) -> (r: bool)
        requires
            other != ModuleType::Buffer,
        ensures
            r == (*self == asserted_of_module_type(other)),
    {
        match (self, other) {
            (AssertedModuleType::JavaScriptOrWasm, ModuleType::JavaScript) => true,
            (AssertedModuleType::Json, ModuleType::Json) => true,
            (AssertedModuleType::Text, ModuleType::Text) => true,
            (AssertedModuleType::Url, ModuleType::Url) => true,
            (AssertedModuleType::CssModule, ModuleType::CssModule) => true,
            _ => false,
        }
    }

    /// The name under which the asserted module type is shown.
    pub fn to_display_string(&self) -> (r: String)
        ensures
            r@ == asserted_module_type_name(*self),
    {
        match self {
            AssertedModuleType::JavaScriptOrWasm => "JavaScriptOrWasm".to_owned(),
            AssertedModuleType::Json => "JSON".to_owned(),
            AssertedModuleType::Text => "text".to_owned(),
            AssertedModuleType::Url => "url".to_owned(),
            AssertedModuleType::CssModule => "css-module".to_owned(),
            AssertedModuleType::Other(ty) => {
                let mut r = "Other(".to_owned();
                r.append(ty.as_str());
                r.append(")");
                r
            },
        }
    }
}

/// The asserted module type that the `type` attribute of an import selects:
/// `json`, `text` and `url` select their kinds, anything else or no `type`
/// at all selects JavaScript.
pub open spec fn asserted_type_of_attributes(attributes: Map<Seq<char>, String>) -> AssertedModuleType {
    if attributes.contains_key("type"@) {
        let ty = attributes["type"@]@;
        if ty == "json"@ {
            AssertedModuleType::Json
        } else if ty == "text"@ {
            AssertedModuleType::Text
        } else if ty == "url"@ {
            AssertedModuleType::Url
        } else {
            AssertedModuleType::JavaScriptOrWasm
        }
    } else {
        AssertedModuleType::JavaScriptOrWasm
    }
}

/// The asserted module type selected by the import attributes `assertions`
/// (see [`asserted_type_of_attributes`]).
pub fn get_asserted_module_type_from_assertions(assertions: &StrMap<String>) -> (r: AssertedModuleType)
    requires
        assertions.wf(),
    ensures
        r == asserted_type_of_attributes(assertions@),
{
    match assertions.get("type") {
        Some(ty) => {
            if str_eq(ty.as_str(), "json") {
                AssertedModuleType::Json
            } else if str_eq(ty.as_str(), "text") {
                AssertedModuleType::Text
            } else if str_eq(ty.as_str(), "url") {
                AssertedModuleType::Url
            } else {
                AssertedModuleType::JavaScriptOrWasm
            }
        },
        None => AssertedModuleType::JavaScriptOrWasm,
    }
}

/// The values of the `type` import attribute that are supported.
pub open spec fn is_supported_type_attribute(value: Seq<char>) -> bool {
    ||| value == "json"@
    ||| value == "text"@
    ||| value == "url"@
    ||| value == "buffer"@
    ||| value == "css-module"@
}

fn supported_type_attribute(value: &str) -> (r: bool)
    ensures
        r == is_supported_type_attribute(value@),
{
    str_eq(value, "json") || str_eq(value, "text") || str_eq(value, "url") || str_eq(value, "buffer")
        || str_eq(value, "css-module")
}

/// Whether the attribute `key` with value `value` is accepted: only `type`
/// is, and only with a supported value.
pub open spec fn attribute_is_valid(key: Seq<char>, value: Seq<char>) -> bool {
    key == "type"@ && is_supported_type_attribute(value)
}

/// The `TypeError` message for an attribute that is not accepted.
pub open spec fn attribute_error_message(key: Seq<char>, value: Seq<char>) -> Seq<char> {
    if key != "type"@ {
        "\""@ + key + "\" attribute is not supported."@
    } else {
        "\""@ + value + "\" is not a valid module type."@
    }
}

/// Checks the import attributes `assertions`: `None` when every attribute
/// is accepted; otherwise the message of the `TypeError` to throw for one
/// attribute that is not. Which one, where several are not, follows the
/// order in which the map holds them.
pub fn validate_import_attributes(assertions: &StrMap<String>) -> (r: Option<String>)
    requires
        assertions.wf(),
    ensures
        match r {
            None => forall|k: Seq<char>|
                #[trigger] assertions@.contains_key(k) ==> attribute_is_valid(k, assertions@[k]@),
            Some(msg) => exists|k: Seq<char>|
                #[trigger] assertions@.contains_key(k) && !attribute_is_valid(k, assertions@[k]@)
                    && msg@ == attribute_error_message(k, assertions@[k]@),
        },
{
    let keys = assertions.keys();
    let mut i: usize = 0;
    while i < keys.len()
        invariant
            assertions.wf(),
            i <= keys@.len(),
            forall|j: int| 0 <= j < keys@.len() ==> assertions@.contains_key(#[trigger] keys@[j]@),
            forall|k: Seq<char>|
                #[trigger] assertions@.contains_key(k) ==> exists|j: int|
                    0 <= j < keys@.len() && keys@[j]@ == k,
            forall|j: int|
                0 <= j < i ==> attribute_is_valid(
                    #[trigger] keys@[j]@,
                    assertions@[keys@[j]@]@,
                ),
        decreases keys@.len() - i,
    {
        let key = keys[i].as_str();
        assert(assertions@.contains_key(keys@[i as int]@));
        let value = match assertions.get(key) {
            Some(v) => v.as_str(),
            None => {
                return None;
            },
        };
        if !str_eq(key, "type") {
            let mut msg = "\"".to_owned();
            msg.append(key);
            msg.append("\" attribute is not supported.");
            return Some(msg);
        }
        if !supported_type_attribute(value) {
            let mut msg = "\"".to_owned();
            msg.append(value);
            msg.append("\" is not a valid module type.");
            return Some(msg);
        }
        i = i + 1;
    }
    proof {
        assert forall|k: Seq<char>| #[trigger]
            assertions@.contains_key(k) implies attribute_is_valid(k, assertions@[k]@) by {
            let j = choose|j: int| 0 <= j < keys@.len() && keys@[j]@ == k;
            assert(attribute_is_valid(keys@[j]@, assertions@[keys@[j]@]@));
        }
    }
    None
}

/// The source of an ES module, with the URL it was asked for under and,
/// where a redirect led elsewhere, the URL it was found at.
pub struct ModuleSource {
    pub code: String,
    pub module_type: ModuleType,
    module_url_specified: String,
    module_url_found: Option<String>,
}

impl ModuleSource {
    /// The code of the module.
    pub closed spec fn spec_code(&self) -> Seq<char> {
        self.code@
    }

    /// The type of the module.
    pub closed spec fn spec_module_type(&self) -> ModuleType {
        self.module_type
    }

    /// The URL the module was asked for under.
    pub closed spec fn spec_url_specified(&self) -> Seq<char> {
        self.module_url_specified@
    }

    /// The URL the module was found at, where it differs from the one asked
    /// for.
    pub closed spec fn spec_url_found(&self) -> Option<Seq<char>> {
        match self.module_url_found {
            Some(u) => Some(u@),
            None => None,
        }
    }

    /// A module source without a redirect.
    pub fn new(module_type: ModuleType, code: String, specifier: &ModuleSpecifier) -> (r: Self)
        ensures
            r.spec_code() == code@,
            r.spec_module_type() == module_type,
            r.spec_url_specified() == specifier@,
            r.spec_url_found() is None,
    {
        ModuleSource {
            code,
            module_type,
            module_url_specified: specifier.to_string(),
            module_url_found: None,
        }
    }

    /// A module source that may have been redirected: when `specifier_found`
    /// is the same URL as `specifier`, this is [`ModuleSource::new`].
    pub fn new_with_redirect(
        module_type: ModuleType,
        code: String,
        specifier: &ModuleSpecifier,
        specifier_found: &ModuleSpecifier,
    ) -> (r: Self)
        ensures
            r.spec_code() == code@,
            r.spec_module_type() == module_type,
            r.spec_url_specified() == specifier@,
            r.spec_url_found() == (if specifier_found@ == specifier@ {
                None
            } else {
                Some(specifier_found@)
            }),
    {
        let module_url_found = if specifier.same_as(specifier_found) {
            None
        } else {
            Some(specifier_found.to_string())
        };
        ModuleSource {
            code,
            module_type,
            module_url_specified: specifier.to_string(),
            module_url_found,
        }
    }

    /// A JavaScript module source for tests, named `file`.
    pub fn for_test(code: &str, file: &str) -> (r: Self)
        ensures
            r.spec_code() == code@,
            r.spec_module_type() == ModuleType::JavaScript,
            r.spec_url_specified() == file@,
            r.spec_url_found() is None,
    {
        ModuleSource {
            code: code.to_owned(),
            module_type: ModuleType::JavaScript,
            module_url_specified: file.to_owned(),
            module_url_found: None,
        }
    }

    /// A JavaScript module source for tests, asked for as `specified` and
    /// found at `found`; when the two are the same this is
    /// [`ModuleSource::for_test`].
    pub fn for_test_with_redirect(code: &str, specified: &str, found: &str) -> (r: Self)
        ensures
            r.spec_code() == code@,
            r.spec_module_type() == ModuleType::JavaScript,
            r.spec_url_specified() == specified@,
            r.spec_url_found() == (if found@ == specified@ {
                None
            } else {
                Some(found@)
            }),
    {
        let found_url = if str_eq(found, specified) {
            None
        } else {
            Some(found.to_owned())
        };
        ModuleSource {
            code: code.to_owned(),
            module_type: ModuleType::JavaScript,
            module_url_specified: specified.to_owned(),
            module_url_found: found_url,
        }
    }

    /// The URL the module was asked for under.
    pub fn module_url_specified(&self) -> (r: &str)
        ensures
            r@ == self.spec_url_specified(),
    {
        self.module_url_specified.as_str()
    }

    /// The URL the module was found at, where it differs from the one asked
    /// for.
    pub fn module_url_found(&self) -> (r: Option<&str>)
        ensures
            match r {
                Some(u) => self.spec_url_found() == Some(u@),
                None => self.spec_url_found() is None,
            },
    {
        match &self.module_url_found {
            Some(u) => Some(u.as_str()),
            None => None,
        }
    }
}

} // verus!

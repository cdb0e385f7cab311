//! Module specifiers: absolute URLs, held by their serialization.
use vstd::prelude::*;

verus! {

/// What `url::Url::parse` makes of `s`: its serialization, its scheme and its
/// path, or `None` when it rejects `s`.
pub uninterp spec fn parsed_url(s: Seq<char>) -> Option<(Seq<char>, Seq<char>, Seq<char>)>;

/// `url::Url::parse`, then `Url::as_str`, `Url::scheme` and `Url::path` of
/// the result. What the parser accepts and how it normalizes is not stated:
/// the result is named by `parsed_url`.
#[verifier::external_body]
pub(crate) fn parse_url(s: &str) -> (r: Option<(String, String, String)>)
    ensures
        match r {
            Some((ser, scheme, path)) => parsed_url(s@) == Some((ser@, scheme@, path@)),
            None => parsed_url(s@) is None,
        },
{
    match url::Url::parse(s) {
        Ok(u) => Some((u.as_str().to_owned(), u.scheme().to_owned(), u.path().to_owned())),
        Err(_) => None,
    }
}

/// An absolute URL that names a module, kept as the text the URL parser
/// serialized it to.
#[derive(Debug)]
pub struct ModuleSpecifier {
    serialization: String,
}

impl View for ModuleSpecifier {
    type V = Seq<char>;

    open spec fn view(&self) -> Seq<char> {
        self.spec_serialization()
    }
}

impl ModuleSpecifier {
    /// The serialization of the URL.
    pub closed spec fn spec_serialization(&self) -> Seq<char> {
        self.serialization@
    }

    /// Parses `s` as a URL; `None` where the URL parser rejects it.
    pub fn parse(s: &str) -> (r: Option<ModuleSpecifier>)
        ensures
            match r {
                Some(m) => match parsed_url(s@) {
                    Some((ser, _scheme, _path)) => m@ == ser,
                    None => false,
                },
                None => parsed_url(s@) is None,
            },
    {
        match parse_url(s) {
            Some((ser, _scheme, _path)) => Some(ModuleSpecifier { serialization: ser }),
            None => None,
        }
    }

    /// The serialization of the URL.
    pub fn as_str(&self) -> (r: &str)
        ensures
            r@ == self@,
    {
        self.serialization.as_str()
    }

    /// A copy of the serialization.
    pub fn to_string(&self) -> (r: String)
        ensures
            r@ == self@,
    {
        self.serialization.clone()
    }

    /// A second specifier for the same URL.
    pub fn duplicate(&self) -> (r: ModuleSpecifier)
        ensures
            r@ == self@,
    {
        ModuleSpecifier { serialization: self.serialization.clone() }
    }

    /// Whether two specifiers name the same URL.
    pub fn same_as(&self, other: &ModuleSpecifier) -> (r: bool)
        ensures
            r == (self@ == other@),
    {
        crate::text::str_eq(self.serialization.as_str(), other.serialization.as_str())
    }
}

} // verus!

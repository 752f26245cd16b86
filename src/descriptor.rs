//! Names of object stores.
use vstd::prelude::*;

verus! {

/// The pair (origin, store name) that names one object store.
pub struct StoreDescription {
    pub origin: String,
    pub name: String,
}

/// The canonical string form of a store: `{origin}::{name}`.
pub open spec fn descriptor_string(origin: Seq<char>, name: Seq<char>) -> Seq<char> {
    origin + seq![':', ':'] + name
}

impl StoreDescription {
    pub fn new(origin: String, name: String) -> (r: StoreDescription)
        ensures
            r.origin@ == origin@,
            r.name@ == name@,
    {
        StoreDescription { origin, name }
    }

    pub open spec fn spec_string(&self) -> Seq<char> {
        descriptor_string(self.origin@, self.name@)
    }

    /// The canonical string form, `{origin}::{name}`.
    pub fn to_string(&self) -> (r: String)
        ensures
            r@ == self.spec_string(),
    {
        let mut s = self.origin.clone();
        s.append("::");
        s.append(self.name.as_str());
        proof {
            reveal_strlit("::");
        }
        s
    }
}

/// The ASCII serialisation of a URL's origin, or nothing where the text
/// does not parse as a URL.
pub uninterp spec fn origin_of(url: Seq<char>) -> Option<Seq<char>>;

pub open spec fn opt_string_view(s: Option<String>) -> Option<Seq<char>> {
    match s {
        Some(s) => Some(s@),
        None => None,
    }
}

/// Relies on url::Url::parse, url::Url::origin and
/// url::Origin::ascii_serialization: the origin of a URL depends on its
/// text alone.
#[verifier::external_body]
fn ascii_origin(url: &str) -> (r: Option<String>)
    ensures
        opt_string_view(r) == origin_of(url@),
{
    url::Url::parse(url).ok().map(|u| u.origin().ascii_serialization())
}

impl StoreDescription {
    /// The store named `name` of the origin of `url`; nothing where `url`
    /// does not parse.
    pub fn from_url(url: &str, name: String) -> (r: Option<StoreDescription>)
        ensures
            match r {
                Some(d) => origin_of(url@) == Some(d.origin@) && d.name@ == name@,
                None => origin_of(url@) is None,
            },
    {
        match ascii_origin(url) {
            Some(origin) => Some(StoreDescription::new(origin, name)),
            None => None,
        }
    }
}

} // verus!

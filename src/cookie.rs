use vstd::prelude::*;
use vstd::string::*;
use crate::document::{DocumentedCookie, DocumentedResponse};
use crate::unit::{Annotation, ExplicitDocumentation, Unit};

verus! {

/// The annotation of a cookie named `name`: the cookie itself, and the
/// `400` response that a required one brings.
pub open spec fn cookie_annotation(a: Annotation, name: Seq<char>, required: bool) -> bool {
    &&& a.cookies@.len() == 1
    &&& a.cookies@[0].name@ == name
    &&& a.cookies@[0].description.is_none()
    &&& a.cookies@[0].required == required
    &&& a.headers@.len() == 0
    &&& a.queries@.len() == 0
    &&& required ==> {
        &&& a.responses@.len() == 1
        &&& a.responses@[0].0 == 400
        &&& a.responses@[0].1.description@ == "Bad Response"@
        &&& a.responses@[0].1.headers@.len() == 0
        &&& a.responses@[0].1.body@.len() == 0
    }
    &&& !required ==> a.responses@.len() == 0
}

/// The unit that extracts the cookie `name` itself.
pub open spec fn cookie_item(u: Unit, name: Seq<char>, required: bool) -> bool {
    u matches Unit::Cookie(c) && c.name@ == name && c.description.is_none() && c.required == required
}

fn cookie_unit(name: &str, required: bool) -> (r: Unit)
    ensures
        r matches Unit::Explicit(e) && cookie_item(*e.item, name@, required)
            && cookie_annotation(e.annotation, name@, required),
{
    let item = Unit::Cookie(DocumentedCookie { name: String::from_str(name), description: None, required });
    let mut cookies: Vec<DocumentedCookie> = Vec::new();
    cookies.push(DocumentedCookie { name: String::from_str(name), description: None, required });
    let mut responses: Vec<(u16, DocumentedResponse)> = Vec::new();
    if required {
        proof { reveal_strlit("Bad Response"); }
        responses.push((400, DocumentedResponse::new(String::from_str("Bad Response"))));
    }
    let annotation = Annotation { cookies, headers: Vec::new(), queries: Vec::new(), responses };
    Unit::Explicit(ExplicitDocumentation::new(item, annotation))
}

/// A unit that requires the cookie `name`. It documents the cookie as
/// required and a `400` response for requests that lack it.
pub fn cookie(name: &str) -> (r: Unit)
    ensures
        r matches Unit::Explicit(e) && cookie_item(*e.item, name@, true)
            && cookie_annotation(e.annotation, name@, true),
{
    cookie_unit(name, true)
}

/// A unit that reads the cookie `name` where it is present, and documents
/// it as optional.
pub fn optional(name: &str) -> (r: Unit)
    ensures
        r matches Unit::Explicit(e) && cookie_item(*e.item, name@, false)
            && cookie_annotation(e.annotation, name@, false),
{
    cookie_unit(name, false)
}

} // verus!

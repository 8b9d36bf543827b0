//! Request methods.

use crate::text;
use vstd::prelude::*;
use vstd::string::*;

verus! {

/// A request method. The routable methods have names of their own.
#[derive(Debug, PartialEq, Eq)]
pub enum Method {
    DELETE,
    GET,
    HEAD,
    OPTIONS,
    PATCH,
    POST,
    PUT,
    Extension(String),
}

/// A method is seen as its name.
impl View for Method {
    type V = Seq<char>;

    open spec fn view(&self) -> Seq<char> {
        match self {
            Method::DELETE => "DELETE"@,
            Method::GET => "GET"@,
            Method::HEAD => "HEAD"@,
            Method::OPTIONS => "OPTIONS"@,
            Method::PATCH => "PATCH"@,
            Method::POST => "POST"@,
            Method::PUT => "PUT"@,
            Method::Extension(name) => name@,
        }
    }
}

impl Clone for Method {
    fn clone(&self) -> (r: Self)
        ensures
            r@ == self@,
    {
        match self {
            Method::DELETE => Method::DELETE,
            Method::GET => Method::GET,
            Method::HEAD => Method::HEAD,
            Method::OPTIONS => Method::OPTIONS,
            Method::PATCH => Method::PATCH,
            Method::POST => Method::POST,
            Method::PUT => Method::PUT,
            Method::Extension(name) => Method::Extension(name.clone()),
        }
    }
}

impl Method {
    /// The method with the given name.
    pub fn from_name(name: &str) -> (r: Method)
        ensures
            r@ == name@,
            method_slot_of(name@) is Some ==> !(r is Extension),
    {
        if text::str_equal(name, "DELETE") {
            Method::DELETE
        } else if text::str_equal(name, "GET") {
            Method::GET
        } else if text::str_equal(name, "HEAD") {
            Method::HEAD
        } else if text::str_equal(name, "OPTIONS") {
            Method::OPTIONS
        } else if text::str_equal(name, "PATCH") {
            Method::PATCH
        } else if text::str_equal(name, "POST") {
            Method::POST
        } else if text::str_equal(name, "PUT") {
            Method::PUT
        } else {
            Method::Extension(name.to_owned())
        }
    }

    /// The name of the method.
    pub fn as_str(&self) -> (r: &str)
        ensures
            r@ == self@,
    {
        match self {
            Method::DELETE => "DELETE",
            Method::GET => "GET",
            Method::HEAD => "HEAD",
            Method::OPTIONS => "OPTIONS",
            Method::PATCH => "PATCH",
            Method::POST => "POST",
            Method::PUT => "PUT",
            Method::Extension(name) => name.as_str(),
        }
    }

    /// Whether two methods have the same name.
    pub fn same(&self, other: &Method) -> (r: bool)
        ensures
            r == (self@ == other@),
    {
        text::str_equal(self.as_str(), other.as_str())
    }
}

/// The names of the routable methods, in the order of their slots.
pub open spec fn slot_name(slot: int) -> Seq<char> {
    if slot == 0 {
        "DELETE"@
    } else if slot == 1 {
        "GET"@
    } else if slot == 2 {
        "HEAD"@
    } else if slot == 3 {
        "OPTIONS"@
    } else if slot == 4 {
        "PATCH"@
    } else if slot == 5 {
        "POST"@
    } else {
        "PUT"@
    }
}

/// The slot of a method, if the method is routable.
pub open spec fn method_slot_of(name: Seq<char>) -> Option<int> {
    if name == "DELETE"@ {
        Some(0)
    } else if name == "GET"@ {
        Some(1)
    } else if name == "HEAD"@ {
        Some(2)
    } else if name == "OPTIONS"@ {
        Some(3)
    } else if name == "PATCH"@ {
        Some(4)
    } else if name == "POST"@ {
        Some(5)
    } else if name == "PUT"@ {
        Some(6)
    } else {
        None
    }
}

/// Each slot belongs to the one method that it is named after.
pub proof fn lemma_slots()
    ensures
        forall|slot: int| 0 <= slot < 7 ==> method_slot_of(#[trigger] slot_name(slot)) == Some(slot),
        forall|name: Seq<char>|
            match #[trigger] method_slot_of(name) {
                Some(slot) => 0 <= slot < 7 && slot_name(slot) == name,
                None => true,
            },
{
    reveal_strlit("DELETE");
    reveal_strlit("GET");
    reveal_strlit("HEAD");
    reveal_strlit("OPTIONS");
    reveal_strlit("PATCH");
    reveal_strlit("POST");
    reveal_strlit("PUT");
    assert("GET"@[0] != "PUT"@[0]);
    assert("HEAD"@[0] != "POST"@[0]);
    assert("DELETE"@.len() == 6 && "GET"@.len() == 3 && "HEAD"@.len() == 4 && "OPTIONS"@.len() == 7);
    assert("PATCH"@.len() == 5 && "POST"@.len() == 4 && "PUT"@.len() == 3);
}

/// The slot of a routable method.
pub fn method_slot(method: &Method) -> (r: Option<usize>)
    ensures
        match r {
            Some(slot) => slot < 7 && method_slot_of(method@) == Some(slot as int),
            None => method_slot_of(method@) is None,
        },
{
    let name = method.as_str();
    if text::str_equal(name, "DELETE") {
        Some(0)
    } else if text::str_equal(name, "GET") {
        Some(1)
    } else if text::str_equal(name, "HEAD") {
        Some(2)
    } else if text::str_equal(name, "OPTIONS") {
        Some(3)
    } else if text::str_equal(name, "PATCH") {
        Some(4)
    } else if text::str_equal(name, "POST") {
        Some(5)
    } else if text::str_equal(name, "PUT") {
        Some(6)
    } else {
        None
    }
}

/// The name of the method that a slot belongs to.
pub fn method_name(slot: usize) -> (r: &'static str)
    requires
        slot < 7,
    ensures
        r@ == slot_name(slot as int),
{
    match slot {
        0 => "DELETE",
        1 => "GET",
        2 => "HEAD",
        3 => "OPTIONS",
        4 => "PATCH",
        5 => "POST",
        _ => "PUT",
    }
}

} // verus!

//! An owned, parsed HTTP request: method, path, minor version and the
//! header fields, in wire order.

use vstd::prelude::*;
use vstd::string::StringSliceAdditionalSpecFns;
use vstd::utf8::encode_utf8;

use crate::ascii::ci_equal;
use crate::eq_ignore_ascii_case;

verus! {

/// The mathematical model of a request.
pub ghost struct RequestModel {
    pub method: Seq<char>,
    pub path: Seq<char>,
    pub version: u8,
    pub headers: Seq<(Seq<char>, Seq<u8>)>,
}

/// One header field: a name and a raw value.
pub struct HeaderField {
    pub name: String,
    pub value: Vec<u8>,
}

impl View for HeaderField {
    type V = (Seq<char>, Seq<u8>);

    open spec fn view(&self) -> (Seq<char>, Seq<u8>) {
        (self.name@, self.value@)
    }
}

pub struct Request {
    pub method: String,
    pub path: String,
    pub version: u8,
    pub headers: Vec<HeaderField>,
}

impl View for Request {
    type V = RequestModel;

    open spec fn view(&self) -> RequestModel {
        RequestModel {
            method: self.method@,
            path: self.path@,
            version: self.version,
            headers: self.headers@.map_values(|h: HeaderField| h@),
        }
    }
}

impl Request {
    /// The value of the first header whose name equals `name` up to
    /// ASCII case, if any.
    pub fn get_header<'a>(&'a self, name: &str) -> (r: Option<&'a [u8]>)
        ensures
            r matches Some(v) ==> exists|i: int|
                0 <= i < self@.headers.len() && ci_equal(
                    encode_utf8(#[trigger] self@.headers[i].0),
                    name.spec_bytes(),
                ) && v@ == self@.headers[i].1 && (forall|j: int|
                    0 <= j < i ==> !ci_equal(
                        encode_utf8(#[trigger] self@.headers[j].0),
                        name.spec_bytes(),
                    )),
            r is None ==> forall|i: int|
                0 <= i < self@.headers.len() ==> !ci_equal(
                    encode_utf8(#[trigger] self@.headers[i].0),
                    name.spec_bytes(),
                ),
    {
        let mut i: usize = 0;
        while i < self.headers.len()
            invariant
                i <= self.headers@.len(),
                forall|j: int|
                    0 <= j < i ==> !ci_equal(
                        encode_utf8(#[trigger] self@.headers[j].0),
                        name.spec_bytes(),
                    ),
            decreases self.headers@.len() - i,
        {
            let h = &self.headers[i];
            if eq_ignore_ascii_case(h.name.as_str().as_bytes(), name.as_bytes()) {
                assert(ci_equal(encode_utf8(self@.headers[i as int].0), name.spec_bytes()));
                assert(h.value@ == self@.headers[i as int].1);
                return Some(h.value.as_slice());
            }
            i += 1;
        }
        None
    }
}

} // verus!

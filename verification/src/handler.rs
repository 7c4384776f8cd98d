//! The handler contract: a pure function from a parsed request to a
//! response, owned by the server and borrowed during dispatch.

use vstd::prelude::*;

use crate::request::{Request, RequestModel};
use crate::response::{Response, ResponseModel};

verus! {

pub trait Handler {
    /// The response this handler gives, as a function of the request model.
    spec fn on_request(&self, req: RequestModel) -> ResponseModel;

    /// Computes the response; it must match `on_request` exactly.
    fn handle(&self, req: Request) -> (r: Response)
        ensures
            r@ == self.on_request(req@),
    ;
}

/// A handler that returns the same response whatever the request.
pub struct FixedHandler {
    pub status: u16,
    pub headers: Vec<(String, String)>,
    pub body: Vec<u8>,
}

impl Handler for FixedHandler {
    open spec fn on_request(&self, req: RequestModel) -> ResponseModel {
        ResponseModel {
            status: self.status,
            headers: self.headers@.map_values(|p: (String, String)| (p.0@, p.1@)),
            body: self.body@,
        }
    }

    fn handle(&self, req: Request) -> (r: Response) {
        let mut headers: Vec<(String, String)> = Vec::new();
        let mut i: usize = 0;
        while i < self.headers.len()
            invariant
                i <= self.headers@.len(),
                headers@.len() == i,
                forall|j: int|
                    0 <= j < i ==> (#[trigger] headers@[j]).0@ == self.headers@[j].0@
                        && headers@[j].1@ == self.headers@[j].1@,
            decreases self.headers@.len() - i,
        {
            let p = &self.headers[i];
            headers.push((p.0.clone(), p.1.clone()));
            i += 1;
        }
        let mut body: Vec<u8> = Vec::new();
        let mut k: usize = 0;
        while k < self.body.len()
            invariant
                k <= self.body@.len(),
                body@ == self.body@.subrange(0, k as int),
            decreases self.body@.len() - k,
        {
            body.push(self.body[k]);
            proof {
                assert(body@ =~= self.body@.subrange(0, k + 1));
            }
            k += 1;
        }
        let r = Response { status: self.status, headers, body };
        proof {
            assert(body@ =~= self.body@);
            assert(r@.headers =~= self.on_request(req@).headers);
        }
        r
    }
}

} // verus!

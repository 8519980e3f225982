//! The short-link generator's client-side configuration and its answer
//! rule. The generator itself is a remote service; a host process posts a
//! URL to the endpoint kept here and receives an identifier back.

use vstd::prelude::*;
use vstd::string::StringExecFns;

verus! {

/// Where the short-link service listens.
pub struct Link {
    endpoint: String,
}

impl View for Link {
    type V = Seq<char>;

    closed spec fn view(&self) -> Seq<char> {
        self.endpoint@
    }
}

impl Link {
    pub fn new(endpoint: String) -> (l: Link)
        ensures
            l@ == endpoint@,
    {
        Link { endpoint }
    }

    /// The configured endpoint.
    pub fn endpoint(&self) -> (r: &String)
        ensures
            r@ == self@,
    {
        &self.endpoint
    }

    /// What the service's answer means: only when it echoes exactly the URL
    /// that was submitted does its identifier name that URL, and the short
    /// form is `{endpoint}/{sqid}`; any other answer leaves the original URL
    /// in use.
    pub fn shortened(&self, requested: &str, echoed: &str, sqid: &str) -> (r: String)
        ensures
            echoed@ == requested@ ==> r@ == self@ + seq!['/'] + sqid@,
            echoed@ != requested@ ==> r@ == requested@,
    {
        if crate::store::str_eq(requested, echoed) {
            let r = self.endpoint.clone().concat("/").concat(sqid);
            proof {
                reveal_strlit("/");
                assert("/"@ =~= seq!['/']);
                assert(r@ =~= self@ + seq!['/'] + sqid@);
            }
            r
        } else {
            requested.to_owned()
        }
    }
}

} // verus!

//! Upstream endpoint lists and the provider capability.

use vstd::prelude::*;

verus! {

/// A collection of upstream endpoints (`ip:port` strings).
#[derive(Debug)]
pub struct Upstream {
    pub endpoints: Vec<String>,
}

impl Upstream {
    /// Wrap a list of endpoints.
    pub fn new(endpoints: Vec<String>) -> (r: Upstream)
        ensures
            r.endpoints == endpoints,
    {
        Upstream { endpoints }
    }
}

/// Supplies upstream endpoints to the load balancer.
pub trait UpstreamsProvider {
    fn upstreams(&self) -> Upstream;
}

/// A static provider backed by a fixed list of endpoints.
pub struct StaticUpstreams {
    endpoints: Vec<String>,
}

impl StaticUpstreams {
    /// The fixed endpoints handed out to every caller.
    pub closed spec fn spec_endpoints(&self) -> Seq<String> {
        self.endpoints@
    }

    /// A provider over a fixed list of endpoints.
    pub fn new(endpoints: Vec<String>) -> (r: StaticUpstreams)
        ensures
            r.spec_endpoints() == endpoints@,
    {
        StaticUpstreams { endpoints }
    }
}

impl UpstreamsProvider for StaticUpstreams {
    /// Hands out a copy of the fixed endpoint list.
    fn upstreams(&self) -> (r: Upstream)
        ensures
            r.endpoints@ == self.spec_endpoints(),
    {
        let n = self.endpoints.len();
        let mut copied: Vec<String> = Vec::new();
        let mut i: usize = 0;
        while i < n
            invariant
                n == self.endpoints@.len(),
                i <= n,
                copied@ == self.endpoints@.take(i as int),
            decreases n - i,
        {
            copied.push(self.endpoints[i].clone());
            proof {
                assert(copied@ =~= self.endpoints@.take(i as int + 1));
            }
            i += 1;
        }
        proof {
            assert(copied@ =~= self.endpoints@);
        }
        Upstream::new(copied)
    }
}

} // verus!

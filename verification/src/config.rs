//! Declarative routing: services keyed by path prefix, backends keyed by
//! service, and the validation run before a configuration is installed.
//!
//! Parsing the configuration file is the embedding server's part; it hands
//! over the plain structure checked and consulted here.

use crate::strutil::{bytes_prefix_of, str_eq, str_starts_with};
use vstd::prelude::*;
use vstd::string::StringSliceAdditionalSpecFns;
use vstd::utf8::encode_utf8;

verus! {

/// The routing table: `service name -> path prefix`, and the backends in
/// their declared order.
#[derive(Debug)]
pub struct Config {
    pub services: Vec<(String, String)>,
    pub backends: Vec<BackendConfig>,
}

/// One backend bound to a service.
#[derive(Debug)]
pub struct BackendConfig {
    pub service: String,
    pub backend: Backend,
}

/// A backend address: a plain `ip:port`, or the reserved label-selected
/// pool variant, which routing refuses as unimplemented.
#[derive(Debug)]
pub enum Backend {
    Hetzner { labels: Vec<Vec<(String, String)>>, port: u16 },
    Basic { ip: String, port: u16 },
}

/// Why a configuration was rejected on load.
#[derive(Debug)]
pub enum ConfigError {
    /// A backend references a service that is not defined.
    UnknownService { service: String },
    /// A defined service is referenced by no backend.
    UnusedService { name: String },
}

/// Why a request path found no upstream.
#[derive(Debug, PartialEq, Eq, Structural)]
pub enum RouteError {
    /// No service prefix matches the path.
    NoService,
    /// The matched service has no backend.
    NoBackend,
    /// The matched backend is of the reserved variant.
    NotImplemented,
}

/// A service of this name is defined.
pub open spec fn spec_service_defined(services: Seq<(String, String)>, name: Seq<char>) -> bool {
    exists|i: int| 0 <= i < services.len() && services[i].0@ == name
}

/// Some backend references a service of this name.
pub open spec fn spec_service_used(backends: Seq<BackendConfig>, name: Seq<char>) -> bool {
    exists|i: int| 0 <= i < backends.len() && backends[i].service@ == name
}

/// Every referenced service is defined and every defined service is used.
pub open spec fn spec_config_valid(c: Config) -> bool {
    (forall|i: int|
        0 <= i < c.backends@.len() ==> spec_service_defined(
            c.services@,
            #[trigger] c.backends@[i].service@,
        )) && (forall|i: int|
        0 <= i < c.services@.len() ==> spec_service_used(
            c.backends@,
            #[trigger] c.services@[i].0@,
        ))
}

/// The first service whose path prefix starts the path.
pub open spec fn spec_first_service_match(services: Seq<(String, String)>, path: Seq<u8>) -> Option<
    int,
>
    decreases services.len(),
{
    if services.len() == 0 {
        None
    } else if bytes_prefix_of(encode_utf8(services[0].1@), path) {
        Some(0 as int)
    } else {
        match spec_first_service_match(services.drop_first(), path) {
            Some(i) => Some(i + 1),
            None => None,
        }
    }
}

/// What the first match is: a match with none before it, or no match at all.
pub proof fn lemma_first_service_match(services: Seq<(String, String)>, path: Seq<u8>)
    ensures
        match spec_first_service_match(services, path) {
            Some(i) => 0 <= i < services.len() && bytes_prefix_of(
                encode_utf8(services[i].1@),
                path,
            ) && forall|j: int|
                0 <= j < i ==> !bytes_prefix_of(encode_utf8(#[trigger] services[j].1@), path),
            None => forall|j: int|
                0 <= j < services.len() ==> !bytes_prefix_of(
                    encode_utf8(#[trigger] services[j].1@),
                    path,
                ),
        },
    decreases services.len(),
{
    if services.len() > 0 && !bytes_prefix_of(encode_utf8(services[0].1@), path) {
        let t = services.drop_first();
        lemma_first_service_match(t, path);
        assert(forall|j: int| 0 <= j < t.len() ==> t[j] == services[j + 1]);
        match spec_first_service_match(t, path) {
            Some(i) => {
                assert forall|j: int| 0 <= j < i + 1 implies !bytes_prefix_of(
                    encode_utf8(#[trigger] services[j].1@),
                    path,
                ) by {
                    if j > 0 {
                        assert(t[j - 1] == services[j]);
                        assert(!bytes_prefix_of(encode_utf8(t[j - 1].1@), path));
                    }
                }
            },
            None => {
                assert forall|j: int| 0 <= j < services.len() implies !bytes_prefix_of(
                    encode_utf8(#[trigger] services[j].1@),
                    path,
                ) by {
                    if j > 0 {
                        assert(t[j - 1] == services[j]);
                        assert(!bytes_prefix_of(encode_utf8(t[j - 1].1@), path));
                    }
                }
            },
        }
    }
}

/// The first backend bound to a service name.
pub open spec fn spec_first_backend(backends: Seq<BackendConfig>, name: Seq<char>) -> Option<int>
    decreases backends.len(),
{
    if backends.len() == 0 {
        None
    } else if backends[0].service@ == name {
        Some(0 as int)
    } else {
        match spec_first_backend(backends.drop_first(), name) {
            Some(i) => Some(i + 1),
            None => None,
        }
    }
}

/// What the first bound backend is.
pub proof fn lemma_first_backend(backends: Seq<BackendConfig>, name: Seq<char>)
    ensures
        match spec_first_backend(backends, name) {
            Some(i) => 0 <= i < backends.len() && backends[i].service@ == name && forall|j: int|
                0 <= j < i ==> (#[trigger] backends[j].service@) != name,
            None => forall|j: int|
                0 <= j < backends.len() ==> (#[trigger] backends[j].service@) != name,
        },
    decreases backends.len(),
{
    if backends.len() > 0 && backends[0].service@ != name {
        let t = backends.drop_first();
        lemma_first_backend(t, name);
        assert(forall|j: int| 0 <= j < t.len() ==> t[j] == backends[j + 1]);
        match spec_first_backend(t, name) {
            Some(i) => {
                assert forall|j: int| 0 <= j < i + 1 implies (#[trigger] backends[j].service@)
                    != name by {
                    if j > 0 {
                        assert(t[j - 1] == backends[j]);
                    }
                }
            },
            None => {
                assert forall|j: int| 0 <= j < backends.len() implies (
                #[trigger] backends[j].service@) != name by {
                    if j > 0 {
                        assert(t[j - 1] == backends[j]);
                    }
                }
            },
        }
    }
}

/// Upstream selection: the first service whose prefix starts the path, then
/// the first backend bound to it.
pub open spec fn spec_select(c: Config, path: Seq<u8>) -> Result<(Seq<char>, u16), RouteError> {
    match spec_first_service_match(c.services@, path) {
        None => Err(RouteError::NoService),
        Some(i) => {
            match spec_first_backend(c.backends@, c.services@[i].0@) {
                None => Err(RouteError::NoBackend),
                Some(j) => match c.backends@[j].backend {
                    Backend::Basic { ip, port } => Ok((ip@, port)),
                    Backend::Hetzner { .. } => Err(RouteError::NotImplemented),
                },
            }
        },
    }
}

/// Whether a service of this name is defined.
fn service_defined(services: &Vec<(String, String)>, name: &str) -> (r: bool)
    ensures
        r == spec_service_defined(services@, name@),
{
    let n = services.len();
    let mut i: usize = 0;
    while i < n
        invariant
            n == services@.len(),
            i <= n,
            forall|j: int| 0 <= j < i ==> (#[trigger] services@[j].0@) != name@,
        decreases n - i,
    {
        if str_eq(services[i].0.as_str(), name) {
            return true;
        }
        i += 1;
    }
    false
}

/// Whether some backend references a service of this name.
fn service_used(backends: &Vec<BackendConfig>, name: &str) -> (r: bool)
    ensures
        r == spec_service_used(backends@, name@),
{
    let n = backends.len();
    let mut i: usize = 0;
    while i < n
        invariant
            n == backends@.len(),
            i <= n,
            forall|j: int| 0 <= j < i ==> (#[trigger] backends@[j].service@) != name@,
        decreases n - i,
    {
        if str_eq(backends[i].service.as_str(), name) {
            return true;
        }
        i += 1;
    }
    false
}

impl Config {
    /// Check the two load-time rules: every referenced service defined,
    /// every defined service used. The error names the first offender, in
    /// declaration order, references checked first.
    pub fn validate(&self) -> (r: Result<(), ConfigError>)
        ensures
            r is Ok <==> spec_config_valid(*self),
            match r {
                Ok(_) => spec_config_valid(*self),
                Err(e) => match e {
                    ConfigError::UnknownService { service } => exists|i: int|
                        0 <= i < self.backends@.len() && (#[trigger] self.backends@[i].service@)
                            == service@ && !spec_service_defined(self.services@, service@) && forall|
                            j: int,
                        |
                            0 <= j < i ==> spec_service_defined(
                                self.services@,
                                #[trigger] self.backends@[j].service@,
                            ),
                    ConfigError::UnusedService { name } => (forall|i: int|
                        0 <= i < self.backends@.len() ==> spec_service_defined(
                            self.services@,
                            #[trigger] self.backends@[i].service@,
                        )) && exists|i: int|
                        0 <= i < self.services@.len() && (#[trigger] self.services@[i].0@) == name@
                            && !spec_service_used(self.backends@, name@) && forall|j: int|
                            0 <= j < i ==> spec_service_used(
                                self.backends@,
                                #[trigger] self.services@[j].0@,
                            ),
                },
            },
    {
        let n = self.backends.len();
        let mut i: usize = 0;
        while i < n
            invariant
                n == self.backends@.len(),
                i <= n,
                forall|j: int|
                    0 <= j < i ==> spec_service_defined(
                        self.services@,
                        #[trigger] self.backends@[j].service@,
                    ),
            decreases n - i,
        {
            if !service_defined(&self.services, self.backends[i].service.as_str()) {
                return Err(
                    ConfigError::UnknownService { service: self.backends[i].service.clone() },
                );
            }
            i += 1;
        }
        let m = self.services.len();
        let mut i: usize = 0;
        while i < m
            invariant
                m == self.services@.len(),
                i <= m,
                forall|j: int|
                    0 <= j < self.backends@.len() ==> spec_service_defined(
                        self.services@,
                        #[trigger] self.backends@[j].service@,
                    ),
                forall|j: int|
                    0 <= j < i ==> spec_service_used(
                        self.backends@,
                        #[trigger] self.services@[j].0@,
                    ),
            decreases m - i,
        {
            if !service_used(&self.backends, self.services[i].0.as_str()) {
                return Err(ConfigError::UnusedService { name: self.services[i].0.clone() });
            }
            i += 1;
        }
        Ok(())
    }
}

/// The first service whose prefix starts the path, scanned in order.
fn find_service(services: &Vec<(String, String)>, path: &str) -> (r: Option<usize>)
    ensures
        match r {
            Some(i) => spec_first_service_match(services@, path.spec_bytes()) == Some(i as int),
            None => spec_first_service_match(services@, path.spec_bytes()) is None,
        },
{
    proof {
        lemma_first_service_match(services@, path.spec_bytes());
    }
    let n = services.len();
    let mut i: usize = 0;
    while i < n
        invariant
            n == services@.len(),
            i <= n,
            forall|j: int|
                0 <= j < i ==> !bytes_prefix_of(
                    encode_utf8((#[trigger] services@[j].1)@),
                    path.spec_bytes(),
                ),
        decreases n - i,
    {
        if str_starts_with(path, services[i].1.as_str()) {
            proof {
                lemma_first_service_match(services@, path.spec_bytes());
            }
            return Some(i);
        }
        i += 1;
    }
    proof {
        lemma_first_service_match(services@, path.spec_bytes());
    }
    None
}

/// The first backend bound to a service name, scanned in order.
fn find_backend(backends: &Vec<BackendConfig>, name: &str) -> (r: Option<usize>)
    ensures
        match r {
            Some(i) => spec_first_backend(backends@, name@) == Some(i as int),
            None => spec_first_backend(backends@, name@) is None,
        },
{
    let n = backends.len();
    let mut i: usize = 0;
    while i < n
        invariant
            n == backends@.len(),
            i <= n,
            forall|j: int| 0 <= j < i ==> (#[trigger] backends@[j].service@) != name@,
        decreases n - i,
    {
        if str_eq(backends[i].service.as_str(), name) {
            proof {
                lemma_first_backend(backends@, name@);
            }
            return Some(i);
        }
        i += 1;
    }
    proof {
        lemma_first_backend(backends@, name@);
    }
    None
}

/// Pick the upstream for a request path: first matching service prefix,
/// then the first backend bound to that service.
pub fn select_backend(c: &Config, path: &str) -> (r: Result<(String, u16), RouteError>)
    ensures
        match r {
            Ok(addr) => spec_select(*c, path.spec_bytes()) == Ok::<(Seq<char>, u16), RouteError>(
                (addr.0@, addr.1),
            ),
            Err(e) => spec_select(*c, path.spec_bytes()) == Err::<(Seq<char>, u16), RouteError>(e),
        },
{
    let service_index = match find_service(&c.services, path) {
        Some(i) => i,
        None => {
            return Err(RouteError::NoService);
        },
    };
    proof {
        lemma_first_service_match(c.services@, path.spec_bytes());
    }
    let name = &c.services[service_index].0;
    let backend_index = match find_backend(&c.backends, name.as_str()) {
        Some(i) => i,
        None => {
            return Err(RouteError::NoBackend);
        },
    };
    proof {
        lemma_first_backend(c.backends@, name@);
    }
    match &c.backends[backend_index].backend {
        Backend::Basic { ip, port } => Ok((ip.clone(), *port)),
        Backend::Hetzner { .. } => Err(RouteError::NotImplemented),
    }
}

} // verus!

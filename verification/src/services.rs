//! Which servers a start command brings up, decided from the requested
//! service kinds.

use vstd::prelude::*;

verus! {

/// A service kind a node can run.
#[derive(Debug, Clone, Copy, PartialEq, Eq, Structural)]
pub enum ServiceType {
    Http,
    Https,
    Ssh,
    P2p,
}

/// Whether a service kind occurs in a request list.
pub open spec fn requests(s: Seq<ServiceType>, x: ServiceType) -> bool {
    exists|i: int| 0 <= i < s.len() && s[i] == x
}

/// Which of the three servers to start.
#[derive(Debug, Clone, Copy, PartialEq, Eq, Structural)]
pub struct ServicePlan {
    pub http: bool,
    pub ssh: bool,
    pub p2p: bool,
}

/// Decides which servers to start: the HTTP server serves both the
/// `Http` and `Https` kinds; the SSH and peer-to-peer servers their
/// own.
pub fn plan_services(services: &Vec<ServiceType>) -> (r: ServicePlan)
    ensures
        r.http == (requests(services@, ServiceType::Http) || requests(
            services@,
            ServiceType::Https,
        )),
        r.ssh == requests(services@, ServiceType::Ssh),
        r.p2p == requests(services@, ServiceType::P2p),
{
    let mut http = false;
    let mut ssh = false;
    let mut p2p = false;
    let mut i: usize = 0;
    while i < services.len()
        invariant
            i <= services@.len(),
            http == (requests(services@.take(i as int), ServiceType::Http) || requests(
                services@.take(i as int),
                ServiceType::Https,
            )),
            ssh == requests(services@.take(i as int), ServiceType::Ssh),
            p2p == requests(services@.take(i as int), ServiceType::P2p),
        decreases services@.len() - i,
    {
        let s = services[i];
        proof {
            assert(services@.take(i + 1) =~= services@.take(i as int).push(services@[i as int]));
            assert forall|x: ServiceType|
                requests(services@.take(i + 1), x) == (requests(services@.take(i as int), x)
                    || services@[i as int] == x) by {
                let t = services@.take(i + 1);
                if requests(services@.take(i as int), x) {
                    let w = choose|j: int|
                        0 <= j < services@.take(i as int).len() && services@.take(i as int)[j] == x;
                    assert(t[w] == x);
                }
                if services@[i as int] == x {
                    assert(t[i as int] == x);
                }
                if requests(t, x) {
                    let w = choose|j: int| 0 <= j < t.len() && t[j] == x;
                    if w < i {
                        assert(services@.take(i as int)[w] == x);
                    }
                }
            }
        }
        match s {
            ServiceType::Http => {
                http = true;
            },
            ServiceType::Https => {
                http = true;
            },
            ServiceType::Ssh => {
                ssh = true;
            },
            ServiceType::P2p => {
                p2p = true;
            },
        }
        i += 1;
    }
    proof {
        assert(services@.take(services@.len() as int) =~= services@);
    }
    ServicePlan { http, ssh, p2p }
}

} // verus!

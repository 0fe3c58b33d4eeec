//! Finding the one instance of the game service that is in charge.
//!
//! The service runs in several instances, of which one answers for the game.
//! The decisions of the discovery are made here; looking up the instances and
//! asking them is left to the caller.

use vstd::prelude::*;

use crate::search::{first_index, lemma_first_index_found, lemma_first_index_none};

verus! {

/// How many lookups in a row may fail before the discovery gives up.
pub const MAX_CONSECUTIVE_ERRORS: u32 = 5;

/// The address of one instance of the service.
#[derive(Debug, PartialEq, Eq)]
pub struct SingularEndpoint {
    pub ip: String,
    pub port: i32,
}

pub ghost struct SingularEndpointView {
    pub ip: Seq<char>,
    pub port: i32,
}

impl View for SingularEndpoint {
    type V = SingularEndpointView;

    open spec fn view(&self) -> SingularEndpointView {
        SingularEndpointView { ip: self.ip@, port: self.port }
    }
}

impl DeepView for SingularEndpoint {
    type V = SingularEndpointView;

    open spec fn deep_view(&self) -> SingularEndpointView {
        self@
    }
}

impl Clone for SingularEndpoint {
    fn clone(&self) -> (r: SingularEndpoint)
        ensures
            r@ == self@,
    {
        SingularEndpoint { ip: self.ip.clone(), port: self.port }
    }
}

/// Where the instances of a service are registered.
#[derive(Debug, PartialEq, Eq)]
pub struct ServiceCoordinates {
    pub name: String,
    pub namespace: String,
    pub port: i32,
}

#[derive(Debug, PartialEq, Eq)]
pub struct DiscoveryOptions {
    /// The pause between two lookups, in seconds.
    pub interval_secs: u64,
    pub svc_coords: ServiceCoordinates,
    pub query_path: String,
}

/// A group of addresses that share their ports, as the registry lists them.
#[derive(Debug, PartialEq, Eq)]
pub struct EndpointSubset {
    pub addresses: Option<Vec<String>>,
    pub ports: Option<Vec<i32>>,
}

pub ghost struct EndpointSubsetView {
    pub addresses: Option<Seq<Seq<char>>>,
    pub ports: Option<Seq<i32>>,
}

impl View for EndpointSubset {
    type V = EndpointSubsetView;

    open spec fn view(&self) -> EndpointSubsetView {
        EndpointSubsetView {
            addresses: match self.addresses {
                Some(a) => Some(Seq::new(a@.len(), |i: int| a@[i]@)),
                None => None,
            },
            ports: match self.ports {
                Some(p) => Some(p@),
                None => None,
            },
        }
    }
}

impl DeepView for EndpointSubset {
    type V = EndpointSubsetView;

    open spec fn deep_view(&self) -> EndpointSubsetView {
        self@
    }
}

/// Why no instance in charge was found.
#[derive(Debug, Copy, Clone, PartialEq, Eq, Structural)]
pub enum DiscoveryError {
    /// None of the `total` instances answered.
    NoQuerySucceeded { total: usize },
    /// Instances answered, and none of them is in charge.
    NoneResponsible,
}

/// Whether the subset has an address and serves the port.
pub open spec fn serves(subset: EndpointSubsetView, port: i32) -> bool {
    &&& subset.addresses matches Some(addresses) && addresses.len() > 0
    &&& subset.ports matches Some(ports) && ports.contains(port)
}

/// The instance at an address that serves the port.
pub open spec fn endpoint_at(ip: Seq<char>, port: i32) -> SingularEndpointView {
    SingularEndpointView { ip, port }
}

/// The addresses of the subset, each with the port.
pub open spec fn endpoints_of(subset: EndpointSubsetView, port: i32) -> Seq<SingularEndpointView> {
    let addresses = subset.addresses->Some_0;
    Seq::new(addresses.len(), |i: int| endpoint_at(addresses[i], port))
}

/// The instances of the first subset that has an address and serves the port.
pub open spec fn service_endpoints(subsets: Seq<EndpointSubsetView>, port: i32) -> Option<
    Seq<SingularEndpointView>,
> {
    match first_index(subsets, |s: EndpointSubsetView| serves(s, port)) {
        Some(i) => Some(endpoints_of(subsets[i], port)),
        None => None,
    }
}

fn has_port(ports: &Vec<i32>, port: i32) -> (b: bool)
    ensures
        b == ports@.contains(port),
{
    let mut i: usize = 0;
    while i < ports.len()
        invariant
            i <= ports@.len(),
            forall|k: int| 0 <= k < i ==> ports@[k] != port,
        decreases ports@.len() - i,
    {
        if ports[i] == port {
            return true;
        }
        i += 1;
    }
    false
}

/// Picks the instances of a service out of what the registry lists for it:
/// those of the first subset that has an address and serves the port.
pub fn get_service_endpoint(subsets: &Vec<EndpointSubset>, port: i32) -> (r: Option<
    Vec<SingularEndpoint>,
>)
    ensures
        match r {
            Some(endpoints) => service_endpoints(subsets.deep_view(), port) == Some(
                endpoints.deep_view(),
            ),
            None => service_endpoints(subsets.deep_view(), port) is None,
        },
{
    let ghost p = |s: EndpointSubsetView| serves(s, port);
    let ghost views = subsets.deep_view();
    let mut i: usize = 0;
    while i < subsets.len()
        invariant
            i <= subsets@.len(),
            views == subsets.deep_view(),
            p == (|s: EndpointSubsetView| serves(s, port)),
            forall|k: int| 0 <= k < i ==> !p(#[trigger] views[k]),
        decreases subsets@.len() - i,
    {
        let subset: &EndpointSubset = &subsets[i];
        match (&subset.addresses, &subset.ports) {
            (Some(addrs), Some(ports)) => {
                if addrs.len() > 0 && has_port(ports, port) {
                    let mut endpoints: Vec<SingularEndpoint> = Vec::new();
                    let mut k: usize = 0;
                    while k < addrs.len()
                        invariant
                            k <= addrs@.len(),
                            endpoints@.len() == k,
                            forall|j: int|
                                0 <= j < k ==> (#[trigger] endpoints@[j])@ == endpoint_at(
                                    addrs@[j]@,
                                    port,
                                ),
                        decreases addrs@.len() - k,
                    {
                        endpoints.push(SingularEndpoint { ip: addrs[k].clone(), port });
                        k += 1;
                    }
                    proof {
                        lemma_first_index_found(views, p, i as int);
                    }
                    return Some(endpoints);
                }
            },
            _ => {},
        }
        i += 1;
    }
    proof {
        lemma_first_index_none(views, p);
    }
    None
}

/// An instance together with its answer to the question whether it is in
/// charge.
pub type Answer = (SingularEndpointView, bool);

/// The instance in charge among those that answered: the first one that says
/// so.
///
/// Fails where none of the `total` instances answered, and where none of
/// those that answered is in charge.
pub open spec fn singular_endpoint(total: usize, answers: Seq<Answer>) -> Result<
    SingularEndpointView,
    DiscoveryError,
> {
    if answers.len() == 0 {
        Err(DiscoveryError::NoQuerySucceeded { total })
    } else {
        match first_index(answers, |a: Answer| a.1) {
            Some(i) => Ok(answers[i].0),
            None => Err(DiscoveryError::NoneResponsible),
        }
    }
}

/// Picks the instance in charge from the answers of the instances that could
/// be asked, out of `total` instances in all.
pub fn get_singular_endpoint(total: usize, answers: &Vec<(SingularEndpoint, bool)>) -> (r: Result<
    SingularEndpoint,
    DiscoveryError,
>)
    ensures
        match r {
            Ok(endpoint) => singular_endpoint(total, answers.deep_view()) == Ok::<
                SingularEndpointView,
                DiscoveryError,
            >(endpoint@),
            Err(e) => singular_endpoint(total, answers.deep_view()) == Err::<
                SingularEndpointView,
                DiscoveryError,
            >(e),
        },
{
    if answers.len() == 0 {
        return Err(DiscoveryError::NoQuerySucceeded { total });
    }
    let ghost p = |a: Answer| a.1;
    let ghost views = answers.deep_view();
    let mut i: usize = 0;
    while i < answers.len()
        invariant
            i <= answers@.len(),
            views == answers.deep_view(),
            p == (|a: Answer| a.1),
            forall|k: int| 0 <= k < i ==> !p(#[trigger] views[k]),
        decreases answers@.len() - i,
    {
        if answers[i].1 {
            proof {
                lemma_first_index_found(views, p, i as int);
            }
            return Ok(answers[i].0.clone());
        }
        i += 1;
    }
    proof {
        lemma_first_index_none(views, p);
    }
    Err(DiscoveryError::NoneResponsible)
}

/// The number of lookups that have failed in a row after one more lookup, or
/// nothing where the discovery is to give up: a lookup that succeeds clears
/// the count, and more than `MAX_CONSECUTIVE_ERRORS` failures in a row end the
/// discovery.
pub open spec fn errors_after(consecutive_err_count: u32, failed: bool) -> Option<u32> {
    if !failed {
        Some(0u32)
    } else if consecutive_err_count >= MAX_CONSECUTIVE_ERRORS {
        None
    } else {
        Some((consecutive_err_count + 1) as u32)
    }
}

/// Counts the failed lookups and decides whether the discovery goes on.
pub fn next_error_count(consecutive_err_count: u32, failed: bool) -> (r: Option<u32>)
    ensures
        r == errors_after(consecutive_err_count, failed),
{
    if !failed {
        Some(0)
    } else if consecutive_err_count >= MAX_CONSECUTIVE_ERRORS {
        None
    } else {
        Some(consecutive_err_count + 1)
    }
}

} // verus!

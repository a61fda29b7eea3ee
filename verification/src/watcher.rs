//! The service watcher's decisions: which load-balancer services are watched,
//! and which VIP lifecycle event a change of a service gives rise to.
//!
//! The watch itself, the look-up of a changed service and the reading of an
//! address from its text are done by the caller; the functions here decide
//! what follows from their results.

use vstd::prelude::*;
use vstd::string::*;

verus! {

/// An IP address as a number in host order.
#[derive(Debug, Clone, Copy, PartialEq, Eq, Structural)]
pub enum IpAddress {
    V4(u32),
    V6(u128),
}

/// One load-balancer service at the moment an event was made for it.
#[derive(Debug, Clone, PartialEq, Eq)]
pub struct Lb {
    pub name: String,
    pub namespace: String,
    pub addr: Option<IpAddress>,
}

/// What an [`Lb`] stands for.
pub struct LbView {
    pub name: Seq<char>,
    pub namespace: Seq<char>,
    pub addr: Option<IpAddress>,
}

impl View for Lb {
    type V = LbView;

    open spec fn view(&self) -> LbView {
        LbView { name: self.name@, namespace: self.namespace@, addr: self.addr }
    }
}

/// A change of the set of watched addresses. Events of one service are applied
/// in the order in which they were made.
#[derive(Debug, Clone, PartialEq, Eq)]
pub enum VipEvent {
    Add(Lb),
    Delete(Lb),
}

/// What a [`VipEvent`] stands for.
pub enum VipEventView {
    Add(LbView),
    Delete(LbView),
}

impl View for VipEvent {
    type V = VipEventView;

    open spec fn view(&self) -> VipEventView {
        match *self {
            VipEvent::Add(lb) => VipEventView::Add(lb@),
            VipEvent::Delete(lb) => VipEventView::Delete(lb@),
        }
    }
}

/// The declared part of a service, as far as the watcher reads it.
#[derive(Debug, Clone, PartialEq, Eq)]
pub struct ServiceSpec {
    pub type_: Option<String>,
    pub external_traffic_policy: Option<String>,
}

/// One ingress point of a load balancer.
#[derive(Debug, Clone, PartialEq, Eq)]
pub struct LoadBalancerIngress {
    pub ip: Option<String>,
}

/// The state of a service's load balancer.
#[derive(Debug, Clone, PartialEq, Eq)]
pub struct LoadBalancerStatus {
    pub ingress: Option<Vec<LoadBalancerIngress>>,
}

/// The observed part of a service, as far as the watcher reads it.
#[derive(Debug, Clone, PartialEq, Eq)]
pub struct ServiceStatus {
    pub load_balancer: Option<LoadBalancerStatus>,
}

/// A service of the cluster, reduced to what the watcher reads.
#[derive(Debug, Clone, PartialEq, Eq)]
pub struct Service {
    pub spec: Option<ServiceSpec>,
    pub status: Option<ServiceStatus>,
}

/// The outcome of looking a changed service up again.
#[derive(Debug, Clone, PartialEq, Eq)]
pub enum Lookup {
    /// The service exists.
    Found(Service),
    /// The service is gone.
    Missing,
    /// The look-up failed; the change is skipped.
    Failed,
}

/// What the watcher does next for a changed service.
#[derive(Debug, Clone, PartialEq, Eq)]
pub enum WatchStep {
    /// Nothing: the service is not watched, or its look-up failed.
    Skip,
    /// Read this text as an address and go on with [`on_resolved`].
    Resolve(String),
    /// Send this event to the reconciler.
    Emit(VipEvent),
}

/// What a [`WatchStep`] stands for.
pub enum WatchStepView {
    Skip,
    Resolve(Seq<char>),
    Emit(VipEventView),
}

impl View for WatchStep {
    type V = WatchStepView;

    open spec fn view(&self) -> WatchStepView {
        match *self {
            WatchStep::Skip => WatchStepView::Skip,
            WatchStep::Resolve(text) => WatchStepView::Resolve(text@),
            WatchStep::Emit(event) => WatchStepView::Emit(event@),
        }
    }
}

/// Whether the service is of the kind "LoadBalancer".
pub open spec fn is_load_balancer(svc: Service) -> bool {
    &&& svc.spec matches Some(spec)
    &&& spec.type_ matches Some(kind)
    &&& kind@ == "LoadBalancer"@
}

/// Whether the service keeps the client's source address end to end, which
/// leaves no intermediate hop to detect.
pub open spec fn has_local_policy(svc: Service) -> bool {
    &&& svc.spec matches Some(spec)
    &&& spec.external_traffic_policy matches Some(policy)
    &&& policy@ == "Local"@
}

/// The address text of the service's first ingress point, if it has one.
pub open spec fn first_ingress_ip(svc: Service) -> Option<Seq<char>> {
    match svc.status {
        Some(
            ServiceStatus { load_balancer: Some(LoadBalancerStatus { ingress: Some(ingress) }) },
        ) => {
            if ingress@.len() > 0 {
                match ingress@[0].ip {
                    Some(ip) => Some(ip@),
                    None => None,
                }
            } else {
                None
            }
        },
        _ => None,
    }
}

/// The address text under which the service is watched: that of its first
/// ingress point, where the service is a load balancer without the local
/// traffic policy.
pub open spec fn lb_addr_of(svc: Service) -> Option<Seq<char>> {
    if is_load_balancer(svc) && !has_local_policy(svc) {
        first_ingress_ip(svc)
    } else {
        None
    }
}

/// The step that follows from a look-up of the service `name` in `namespace`.
pub open spec fn step_of(name: Seq<char>, namespace: Seq<char>, lookup: Lookup) -> WatchStepView {
    match lookup {
        Lookup::Found(svc) => match lb_addr_of(svc) {
            Some(text) => WatchStepView::Resolve(text),
            None => WatchStepView::Skip,
        },
        Lookup::Missing => WatchStepView::Emit(
            VipEventView::Delete(LbView { name, namespace, addr: None }),
        ),
        Lookup::Failed => WatchStepView::Skip,
    }
}

/// The event that follows once the address text of a watched service was
/// read: an `Add` where the text was an address, nothing where it was not.
pub open spec fn resolved_event(
    name: Seq<char>,
    namespace: Seq<char>,
    addr: Option<IpAddress>,
) -> Option<VipEventView> {
    match addr {
        Some(a) => Some(VipEventView::Add(LbView { name, namespace, addr: Some(a) })),
        None => None,
    }
}

fn text_is(text: &String, word: &str) -> (b: bool)
    ensures
        b == (text@ == word@),
{
    let other = String::from_str(word);
    *text == other
}

/// The address text under which the service is watched, if it is watched.
pub fn get_lb_addr(svc: &Service) -> (r: Option<String>)
    ensures
        match r {
            Some(text) => lb_addr_of(*svc) == Some(text@),
            None => lb_addr_of(*svc) is None,
        },
{
    match &svc.spec {
        Some(svc_spec) => {
            match &svc_spec.type_ {
                Some(svc_type) => {
                    if !text_is(svc_type, "LoadBalancer") {
                        return None;
                    }
                },
                None => {
                    return None;
                },
            }
            match &svc_spec.external_traffic_policy {
                Some(etp) => {
                    if text_is(etp, "Local") {
                        return None;
                    }
                },
                None => {},
            }
        },
        None => {
            return None;
        },
    }
    match &svc.status {
        Some(svc_status) => match &svc_status.load_balancer {
            Some(lb_status) => match &lb_status.ingress {
                Some(ingress) => {
                    if ingress.len() > 0 {
                        return match &ingress[0].ip {
                            Some(ip) => Some(ip.clone()),
                            None => None,
                        };
                    }
                },
                None => {},
            },
            None => {},
        },
        None => {},
    }
    None
}

/// Decides what follows from the look-up of a changed service: a service that
/// is gone is deleted, a watched one has its address text read, and any other
/// is skipped.
pub fn on_lookup(name: &str, namespace: &str, lookup: &Lookup) -> (step: WatchStep)
    ensures
        step@ == step_of(name@, namespace@, *lookup),
{
    match lookup {
        Lookup::Found(svc) => match get_lb_addr(svc) {
            Some(text) => WatchStep::Resolve(text),
            None => WatchStep::Skip,
        },
        Lookup::Missing => WatchStep::Emit(
            VipEvent::Delete(
                Lb {
                    name: String::from_str(name),
                    namespace: String::from_str(namespace),
                    addr: None,
                },
            ),
        ),
        Lookup::Failed => WatchStep::Skip,
    }
}

/// Makes the event for a watched service whose address text was read as
/// `addr`; text that is no address gives no event.
pub fn on_resolved(name: &str, namespace: &str, addr: Option<IpAddress>) -> (event: Option<
    VipEvent,
>)
    ensures
        match event {
            Some(e) => resolved_event(name@, namespace@, addr) == Some(e@),
            None => resolved_event(name@, namespace@, addr) is None,
        },
{
    match addr {
        Some(a) => Some(
            VipEvent::Add(
                Lb {
                    name: String::from_str(name),
                    namespace: String::from_str(namespace),
                    addr: Some(a),
                },
            ),
        ),
        None => None,
    }
}

/// A service with the local traffic policy is never watched: its look-up is
/// skipped, so that no `Add` can follow, whatever its kind and its ingress
/// points.
pub proof fn lemma_local_policy_never_adds(name: Seq<char>, namespace: Seq<char>, svc: Service)
    requires
        has_local_policy(svc),
    ensures
        lb_addr_of(svc) is None,
        step_of(name, namespace, Lookup::Found(svc)) == WatchStepView::Skip,
{
}

/// An `Add` only ever comes with an address, and a `Delete` from the watcher
/// carries none.
pub proof fn lemma_event_shapes(
    name: Seq<char>,
    namespace: Seq<char>,
    lookup: Lookup,
    addr: Option<IpAddress>,
)
    ensures
        !(step_of(name, namespace, lookup) matches WatchStepView::Emit(VipEventView::Add(_))),
        step_of(name, namespace, lookup) matches WatchStepView::Emit(VipEventView::Delete(lb))
            ==> lookup == Lookup::Missing && lb.addr is None,
        resolved_event(name, namespace, addr) matches Some(e) ==> e matches VipEventView::Add(lb)
            && lb.addr == addr && addr is Some,
{
}

} // verus!

//! The event drain: the single consumer of the ring. It decodes each record
//! into the flow it describes and counts the flow.

use crate::addr::dotted;
use crate::event::{Ipv4Event, IPV4_EVENT_LEN};
use crate::metrics::{counted, Metrics};
use crate::ring::EventRing;
use vstd::prelude::*;

verus! {

/// Decodes one record and counts the flow it describes. A record that is too
/// short to hold a flow is dropped and nothing is counted.
pub fn on_record(record: &[u8], metrics: &mut Metrics) -> (r: Option<Ipv4Event>)
    ensures
        record@.len() < IPV4_EVENT_LEN ==> r is None && *final(metrics) == *old(metrics),
        record@.len() >= IPV4_EVENT_LEN ==> r == Some(Ipv4Event::decoded(record@)) && counted(
            *old(metrics),
            *final(metrics),
            dotted(Ipv4Event::decoded(record@).src_addr),
            dotted(Ipv4Event::decoded(record@).dst_addr),
        ),
{
    match Ipv4Event::decode(record) {
        Some(event) => {
            metrics.picked_total(event.src_addr, event.dst_addr);
            Some(event)
        },
        None => None,
    }
}

/// Takes the oldest record out of the ring, counts its flow and returns it,
/// for the caller to log. An empty ring gives nothing and nothing changes.
pub fn drain_next(events: &mut EventRing, metrics: &mut Metrics) -> (r: Option<Ipv4Event>)
    requires
        old(events).wf(),
    ensures
        final(events).wf(),
        final(events).capacity() == old(events).capacity(),
        old(events)@.len() == 0 ==> r is None && final(events)@ == old(events)@ && *final(metrics)
            == *old(metrics),
        old(events)@.len() > 0 ==> r == Some(Ipv4Event::decoded(old(events)@[0])) && final(events)@
            == old(events)@.drop_first() && counted(
            *old(metrics),
            *final(metrics),
            dotted(Ipv4Event::decoded(old(events)@[0]).src_addr),
            dotted(Ipv4Event::decoded(old(events)@[0]).dst_addr),
        ),
{
    match events.next() {
        Some(record) => {
            proof {
                old(events).lemma_record_len(0);
            }
            on_record(record.as_slice(), metrics)
        },
        None => None,
    }
}

} // verus!

//! Values as 32-bit limbs, the least significant first.

use vstd::prelude::*;

use crate::error::{error, fails_with, report, ErrorReport, ErrorReportView};
use crate::model::design::Width;
use crate::model::launch::{RuntimePartitionLaunchRoute, RuntimePartitionLaunchRouteView};
use crate::model::session::{RuntimePartitionRoutePayload, RuntimePartitionRoutePayloadView};
use crate::seqs::{first_index, lemma_first_index, lemma_first_index_is};
use crate::text::{append_decimal, decimal};

verus! {

/// The number of limbs of a width.
pub open spec fn limb_count(width: Width) -> nat {
    ((width + 31) / 32) as nat
}

/// Counts the limbs of a width.
pub fn route_width_limbs(width: Width) -> (r: usize)
    ensures
        r == limb_count(width),
{
    ((width as u64 + 31) / 32) as usize
}

// ---------------------------------------------------------------------------
// Payloads of routes
// ---------------------------------------------------------------------------

/// Whether a route has an index.
pub open spec fn has_route_index(
    routes: Seq<RuntimePartitionLaunchRouteView>,
    index: usize,
) -> spec_fn(int) -> bool {
    |r: int| routes[r].route_index == index
}

/// The first route of an index.
pub open spec fn route_at(routes: Seq<RuntimePartitionLaunchRouteView>, index: usize) -> Option<int> {
    first_index(routes.len(), has_route_index(routes, index))
}

/// Looks up a route by its index.
pub fn find_route(routes: &Vec<RuntimePartitionLaunchRoute>, index: usize) -> (r: Option<usize>)
    ensures
        match r {
            Some(k) => k < routes@.len() && route_at(routes.deep_view(), index) == Some(k as int),
            None => route_at(routes.deep_view(), index) is None,
        },
{
    let ghost rs = routes.deep_view();
    let ghost p = has_route_index(rs, index);
    proof {
        assert(rs.len() == routes@.len());
    }
    let mut k: usize = 0;
    while k < routes.len()
        invariant
            k <= routes@.len(),
            rs == routes.deep_view(),
            rs.len() == routes@.len(),
            p == has_route_index(rs, index),
            forall|j: int| 0 <= j < k ==> !#[trigger] p(j),
        decreases routes@.len() - k,
    {
        proof {
            assert(rs[k as int] == routes@[k as int].deep_view());
        }
        if routes[k].route_index == index {
            proof {
                assert(p(k as int));
                lemma_first_index_is(rs.len(), p, k as int);
            }
            return Some(k);
        }
        k = k + 1;
    }
    proof {
        lemma_first_index(rs.len(), p);
    }
    None
}

pub open spec fn mailbox_report(message: Seq<char>) -> ErrorReportView {
    report("E_RUNTIME_PARTITION_ROUTE_MAILBOX"@, message)
}

/// What is wrong with a payload: the worker has no such route, the width is
/// another one, or there are no limbs or too many.
pub open spec fn payload_problem(
    worker: Seq<char>,
    payload: RuntimePartitionRoutePayloadView,
    routes: Seq<RuntimePartitionLaunchRouteView>,
    direction: Seq<char>,
) -> Option<ErrorReportView> {
    let subject = "partition worker `"@ + worker + "` "@ + direction + " route "@ + decimal(
        payload.route_index as nat,
    );
    match route_at(routes, payload.route_index) {
        None => Some(
            mailbox_report(
                "partition worker `"@ + worker + "` has no "@ + direction + " route "@ + decimal(
                    payload.route_index as nat,
                ),
            ),
        ),
        Some(k) => {
            let width = routes[k].width;
            if payload.width != width {
                Some(
                    mailbox_report(
                        subject + " payload width "@ + decimal(payload.width as nat)
                            + " does not match route width "@ + decimal(width as nat),
                    ),
                )
            } else if limb_count(width) > 0 && payload.limbs.len() == 0 {
                Some(
                    mailbox_report(
                        subject + " payload has no limbs for width "@ + decimal(
                            payload.width as nat,
                        ),
                    ),
                )
            } else if payload.limbs.len() > limb_count(width) {
                Some(
                    mailbox_report(
                        subject + " payload has "@ + decimal(payload.limbs.len())
                            + " limbs, expected at most "@ + decimal(limb_count(width)),
                    ),
                )
            } else {
                None
            }
        },
    }
}

fn route_subject(worker_id: &str, direction: &str, route_index: usize) -> (r: String)
    ensures
        r@ == "partition worker `"@ + worker_id@ + "` "@ + direction@ + " route "@ + decimal(
            route_index as nat,
        ),
{
    let mut message = "partition worker `".to_owned();
    message.append(worker_id);
    message.append("` ");
    message.append(direction);
    message.append(" route ");
    append_decimal(&mut message, route_index as u64);
    message
}

/// Checks a payload against the routes of a worker.
pub fn validate_partition_route_payload(
    worker_id: &str,
    payload: &RuntimePartitionRoutePayload,
    routes: &Vec<RuntimePartitionLaunchRoute>,
    direction: &str,
) -> (r: Result<(), ErrorReport>)
    ensures
        fails_with(
            r,
            payload_problem(worker_id@, payload.deep_view(), routes.deep_view(), direction@),
        ),
{
    let k: usize = match find_route(routes, payload.route_index) {
        Some(k) => k,
        None => {
            let mut message = "partition worker `".to_owned();
            message.append(worker_id);
            message.append("` has no ");
            message.append(direction);
            message.append(" route ");
            append_decimal(&mut message, payload.route_index as u64);
            return Err(error("E_RUNTIME_PARTITION_ROUTE_MAILBOX", message.as_str()));
        },
    };
    let route = &routes[k];
    proof {
        assert(routes.deep_view()[k as int] == route.deep_view());
    }
    if payload.width != route.width {
        let mut message = route_subject(worker_id, direction, payload.route_index);
        message.append(" payload width ");
        append_decimal(&mut message, payload.width as u64);
        message.append(" does not match route width ");
        append_decimal(&mut message, route.width as u64);
        return Err(error("E_RUNTIME_PARTITION_ROUTE_MAILBOX", message.as_str()));
    }
    let required: usize = route_width_limbs(route.width);
    if required > 0 && payload.limbs.len() == 0 {
        let mut message = route_subject(worker_id, direction, payload.route_index);
        message.append(" payload has no limbs for width ");
        append_decimal(&mut message, payload.width as u64);
        return Err(error("E_RUNTIME_PARTITION_ROUTE_MAILBOX", message.as_str()));
    }
    if payload.limbs.len() > required {
        let mut message = route_subject(worker_id, direction, payload.route_index);
        message.append(" payload has ");
        append_decimal(&mut message, payload.limbs.len() as u64);
        message.append(" limbs, expected at most ");
        append_decimal(&mut message, required as u64);
        return Err(error("E_RUNTIME_PARTITION_ROUTE_MAILBOX", message.as_str()));
    }
    Ok(())
}

} // verus!

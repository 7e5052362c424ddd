//! Per-request dispatch decisions at the accept-loop boundary: attaching a
//! correlation identifier before a request reaches its handler, and deciding
//! what an access-log line carries — requests under the health-check path are
//! exempt from access logging.

use vstd::prelude::*;

verus! {

/// The bytes of the reserved health-check path prefix, `/_health`.
pub open spec fn health_prefix() -> Seq<u8> {
    seq![47u8, 95u8, 104u8, 101u8, 97u8, 108u8, 116u8, 104u8]
}

/// True when `path` starts with the health-check prefix (a raw byte prefix,
/// as liveness probes address the responder directly).
pub open spec fn is_health_path(path: Seq<u8>) -> bool {
    path.len() >= health_prefix().len() && path.take(health_prefix().len() as int)
        == health_prefix()
}

/// The placeholder a log line carries when the response named no serving
/// plugin: the bytes of `unkown` (the label the wire protocol established).
pub open spec fn unknown_plugin_label() -> Seq<u8> {
    seq![117u8, 110u8, 107u8, 111u8, 119u8, 110u8]
}

/// The placeholder for a missing correlation header in a log line: `-`.
pub open spec fn no_correlation_label() -> Seq<u8> {
    seq![45u8]
}

/// Relies on `uuid::Uuid::new_v4` and the `Display` of its hyphenated form:
/// a fresh version-4 UUID always renders as 36 ASCII bytes.
#[verifier::external_body]
fn fresh_request_id() -> (r: Vec<u8>)
    ensures
        r@.len() == 36,
{
    uuid::Uuid::new_v4().to_string().into_bytes()
}

/// The correlation identifier a request carries into its handler: the value
/// already present stays untouched; a request without one gets a freshly
/// generated identifier (36 bytes, a rendered UUID).
pub fn correlation_id(existing: Option<Vec<u8>>) -> (r: Vec<u8>)
    ensures
        match existing {
            Some(h) => r@ == h@,
            None => r@.len() == 36,
        },
{
    match existing {
        Some(h) => h,
        None => fresh_request_id(),
    }
}

/// Whether a request to `path` is access-logged: everything is, except the
/// health-check path, exempted so liveness probes cannot flood the log.
pub fn should_log(path: &Vec<u8>) -> (r: bool)
    ensures
        r == !is_health_path(path@),
{
    let hp: Vec<u8> = vec![47u8, 95u8, 104u8, 101u8, 97u8, 108u8, 116u8, 104u8];
    proof {
        assert(hp@ =~= health_prefix());
    }
    if path.len() < hp.len() {
        return true;
    }
    let mut i: usize = 0;
    while i < hp.len()
        invariant
            i <= hp.len() <= path.len(),
            hp@ == health_prefix(),
            path@.take(i as int) == hp@.take(i as int),
        decreases hp.len() - i,
    {
        if path[i] != hp[i] {
            proof {
                assert(path@.take(hp@.len() as int)[i as int] != hp@[i as int]);
            }
            return true;
        }
        proof {
            assert(path@.take(i + 1 as int) =~= path@.take(i as int).push(path@[i as int]));
            assert(hp@.take(i + 1 as int) =~= hp@.take(i as int).push(hp@[i as int]));
        }
        i += 1;
    }
    proof {
        assert(path@.take(hp@.len() as int) =~= hp@.take(hp@.len() as int));
        assert(hp@.take(hp@.len() as int) =~= hp@);
    }
    false
}

/// What one access-log line records about a finished request.
#[derive(Debug)]
pub struct LogEntry {
    pub plugin: Vec<u8>,
    pub correlation: Vec<u8>,
    pub status: u16,
}

/// The access-log decision for a finished request: `None` exactly for the
/// health-check path; otherwise a line carrying the serving plugin's name
/// and the correlation identifier from the response headers, with fixed
/// placeholders where a header is absent, and the final status.
pub fn log_summary(
    path: &Vec<u8>,
    plugin_header: Option<Vec<u8>>,
    correlation_header: Option<Vec<u8>>,
    status: u16,
) -> (r: Option<LogEntry>)
    ensures
        r is None <==> is_health_path(path@),
        r matches Some(e) ==> {
            &&& e.status == status
            &&& e.plugin@ == match plugin_header {
                Some(p) => p@,
                None => unknown_plugin_label(),
            }
            &&& e.correlation@ == match correlation_header {
                Some(c) => c@,
                None => no_correlation_label(),
            }
        },
{
    if !should_log(path) {
        return None;
    }
    let plugin = match plugin_header {
        Some(p) => p,
        None => {
            let l: Vec<u8> = vec![117u8, 110u8, 107u8, 111u8, 119u8, 110u8];
            proof {
                assert(l@ =~= unknown_plugin_label());
            }
            l
        },
    };
    let correlation = match correlation_header {
        Some(c) => c,
        None => {
            let l: Vec<u8> = vec![45u8];
            proof {
                assert(l@ =~= no_correlation_label());
            }
            l
        },
    };
    Some(LogEntry { plugin, correlation, status })
}

} // verus!

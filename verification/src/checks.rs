//! Assembly of reachability-check results from transport outcomes.
//!
//! The network work itself — issuing the GET, attempting the connect,
//! timing it — happens outside the library; what comes back per check is
//! a plain outcome. An HTTP check is up exactly when a response arrived
//! with the expected status; a transport failure reads as status zero and
//! counts as a collector error. A TCP check is up exactly when the
//! connection succeeded.

use crate::stats::{CheckResults, HttpCheckResult, TcpCheckResult};
use vstd::prelude::*;

verus! {

/// The outcome of one HTTP check's transport: the configured name and
/// expected status, the response status if any arrived, and the wall
/// time.
pub struct HttpOutcome {
    pub name: String,
    pub expected_status: u16,
    pub status: Option<u16>,
    pub latency_ms: u64,
}

/// The outcome of one TCP check's transport.
pub struct TcpOutcome {
    pub name: String,
    pub connected: bool,
    pub latency_ms: u64,
}

/// The result of one HTTP outcome: up exactly when the response arrived
/// with the expected status; no response reads as status zero.
pub open spec fn spec_http_result(o: HttpOutcome) -> (HttpCheckResult, bool) {
    match o.status {
        Some(code) => (
            HttpCheckResult {
                name: o.name,
                up: code == o.expected_status,
                latency_ms: o.latency_ms,
                status_code: code,
            },
            false,
        ),
        None => (
            HttpCheckResult { name: o.name, up: false, latency_ms: o.latency_ms, status_code: 0 },
            true,
        ),
    }
}

/// The result of one TCP outcome: up exactly when the connection
/// succeeded; a failure counts as a collector error.
pub open spec fn spec_tcp_result(o: TcpOutcome) -> (TcpCheckResult, bool) {
    (
        TcpCheckResult { name: o.name, up: o.connected, latency_ms: o.latency_ms },
        !o.connected,
    )
}

/// How many outcomes of a prefix count as collector errors.
pub open spec fn spec_http_errors(s: Seq<HttpOutcome>) -> int
    decreases s.len(),
{
    if s.len() == 0 {
        0
    } else {
        spec_http_errors(s.drop_last()) + (if s.last().status is None {
            1int
        } else {
            0int
        })
    }
}

/// How many TCP outcomes of a prefix count as collector errors.
pub open spec fn spec_tcp_errors(s: Seq<TcpOutcome>) -> int
    decreases s.len(),
{
    if s.len() == 0 {
        0
    } else {
        spec_tcp_errors(s.drop_last()) + (if s.last().connected {
            0int
        } else {
            1int
        })
    }
}

/// Evaluates one HTTP outcome.
pub fn evaluate_http_check(o: HttpOutcome) -> (r: (HttpCheckResult, bool))
    ensures
        r == spec_http_result(o),
{
    match o.status {
        Some(code) => (
            HttpCheckResult {
                name: o.name,
                up: code == o.expected_status,
                latency_ms: o.latency_ms,
                status_code: code,
            },
            false,
        ),
        None => (
            HttpCheckResult { name: o.name, up: false, latency_ms: o.latency_ms, status_code: 0 },
            true,
        ),
    }
}

/// Evaluates one TCP outcome.
pub fn evaluate_tcp_check(o: TcpOutcome) -> (r: (TcpCheckResult, bool))
    ensures
        r == spec_tcp_result(o),
{
    let connected = o.connected;
    (TcpCheckResult { name: o.name, up: o.connected, latency_ms: o.latency_ms }, !connected)
}

/// Folds every check's outcome into the cycle's results, counting the
/// transport failures of both kinds as collector errors (saturating).
pub fn collect_checks(http: Vec<HttpOutcome>, tcp: Vec<TcpOutcome>) -> (r: (CheckResults, u64))
    ensures
        r.0.http@.len() == http@.len(),
        forall|i: int|
            0 <= i < http@.len() ==> #[trigger] r.0.http@[i] == spec_http_result(http@[i]).0,
        r.0.tcp@.len() == tcp@.len(),
        forall|i: int| 0 <= i < tcp@.len() ==> #[trigger] r.0.tcp@[i] == spec_tcp_result(tcp@[i]).0,
        r.1 as int == (if spec_http_errors(http@) + spec_tcp_errors(tcp@) > u64::MAX {
            u64::MAX as int
        } else {
            spec_http_errors(http@) + spec_tcp_errors(tcp@)
        }),
{
    let mut http_results: Vec<HttpCheckResult> = Vec::new();
    let mut tcp_results: Vec<TcpCheckResult> = Vec::new();
    let mut errors: u64 = 0;
    proof {
        assert(http@.take(0) =~= Seq::<HttpOutcome>::empty());
    }
    let mut i: usize = 0;
    while i < http.len()
        invariant
            i <= http@.len(),
            http_results@.len() == i,
            forall|k: int|
                0 <= k < i ==> #[trigger] http_results@[k] == spec_http_result(http@[k]).0,
            errors as int == (if spec_http_errors(http@.take(i as int)) > u64::MAX {
                u64::MAX as int
            } else {
                spec_http_errors(http@.take(i as int))
            }),
        decreases http.len() - i,
    {
        proof {
            assert(http@.take(i as int + 1).drop_last() =~= http@.take(i as int));
        }
        let o = HttpOutcome {
            name: http[i].name.clone(),
            expected_status: http[i].expected_status,
            status: http[i].status,
            latency_ms: http[i].latency_ms,
        };
        assert(o == http@[i as int]);
        let (res, had_error) = evaluate_http_check(o);
        http_results.push(res);
        if had_error {
            errors = errors.saturating_add(1);
        }
        proof {
            lemma_http_errors_nonneg(http@.take(i as int + 1));
        }
        i = i + 1;
    }
    proof {
        assert(http@.take(http@.len() as int) =~= http@);
    }
    proof {
        assert(tcp@.take(0) =~= Seq::<TcpOutcome>::empty());
    }
    let mut j: usize = 0;
    while j < tcp.len()
        invariant
            j <= tcp@.len(),
            tcp_results@.len() == j,
            forall|k: int| 0 <= k < j ==> #[trigger] tcp_results@[k] == spec_tcp_result(tcp@[k]).0,
            errors as int == (if spec_http_errors(http@) + spec_tcp_errors(tcp@.take(j as int))
                > u64::MAX {
                u64::MAX as int
            } else {
                spec_http_errors(http@) + spec_tcp_errors(tcp@.take(j as int))
            }),
        decreases tcp.len() - j,
    {
        proof {
            assert(tcp@.take(j as int + 1).drop_last() =~= tcp@.take(j as int));
        }
        let o = TcpOutcome {
            name: tcp[j].name.clone(),
            connected: tcp[j].connected,
            latency_ms: tcp[j].latency_ms,
        };
        assert(o == tcp@[j as int]);
        let (res, had_error) = evaluate_tcp_check(o);
        tcp_results.push(res);
        if had_error {
            errors = errors.saturating_add(1);
        }
        proof {
            lemma_http_errors_nonneg(http@);
            lemma_tcp_errors_nonneg(tcp@.take(j as int + 1));
        }
        j = j + 1;
    }
    proof {
        assert(tcp@.take(tcp@.len() as int) =~= tcp@);
    }
    (CheckResults { http: http_results, tcp: tcp_results }, errors)
}

/// Error counts never go negative.
pub proof fn lemma_http_errors_nonneg(s: Seq<HttpOutcome>)
    ensures
        0 <= spec_http_errors(s) <= s.len(),
    decreases s.len(),
{
    if s.len() > 0 {
        lemma_http_errors_nonneg(s.drop_last());
    }
}

/// Error counts never go negative.
pub proof fn lemma_tcp_errors_nonneg(s: Seq<TcpOutcome>)
    ensures
        0 <= spec_tcp_errors(s) <= s.len(),
    decreases s.len(),
{
    if s.len() > 0 {
        lemma_tcp_errors_nonneg(s.drop_last());
    }
}

} // verus!

//! The decisions of the scanning pipeline: the fixed port list, the
//! timeouts, the scheme-fallback policy of a port probe, and the gathering
//! of the per-port outcomes into the results of one address. The network
//! operations themselves happen outside; their outcomes are handed in as
//! plain values.

use vstd::prelude::*;

verus! {

use crate::render::ScanResult;
use crate::render::Scheme;
use crate::title::lossy_of;
use crate::title::spec_title;

/// Timeout of one liveness probe, in milliseconds.
pub const PING_TIMEOUT_MS: u64 = 700;

/// Timeout of one TCP connect, in milliseconds.
pub const TCP_TIMEOUT_MS: u64 = 700;

/// Total timeout of one HTTP attempt, in milliseconds.
pub const HTTP_TIMEOUT_MS: u64 = 6000;

/// The fixed list of ports probed on every live address.
pub open spec fn port_list() -> Seq<u16> {
    seq![
        80u16,
        443u16,
        8008u16,
        3000u16,
        5000u16,
        9080u16,
        9443u16,
        8000u16,
        8001u16,
        8080u16,
        8443u16,
        9000u16,
        9001u16,
    ]
}

/// The ports probed on every live address, identical for all of them.
pub fn ports() -> (r: Vec<u16>)
    ensures
        r@ == port_list(),
{
    let mut v: Vec<u16> = Vec::new();
    v.push(80);
    v.push(443);
    v.push(8008);
    v.push(3000);
    v.push(5000);
    v.push(9080);
    v.push(9443);
    v.push(8000);
    v.push(8001);
    v.push(8080);
    v.push(8443);
    v.push(9000);
    v.push(9001);
    assert(v@ =~= port_list());
    v
}

/// The scheme tried first on an open port.
pub fn first_scheme() -> (r: Scheme)
    ensures
        r == Scheme::Http,
{
    Scheme::Http
}

/// After an attempt on a scheme fails, the scheme tried next: plain HTTP
/// falls back to HTTPS; after HTTPS nothing follows. A port probe stops at
/// the first scheme that succeeds, so a port answers on one scheme at most.
pub fn fallback_scheme(s: Scheme) -> (r: Option<Scheme>)
    ensures
        s == Scheme::Http ==> r == Some(Scheme::Https),
        s == Scheme::Https ==> r is None,
{
    match s {
        Scheme::Http => Some(Scheme::Https),
        Scheme::Https => None,
    }
}

/// The outcome of one scheme attempt on an open port. A response, whatever
/// its status, gives exactly one result, its title extracted from the body;
/// a failed attempt gives nothing, and the failure is not surfaced.
pub fn attempt_result(scheme: Scheme, addr: u32, port: u16, response: Option<(u16, Vec<u8>)>) -> (r:
    Option<ScanResult>)
    ensures
        r is Some <==> response is Some,
        response is Some ==> {
            &&& r->0.scheme == scheme
            &&& r->0.addr == addr
            &&& r->0.port == port
            &&& r->0.status == (response->0).0
            &&& r->0.title@ == spec_title(lossy_of((response->0).1@))
        },
{
    match response {
        Some((status, body)) => Some(ScanResult::new(scheme, addr, port, status, body.as_slice())),
        None => None,
    }
}

/// The results among the per-port outcomes of one address, kept in the
/// order the outcomes arrived.
pub open spec fn collected(s: Seq<Option<ScanResult>>) -> Seq<ScanResult>
    decreases s.len(),
{
    if s.len() == 0 {
        Seq::empty()
    } else if s[0] is Some {
        seq![s[0]->0] + collected(s.drop_first())
    } else {
        collected(s.drop_first())
    }
}

/// Gather the results of one address out of its per-port outcomes: every
/// produced result, none dropped and none invented, in arrival order. An
/// address with no listening port yields no result at all, and the pipeline
/// still completes.
pub fn collect_results(outcomes: Vec<Option<ScanResult>>) -> (r: Vec<ScanResult>)
    ensures
        r@ == collected(outcomes@),
{
    let ghost orig = outcomes@;
    let mut v = outcomes;
    let mut out: Vec<ScanResult> = Vec::new();
    while v.len() > 0
        invariant
            collected(orig) == out@ + collected(v@),
        decreases v.len(),
    {
        let ghost pre = v@;
        let x = v.remove(0);
        proof {
            assert(v@ =~= pre.drop_first());
        }
        match x {
            Some(res) => {
                out.push(res);
                proof {
                    assert(out@ + collected(v@) =~= collected(orig));
                }
            },
            None => {},
        }
    }
    proof {
        assert(out@ =~= collected(orig));
    }
    out
}

/// The results of one address's whole pipeline. An address that failed the
/// liveness gate is excluded outright: nothing is emitted and no error is
/// surfaced. A live address yields the results gathered from its port
/// probes, which may well be none; the pipeline completes either way.
pub fn address_results(live: bool, outcomes: Vec<Option<ScanResult>>) -> (r: Vec<ScanResult>)
    ensures
        !live ==> r@.len() == 0,
        live ==> r@ == collected(outcomes@),
{
    if live {
        collect_results(outcomes)
    } else {
        Vec::new()
    }
}

} // verus!

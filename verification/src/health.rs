//! Health-gate decisions: how many healthy endpoints a commit needs, and how
//! poll responses are counted. The polling loop itself lives with the I/O
//! layer, which feeds poll outcomes back into these functions.

use vstd::prelude::*;

use crate::strutil::{lower_bytes, lower_bytes_of};
use vstd::string::StringSliceAdditionalSpecFns;
use vstd::utf8::encode_utf8;

verus! {

/// A quorum of zero, or no endpoints at all, trivially succeeds, so a hub
/// with no sibling services can still commit.
pub open spec fn spec_trivially_healthy(quorum: usize, endpoints: nat) -> bool {
    quorum == 0 || endpoints == 0
}

/// Whether no polling is needed at all.
pub fn trivially_healthy(quorum: usize, endpoint_count: usize) -> (r: bool)
    ensures
        r == spec_trivially_healthy(quorum, endpoint_count as nat),
{
    quorum == 0 || endpoint_count == 0
}

/// The quorum actually required: clamped to the number of endpoints.
pub open spec fn spec_effective_quorum(quorum: usize, endpoints: nat) -> nat {
    if quorum as nat <= endpoints {
        quorum as nat
    } else {
        endpoints
    }
}

/// Clamp the quorum to the number of endpoints.
pub fn effective_quorum(quorum: usize, endpoint_count: usize) -> (r: usize)
    ensures
        r as nat == spec_effective_quorum(quorum, endpoint_count as nat),
{
    if quorum <= endpoint_count {
        quorum
    } else {
        endpoint_count
    }
}

/// One endpoint's poll outcome: whether the HTTP status was 2xx, and the
/// reported status body field.
#[derive(Debug, Clone, PartialEq, Eq)]
pub struct PollOutcome {
    pub success: bool,
    pub status: String,
}

/// A healthy poll: a 2xx response whose status field reads `ok`, ignoring
/// ASCII case.
pub open spec fn spec_poll_healthy(p: PollOutcome) -> bool {
    p.success && lower_bytes_of(encode_utf8(p.status@)) == encode_utf8("ok"@)
}

/// The number of healthy outcomes among the first `i`.
pub open spec fn spec_healthy_count(polls: Seq<PollOutcome>, i: int) -> nat
    decreases i,
{
    if i <= 0 || i > polls.len() {
        0
    } else {
        spec_healthy_count(polls, i - 1) + (if spec_poll_healthy(polls[i - 1]) {
            1nat
        } else {
            0nat
        })
    }
}

/// Count the healthy outcomes of one polling round.
pub fn count_healthy(polls: &Vec<PollOutcome>) -> (r: usize)
    ensures
        r as nat == spec_healthy_count(polls@, polls@.len() as int),
{
    let mut count: usize = 0;
    let mut i: usize = 0;
    while i < polls.len()
        invariant
            i <= polls@.len(),
            count as nat == spec_healthy_count(polls@, i as int),
            count <= i,
        decreases polls@.len() - i,
    {
        let p = &polls[i];
        let lowered = lower_bytes(p.status.as_str().as_bytes());
        if p.success && crate::strutil::bytes_eq(lowered.as_slice(), "ok".as_bytes()) {
            count = count + 1;
        }
        i = i + 1;
    }
    count
}

/// Whether one polling round meets the (clamped) quorum.
pub fn quorum_met(polls: &Vec<PollOutcome>, quorum: usize) -> (r: bool)
    ensures
        r == (spec_healthy_count(polls@, polls@.len() as int) >= spec_effective_quorum(
            quorum,
            polls@.len() as nat,
        )),
{
    if trivially_healthy(quorum, polls.len()) {
        proof {
            lemma_healthy_count_le(polls@, polls@.len() as int);
        }
        return true;
    }
    let effective = effective_quorum(quorum, polls.len());
    count_healthy(polls) >= effective
}

/// Healthy counts never exceed the polls counted.
proof fn lemma_healthy_count_le(polls: Seq<PollOutcome>, i: int)
    ensures
        spec_healthy_count(polls, i) <= if i <= polls.len() {
            if i >= 0 {
                i
            } else {
                0
            }
        } else {
            polls.len() as int
        },
    decreases i,
{
    if i > 0 && i <= polls.len() {
        lemma_healthy_count_le(polls, i - 1);
    }
}

/// A stand-in health client with a fixed verdict, for tests and dry runs.
#[derive(Debug, Clone, Copy, PartialEq, Eq, Structural)]
pub struct StubHealthClient {
    pub result: bool,
}

impl StubHealthClient {
    /// The fixed verdict, whatever the endpoints, deadline and quorum.
    pub fn wait_for_quorum(
        &self,
        _endpoints: &Vec<String>,
        _deadline_ms: u64,
        _quorum: usize,
    ) -> (r: bool)
        ensures
            r == self.result,
    {
        self.result
    }
}

} // verus!

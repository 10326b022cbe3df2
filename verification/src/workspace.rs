//! Workspaces: how a fresh one is named and numbered, and which saved one
//! becomes the live one when a saved state is loaded.
use vstd::prelude::*;
use rand::Rng;

verus! {

/// The name of a workspace that a save file does not name.
pub fn default_workspace_name() -> (r: String)
    ensures
        r@ == "Default"@,
{
    "Default".to_owned()
}

/// `e` rotated left by 17 bits, as a number: its low 47 bits move up by 17
/// places and its high 17 bits come round to the bottom.
pub open spec fn rotl17(e: u64) -> int {
    (e as int % 0x8000_0000_0000) * 0x20000 + e as int / 0x8000_0000_0000
}

/// The workspace id made of the time `now` (in nanoseconds) and the random
/// `entropy`: their sum, `entropy` rotated left by 17 bits, modulo 2^64.
pub open spec fn workspace_id_of(now: u64, entropy: u64) -> int {
    (now as int + rotl17(entropy)) % 0x1_0000_0000_0000_0000
}

/// Mixes the time `now` and the random `entropy` into a workspace id.
pub fn mix_workspace_id(now: u64, entropy: u64) -> (r: u64)
    ensures
        r == workspace_id_of(now, entropy),
{
    let rot: u64 = (entropy << 17u64) | (entropy >> 47u64);
    assert(rot == (entropy % 0x8000_0000_0000) * 0x20000 + entropy / 0x8000_0000_0000)
        by (bit_vector)
        requires
            rot == (entropy << 17u64) | (entropy >> 47u64),
    ;
    let r = now.wrapping_add(rot);
    assert(r == (now as int + rot as int) % 0x1_0000_0000_0000_0000);
    r
}

/// A random `u64` from rand's thread-local generator,
/// `rand::rng().random()`; nothing is promised of its value.
#[verifier::external_body]
fn random_u64() -> (r: u64) {
    rand::rng().random()
}

/// A fresh workspace id for the time `now` (in nanoseconds since the Unix
/// epoch): `now` mixed with random entropy, so ids made at the same
/// nanosecond still differ.
pub fn next_workspace_id(now: u64) -> (r: u64)
    ensures
        exists|entropy: u64| r == workspace_id_of(now, entropy),
{
    let entropy = random_u64();
    mix_workspace_id(now, entropy)
}

/// Which saved workspace becomes the live one when a saved state is loaded.
#[derive(Debug, Clone, Copy, PartialEq, Eq, Structural)]
pub enum Promotion {
    /// A save file from before workspaces: its windows become a new
    /// workspace with a fresh id.
    Legacy,
    /// The saved active workspace, at this position among the saved ones;
    /// it leaves the saved set.
    Active(usize),
    /// The active id is not among the saved ones: a copy of the workspace
    /// at this position (the first) becomes live, and it stays saved too.
    Fallback(usize),
}

/// Decides which saved workspace becomes live, given the saved active id and
/// the ids of the saved workspaces in the order they are walked.
pub fn promotion(active_id: u64, ids: &Vec<u64>) -> (r: Promotion)
    ensures
        (ids.len() == 0) == (r == Promotion::Legacy),
        ids@.contains(active_id) ==> (r matches Promotion::Active(k) && k < ids.len()
            && ids@[k as int] == active_id && forall|j: int| 0 <= j < k ==> ids@[j] != active_id),
        ids.len() > 0 && !ids@.contains(active_id) ==> r == Promotion::Fallback(0),
{
    if ids.len() == 0 {
        return Promotion::Legacy;
    }
    let mut k: usize = 0;
    while k < ids.len()
        invariant
            0 <= k <= ids.len(),
            forall|j: int| 0 <= j < k ==> ids@[j] != active_id,
        decreases ids.len() - k,
    {
        if ids[k] == active_id {
            return Promotion::Active(k);
        }
        k = k + 1;
    }
    Promotion::Fallback(0)
}

} // verus!

//! Allocation helpers honoring the allocation-fallibility preference per
//! call site.
//!
//! A RAW/DNG decode mixes two allocation regimes: big, untrusted-sized
//! buffers (sized from the sensor dimensions the file claims) that should
//! fail gracefully, and small bounded scratch that takes the faster
//! infallible path. [`AllocPref`] is a 3-mode, per-site override of that
//! default: `Fallible` / `Infallible` force one path everywhere;
//! `CodecDefault` keeps each site's own default.
use vstd::prelude::*;

use crate::error::{RawError, RawLimitKind};

verus! {

/// Caller preference for allocation fallibility, resolved per call site.
#[derive(Clone, Copy, Debug, PartialEq, Eq, Structural)]
pub enum AllocPref {
    /// Each site keeps its own default (big untrusted buffers fallible, small
    /// bounded scratch infallible). Default — preserves existing behaviour.
    CodecDefault,
    /// Force the fallible (`try_reserve`) path everywhere — graceful OOM error.
    Fallible,
    /// Force the infallible (`vec!` / `with_capacity`) path everywhere — faster,
    /// aborts on OOM.
    Infallible,
}

impl Default for AllocPref {
    fn default() -> (r: Self)
        ensures
            r == AllocPref::CodecDefault,
    {
        AllocPref::CodecDefault
    }
}

/// Whether a site whose own default is `site_default_fallible` allocates
/// fallibly under preference `pref`.
pub open spec fn spec_resolve_fallible(pref: AllocPref, site_default_fallible: bool) -> bool {
    match pref {
        AllocPref::Fallible => true,
        AllocPref::Infallible => false,
        AllocPref::CodecDefault => site_default_fallible,
    }
}

/// Resolve the 3-mode [`AllocPref`] against THIS site's default fallibility.
///
/// * `Fallible` → always `true`.
/// * `Infallible` → always `false`.
/// * `CodecDefault` → the site default, unchanged.
pub fn resolve_fallible(pref: AllocPref, site_default_fallible: bool) -> (r: bool)
    ensures
        r == spec_resolve_fallible(pref, site_default_fallible),
{
    match pref {
        AllocPref::Fallible => true,
        AllocPref::Infallible => false,
        AllocPref::CodecDefault => site_default_fallible,
    }
}

/// Try to reserve capacity for exactly `n` more elements (via
/// `Vec::try_reserve_exact`).
///
/// Whether the allocator grants the request depends on the machine; what
/// holds either way is that the contents are unchanged.
#[verifier::external_body]
fn try_reserve_exact<T>(v: &mut Vec<T>, n: usize) -> (ok: bool)
    ensures
        final(v)@ == old(v)@,
{
    v.try_reserve_exact(n).is_ok()
}

/// The error for a failed allocation of `n` elements.
fn out_of_memory(n: usize) -> (r: RawError)
    ensures
        r matches RawError::LimitExceeded(RawLimitKind::Memory, _),
{
    let msg = String::from_str("out of memory allocating ").concat(n.to_string().as_str()).concat(
        " elements",
    );
    RawError::LimitExceeded(RawLimitKind::Memory, msg)
}

/// Allocate `n` elements all equal to `fill`, honoring the per-site
/// fallibility.
///
/// * fallible → reserve exactly `n` elements first, returning
///   [`RawError::LimitExceeded`] (memory) when the allocator refuses.
/// * infallible → `vec![fill; n]` (aborts on OOM).
pub fn alloc_filled<T: Clone>(
    pref: AllocPref,
    site_default_fallible: bool,
    fill: T,
    n: usize,
) -> (r: Result<Vec<T>, RawError>)
    ensures
        !spec_resolve_fallible(pref, site_default_fallible) ==> r is Ok,
        r matches Ok(v) ==> v@.len() == n && forall|i: int|
            0 <= i < n ==> vstd::pervasive::cloned::<T>(fill, #[trigger] v@[i]),
        r matches Err(e) ==> e matches RawError::LimitExceeded(RawLimitKind::Memory, _),
{
    if resolve_fallible(pref, site_default_fallible) {
        let mut v: Vec<T> = Vec::new();
        if !try_reserve_exact(&mut v, n) {
            return Err(out_of_memory(n));
        }
        v.resize(n, fill);
        Ok(v)
    } else {
        Ok(vec![fill; n])
    }
}

/// Allocate an empty `Vec<T>` with reserved capacity for `cap` elements,
/// honoring the per-site fallibility.
///
/// * fallible → reserve exactly `cap`, returning
///   [`RawError::LimitExceeded`] (memory) when the allocator refuses.
/// * infallible → `Vec::with_capacity(cap)` (aborts on OOM).
///
/// The returned `Vec` is empty (length 0); the caller fills it.
pub fn vec_with_capacity<T>(pref: AllocPref, site_default_fallible: bool, cap: usize) -> (r: Result<
    Vec<T>,
    RawError,
>)
    ensures
        !spec_resolve_fallible(pref, site_default_fallible) ==> r is Ok,
        r matches Ok(v) ==> v@.len() == 0,
        r matches Err(e) ==> e matches RawError::LimitExceeded(RawLimitKind::Memory, _),
{
    if resolve_fallible(pref, site_default_fallible) {
        let mut v: Vec<T> = Vec::new();
        if !try_reserve_exact(&mut v, cap) {
            return Err(out_of_memory(cap));
        }
        Ok(v)
    } else {
        Ok(Vec::with_capacity(cap))
    }
}

} // verus!

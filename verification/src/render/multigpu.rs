//! Which GPU the buffer of a surface comes from.

use std::collections::HashMap;
use vstd::prelude::*;

verus! {

broadcast use vstd::std_specs::hash::group_hash_axioms;

/// What a commit says of the buffer of a surface.
#[derive(Debug, Clone, Copy, PartialEq, Eq, Structural)]
pub enum CommittedBuffer {
    /// A new buffer, with the GPU that it was allocated on, where that can be told.
    New { node: Option<u64> },
    /// No new buffer.
    Unchanged,
}

/// The GPU that is known for each surface, after a commit. Only a new buffer of a known
/// GPU tells anything.
pub open spec fn origins_after(
    origins: Map<u64, u64>,
    surface: u64,
    buffer: CommittedBuffer,
) -> Map<u64, u64> {
    match buffer {
        CommittedBuffer::New { node } => match node {
            Some(n) => origins.insert(surface, n),
            None => origins,
        },
        CommittedBuffer::Unchanged => origins,
    }
}

/// Keeps track of the GPU that a surface's buffer comes from.
pub fn track_surface_origin(
    surface_gpu_origin: &mut HashMap<u64, u64>,
    surface: u64,
    buffer: CommittedBuffer,
)
    ensures
        final(surface_gpu_origin)@ == origins_after(old(surface_gpu_origin)@, surface, buffer),
{
    match buffer {
        CommittedBuffer::New { node } => match node {
            Some(n) => {
                surface_gpu_origin.insert(surface, n);
            },
            None => {},
        },
        CommittedBuffer::Unchanged => {},
    }
}

/// A commit without a new buffer leaves what is known alone, and no commit touches what
/// is known of another surface.
pub proof fn origins_change_only_with_buffers(
    origins: Map<u64, u64>,
    surface: u64,
    buffer: CommittedBuffer,
    other: u64,
)
    requires
        other != surface || buffer == CommittedBuffer::Unchanged,
    ensures
        origins_after(origins, surface, buffer).contains_key(other) == origins.contains_key(other),
        origins.contains_key(other) ==> origins_after(origins, surface, buffer)[other]
            == origins[other],
{
}

/// A new buffer of a known GPU makes that the GPU of its surface. One of an unknown GPU
/// leaves the surface with what was known.
pub proof fn new_buffers_tell_their_gpu(origins: Map<u64, u64>, surface: u64, node: u64)
    ensures
        origins_after(
            origins,
            surface,
            CommittedBuffer::New { node: Some(node) },
        ).contains_key(surface),
        origins_after(origins, surface, CommittedBuffer::New { node: Some(node) })[surface] == node,
        origins_after(origins, surface, CommittedBuffer::New { node: None }) == origins,
        origins_after(origins, surface, CommittedBuffer::Unchanged) == origins,
{
}

} // verus!

//! What one use of a row's blob comes to as a whole.

use vstd::prelude::*;

use crate::blob::access::{
    access_leads, is_access_run, law_access_goes_by_authority, AccessReply, AccessStep, BlobAccess, BlobUse, KeepCopy,
    KeepReply, KeepStep, Served,
};
use crate::blob::cache::{BlobCacheError, BlobStreamSource};
use crate::blob::make_local::PublishReply;
use crate::digest::{sha256, ObjectHash};
use crate::outbox::ExternalBlob;
use crate::store_dir::{cache_path_text, local_path_text, pinned_path_text};

verus! {

/// A measurement that is exactly what the row declares.
pub open spec fn is_exact(at: BlobAccess, size: u64, hash: ObjectHash) -> bool {
    size == at.row.plaintext_size && hash == at.row.plaintext_hash
}

/// What it means that an operation succeeded.
pub open spec fn is_good(at: BlobAccess, reply: AccessReply) -> bool {
    match (at.step, reply) {
        (AccessStep::ServeExternal { file }, AccessReply::Facts(Ok((size, hash)))) => is_exact(
            at,
            size,
            hash,
        ) && size == file.size,
        (AccessStep::ServeFile { .. }, AccessReply::Facts(Ok((size, hash)))) => is_exact(
            at,
            size,
            hash,
        ),
        (AccessStep::CheckPinned { .. }, AccessReply::Facts(Ok((size, hash)))) => is_exact(
            at,
            size,
            hash,
        ),
        (AccessStep::CheckCached { .. }, AccessReply::Facts(Ok((size, hash)))) => is_exact(
            at,
            size,
            hash,
        ),
        (AccessStep::MeasureStaged { .. }, AccessReply::Facts(Ok((size, hash)))) => is_exact(
            at,
            size,
            hash,
        ),
        (AccessStep::MeasureOccupied { .. }, AccessReply::Facts(Ok((size, hash)))) => is_exact(
            at,
            size,
            hash,
        ),
        (AccessStep::CopyForMove { .. }, AccessReply::Copied(Ok((_, size, hash)))) => is_exact(
            at,
            size,
            hash,
        ),
        (AccessStep::ReadStaged { .. }, AccessReply::Disk(done)) => done is Ok,
        (AccessStep::RemoveSource { .. }, AccessReply::Disk(done)) => done is Ok,
        (AccessStep::SyncSource { .. }, AccessReply::Disk(done)) => done is Ok,
        (AccessStep::DropPinned { .. }, AccessReply::Disk(done)) => done is Ok,
        (AccessStep::DropCached { .. }, AccessReply::Disk(done)) => done is Ok,
        (AccessStep::Publish { .. }, AccessReply::Published(done)) => done is Published,
        (AccessStep::Evict { .. }, AccessReply::Evicted(done)) => done is Ok,
        (AccessStep::ValidateAtEnd { .. }, AccessReply::Row(done)) => done is Ok,
        _ => false,
    }
}

/// Whether this operation succeeded in the first `n` operations of a run.
#[verifier::opaque]
pub open spec fn did(
    states: Seq<BlobAccess>,
    replies: Seq<AccessReply>,
    n: int,
    step: AccessStep,
) -> bool {
    exists|i: int|
        0 <= i < n && (#[trigger] states[i]).step == step && is_good(states[i], replies[i])
}

/// Whether this operation was answered in this way in the first `n` operations of a run.
#[verifier::opaque]
pub open spec fn told(
    states: Seq<BlobAccess>,
    replies: Seq<AccessReply>,
    n: int,
    step: AccessStep,
    reply: AccessReply,
) -> bool {
    exists|i: int| 0 <= i < n && (#[trigger] states[i]).step == step && replies[i] == reply
}

/// Where the kept copy of the row's stored object is.
pub open spec fn is_kept_place(at: BlobAccess, path: String) -> bool {
    at.row.stored matches Some(stored) && path@ == pinned_path_text(
        at.store_dir@,
        stored@.locator.namespace(),
        sha256(stored@.locator.canonical()),
    )
}

/// Where the evictable copy of the row's stored object is.
pub open spec fn is_cache_place(at: BlobAccess, path: String) -> bool {
    at.row.stored matches Some(stored) && path@ == cache_path_text(
        at.store_dir@,
        stored@.locator.namespace(),
        sha256(stored@.locator.canonical()),
    )
}

/// Where this use puts plaintext that it fetches: to pin it, the kept place; to stage it,
/// beside the file that the caller chose; else the evictable place.
pub open spec fn is_wanted_at(at: BlobAccess, path: String) -> bool {
    match at.purpose {
        BlobUse::Pin => is_kept_place(at, path),
        BlobUse::Stage => at.target matches Some(target) ==> path == target,
        _ => is_cache_place(at, path),
    }
}

/// The plaintext of a remote row was found at this place: the kept one, or, only where that
/// was found to be empty, the evictable one.
pub open spec fn is_first_copy(
    states: Seq<BlobAccess>,
    replies: Seq<AccessReply>,
    n: int,
    path: String,
) -> bool {
    ||| is_kept_place(states[0], path) && exists|cache: String| #[trigger]
        told(
            states,
            replies,
            n,
            AccessStep::ProbePinned { pinned: path, cache },
            AccessReply::Exists(Ok(true)),
        )
    ||| is_cache_place(states[0], path) && exists|pinned: String| #[trigger]
        told(
            states,
            replies,
            n,
            AccessStep::ProbePinned { pinned, cache: path },
            AccessReply::Exists(Ok(false)),
        ) && told(
            states,
            replies,
            n,
            AccessStep::ProbeCache { pinned, cache: path },
            AccessReply::Exists(Ok(true)),
        )
}

/// The file that holds a row's plaintext on this device, by where the row's bytes are.
pub open spec fn is_source_file(
    states: Seq<BlobAccess>,
    replies: Seq<AccessReply>,
    n: int,
    path: String,
) -> bool {
    let row = states[0].row;
    if row.authority is Remote {
        is_first_copy(states, replies, n, path)
    } else {
        &&& row.blob.provenance is HostProvided
        &&& path@ == local_path_text(states[0].store_dir@, row.blob.namespace@, row.blob.id@)
        &&& told(
            states,
            replies,
            n,
            AccessStep::ProbeLocal { path },
            AccessReply::Exists(Ok(true)),
        )
    }
}

/// The user's own file, as it is registered for a row whose bytes are on this device.
pub open spec fn is_users_file(
    states: Seq<BlobAccess>,
    replies: Seq<AccessReply>,
    n: int,
    file: ExternalBlob,
) -> bool {
    &&& !(states[0].row.authority is Remote)
    &&& states[0].row.blob.provenance is UserProvided
    &&& told(
        states,
        replies,
        n,
        AccessStep::LookUpExternal,
        AccessReply::External(Ok(Some(file))),
    )
}

/// Plaintext of the row is staged beside a destination: an exact copy of a cached copy, or a
/// verified download.
pub open spec fn is_staged(
    states: Seq<BlobAccess>,
    replies: Seq<AccessReply>,
    n: int,
    dest: String,
    staged: String,
) -> bool {
    let at = states[0];
    ||| told(
        states,
        replies,
        n,
        AccessStep::Download { dest },
        AccessReply::Downloaded(Ok(staged)),
    ) && at.connected
    ||| exists|from: String|
        (is_kept_place(at, from) || is_cache_place(at, from)) && #[trigger] told(
            states,
            replies,
            n,
            AccessStep::CopyForStage { from, dest },
            AccessReply::Copied(Ok((staged, at.row.plaintext_size, at.row.plaintext_hash))),
        )
}

/// What is about to get its name: fetched plaintext that was read, measured or opened, or an
/// exact copy of the file that moves between the cache folders.
pub open spec fn is_ready(
    states: Seq<BlobAccess>,
    replies: Seq<AccessReply>,
    n: int,
    dest: String,
    moved: Option<String>,
    served: Served,
) -> bool {
    let at = states[0];
    match moved {
        Some(from) => {
            &&& served == Served::Placed
            &&& at.purpose == BlobUse::Pin ==> is_cache_place(at, from) && is_kept_place(at, dest)
            &&& at.purpose == BlobUse::Unpin ==> is_kept_place(at, from) && is_cache_place(at, dest)
            &&& at.purpose == BlobUse::Pin || at.purpose == BlobUse::Unpin
            &&& did(states, replies, n, AccessStep::CopyForMove { from, dest })
        },
        None => {
            &&& at.purpose != BlobUse::Unpin
            &&& is_wanted_at(at, dest)
            &&& exists|staged: String| #[trigger]
                is_staged(states, replies, n, dest, staged) && (match at.purpose {
                    BlobUse::Read => served == Served::Contents && did(
                        states,
                        replies,
                        n,
                        AccessStep::ReadStaged { dest, staged },
                    ),
                    BlobUse::Open => did(
                        states,
                        replies,
                        n,
                        AccessStep::MeasureStaged { dest, staged },
                    ) && (served matches Served::Stream { source, size } && source
                        == BlobStreamSource::Local && told(
                        states,
                        replies,
                        n,
                        AccessStep::OpenStaged { dest, staged },
                        AccessReply::Opened(Ok(size)),
                    )),
                    _ => served == Served::Placed && did(
                        states,
                        replies,
                        n,
                        AccessStep::MeasureStaged { dest, staged },
                    ),
                })
        },
    }
}

/// The file has its name: it was published, or the file that was in the way was measured and
/// is exactly the row's plaintext.
pub open spec fn is_in_place(
    states: Seq<BlobAccess>,
    replies: Seq<AccessReply>,
    n: int,
    dest: String,
    moved: Option<String>,
    served: Served,
) -> bool {
    &&& is_ready(states, replies, n, dest, moved, served)
    &&& did(states, replies, n, AccessStep::Publish { dest, moved, served }) || exists|path: String|
        #[trigger]
        did(states, replies, n, AccessStep::MeasureOccupied { path, dest, moved, served })
}

/// What was served from a file of this device, which was measured to be exactly the row's
/// plaintext, or opened.
pub open spec fn is_served_from_device(
    states: Seq<BlobAccess>,
    replies: Seq<AccessReply>,
    n: int,
    served: Served,
) -> bool {
    let at = states[0];
    match at.purpose {
        BlobUse::Open => served matches Served::Stream { source, size } && source
            == BlobStreamSource::Local && ({
            ||| exists|file: ExternalBlob| #[trigger]
                is_users_file(states, replies, n, file) && size == file.size && size
                    == at.row.plaintext_size && told(
                    states,
                    replies,
                    n,
                    AccessStep::ServeExternal { file },
                    AccessReply::Opened(Ok(size)),
                )
            ||| exists|path: String| #[trigger]
                is_source_file(states, replies, n, path) && told(
                    states,
                    replies,
                    n,
                    AccessStep::ServeFile { path },
                    AccessReply::Opened(Ok(size)),
                )
        }),
        _ => served == (if at.purpose == BlobUse::Read {
            Served::Contents
        } else {
            Served::Placed
        }) && ({
            ||| exists|file: ExternalBlob| #[trigger]
                is_users_file(states, replies, n, file) && did(
                    states,
                    replies,
                    n,
                    AccessStep::ServeExternal { file },
                )
            ||| exists|path: String| #[trigger]
                is_source_file(states, replies, n, path) && did(
                    states,
                    replies,
                    n,
                    AccessStep::ServeFile { path },
                )
        }),
    }
}

/// What was fetched into the evictable place to be served, with the namespace evicted to its
/// budget and this file spared.
pub open spec fn is_served_from_cloud(
    states: Seq<BlobAccess>,
    replies: Seq<AccessReply>,
    n: int,
    served: Served,
) -> bool {
    exists|dest: String|
        #![trigger is_in_place(states, replies, n, dest, None, served)]
        is_in_place(states, replies, n, dest, None, served) && did(
            states,
            replies,
            n,
            AccessStep::Evict { protect: dest, served },
        )
}

/// Ranges of the sealed cloud object are served, which fills no cache.
pub open spec fn is_ranged(
    states: Seq<BlobAccess>,
    replies: Seq<AccessReply>,
    n: int,
    served: Served,
) -> bool {
    &&& states[0].purpose == BlobUse::Open && states[0].connected
    &&& states[0].row.stored matches Some(stored) && stored@.locator is Opaque
    &&& served matches Served::Stream { source, size } && source == BlobStreamSource::Remote && told(
        states,
        replies,
        n,
        AccessStep::OpenRange,
        AccessReply::RangeReader(Ok(size)),
    )
}

/// What a use that is done has come to, by what the blob was wanted for.
pub open spec fn came_to(
    states: Seq<BlobAccess>,
    replies: Seq<AccessReply>,
    n: int,
    served: Served,
) -> bool {
    let at = states[0];
    match at.purpose {
        BlobUse::Read | BlobUse::Open => {
            &&& did(states, replies, n, AccessStep::ValidateAtEnd { served })
            &&& is_served_from_device(states, replies, n, served) || is_served_from_cloud(
                states,
                replies,
                n,
                served,
            ) || is_ranged(states, replies, n, served)
        },
        BlobUse::Materialize => {
            ||| did(states, replies, n, AccessStep::ValidateAtEnd { served })
                && is_served_from_device(states, replies, n, served)
            ||| exists|dest: String| #[trigger]
                is_in_place(states, replies, n, dest, None, served) && served == Served::Placed
        },
        BlobUse::Pin => {
            &&& served == Served::Placed
            &&& is_kept(states, replies, n)
        },
        BlobUse::IsPinned => {
            ||| served == Served::Placed && exists|pinned: String|
                is_kept_place(at, pinned) && #[trigger] did(
                    states,
                    replies,
                    n,
                    AccessStep::CheckPinned { pinned },
                )
            ||| served == Served::Absent && is_not_kept(states, replies, n)
        },
        BlobUse::Unpin => {
            ||| served == Served::Placed && exists|from: String, dest: String| #[trigger]
                is_moved(states, replies, n, from, dest)
            ||| served == Served::Absent && is_not_kept(states, replies, n)
        },
        BlobUse::Drop => served == Served::Dropped && exists|pinned: String, cache: String|
            is_kept_place(at, pinned) && is_cache_place(at, cache) && #[trigger] did(
                states,
                replies,
                n,
                AccessStep::DropPinned { pinned, cache },
            ) && did(states, replies, n, AccessStep::DropCached { cache }),
        BlobUse::Stage => served == Served::Staged && exists|dest: String, staged: String|
            is_wanted_at(at, dest) && #[trigger] is_staged(states, replies, n, dest, staged),
    }
}

/// The kept place was found to be empty.
pub open spec fn is_not_kept(
    states: Seq<BlobAccess>,
    replies: Seq<AccessReply>,
    n: int,
) -> bool {
    exists|pinned: String, cache: String|
        is_kept_place(states[0], pinned) && #[trigger] told(
            states,
            replies,
            n,
            AccessStep::ProbePinned { pinned, cache },
            AccessReply::Exists(Ok(false)),
        )
}

/// A file moved between the cache folders: its exact copy is in place, and then the source
/// was removed and that made durable.
pub open spec fn is_moved(
    states: Seq<BlobAccess>,
    replies: Seq<AccessReply>,
    n: int,
    from: String,
    dest: String,
) -> bool {
    &&& is_in_place(states, replies, n, dest, Some(from), Served::Placed)
    &&& did(states, replies, n, AccessStep::RemoveSource { from, served: Served::Placed })
    &&& did(states, replies, n, AccessStep::SyncSource { from, served: Served::Placed })
}

/// A kept copy is there: it was measured, the evictable one was moved, or plaintext was
/// fetched into its place.
pub open spec fn is_kept(states: Seq<BlobAccess>, replies: Seq<AccessReply>, n: int) -> bool {
    ||| exists|pinned: String|
        is_kept_place(states[0], pinned) && #[trigger] did(
            states,
            replies,
            n,
            AccessStep::CheckPinned { pinned },
        )
    ||| exists|from: String, dest: String| #[trigger] is_moved(states, replies, n, from, dest)
    ||| exists|dest: String| #[trigger]
        is_in_place(states, replies, n, dest, None, Served::Placed)
}

/// What an access has behind it at each step.
spec fn has_behind_it(states: Seq<BlobAccess>, replies: Seq<AccessReply>, n: int) -> bool {
    let at = states[0];
    match states[n].step {
        AccessStep::ServeExternal { file } => is_users_file(states, replies, n, file),
        AccessStep::ProbeLocal { path } => path@ == local_path_text(
            at.store_dir@,
            at.row.blob.namespace@,
            at.row.blob.id@,
        ) && at.row.blob.provenance is HostProvided && !(at.row.authority is Remote),
        AccessStep::ProbePinned { pinned, cache } => is_kept_place(at, pinned) && is_cache_place(
            at,
            cache,
        ),
        AccessStep::ReprobePinned { pinned, cache } => is_kept_place(at, pinned) && is_cache_place(
            at,
            cache,
        ),
        AccessStep::ProbeCache { pinned, cache } => is_kept_place(at, pinned) && is_cache_place(
            at,
            cache,
        ) && (at.purpose != BlobUse::Pin ==> told(
            states,
            replies,
            n,
            AccessStep::ProbePinned { pinned, cache },
            AccessReply::Exists(Ok(false)),
        )),
        AccessStep::ServeFile { path } => is_source_file(states, replies, n, path),
        AccessStep::CheckPinned { pinned } => is_kept_place(at, pinned),
        AccessStep::CheckCached { pinned, cache } => is_kept_place(at, pinned) && is_cache_place(
            at,
            cache,
        ),
        AccessStep::Download { dest } => is_wanted_at(at, dest) && at.connected,
        AccessStep::ValidateForStage { dest, pinned, cache } => is_wanted_at(at, dest)
            && is_kept_place(at, pinned) && is_cache_place(at, cache),
        AccessStep::ProbePinnedForStage { dest, pinned, cache } => is_wanted_at(at, dest)
            && is_kept_place(at, pinned) && is_cache_place(at, cache),
        AccessStep::ProbeCacheForStage { dest, cache } => is_wanted_at(at, dest) && is_cache_place(
            at,
            cache,
        ),
        AccessStep::CopyForStage { from, dest } => is_wanted_at(at, dest) && (is_kept_place(at, from)
            || is_cache_place(at, from)),
        AccessStep::ValidateStaged { dest, staged } => is_wanted_at(at, dest) && is_staged(
            states,
            replies,
            n,
            dest,
            staged,
        ),
        AccessStep::ReadStaged { dest, staged } => is_wanted_at(at, dest) && is_staged(
            states,
            replies,
            n,
            dest,
            staged,
        ),
        AccessStep::MeasureStaged { dest, staged } => is_wanted_at(at, dest) && is_staged(
            states,
            replies,
            n,
            dest,
            staged,
        ),
        AccessStep::OpenStaged { dest, staged } => is_wanted_at(at, dest) && is_staged(
            states,
            replies,
            n,
            dest,
            staged,
        ) && did(states, replies, n, AccessStep::MeasureStaged { dest, staged }),
        AccessStep::CopyForMove { from, dest } => if at.purpose == BlobUse::Pin {
            is_cache_place(at, from) && is_kept_place(at, dest)
        } else {
            is_kept_place(at, from) && is_cache_place(at, dest)
        },
        AccessStep::ValidateForPublish { dest, moved, served } => is_ready(
            states,
            replies,
            n,
            dest,
            moved,
            served,
        ),
        AccessStep::Publish { dest, moved, served } => is_ready(
            states,
            replies,
            n,
            dest,
            moved,
            served,
        ),
        AccessStep::MeasureOccupied { dest, moved, served, .. } => is_ready(
            states,
            replies,
            n,
            dest,
            moved,
            served,
        ),
        AccessStep::RemoveSource { from, served } => served == Served::Placed && exists|dest: String|
            #[trigger]
            is_in_place(states, replies, n, dest, Some(from), served),
        AccessStep::SyncSource { from, served } => served == Served::Placed && (exists|dest: String|
            #[trigger]
            is_in_place(states, replies, n, dest, Some(from), served)) && did(
            states,
            replies,
            n,
            AccessStep::RemoveSource { from, served },
        ),
        AccessStep::Evict { protect, served } => is_in_place(
            states,
            replies,
            n,
            protect,
            None,
            served,
        ),
        AccessStep::ValidateAtEnd { served } => is_served_from_device(states, replies, n, served) || (
        at.purpose != BlobUse::Materialize && (is_served_from_cloud(states, replies, n, served)
            || is_ranged(states, replies, n, served))),
        AccessStep::DropPinned { pinned, cache } => is_kept_place(at, pinned) && is_cache_place(
            at,
            cache,
        ),
        AccessStep::DropCached { cache } => is_cache_place(at, cache) && exists|pinned: String|
            is_kept_place(at, pinned) && #[trigger] did(
                states,
                replies,
                n,
                AccessStep::DropPinned { pinned, cache },
            ),
        AccessStep::Done { served } => came_to(states, replies, n, served),
        _ => true,
    }
}

/// What was performed and told stays so.
proof fn lemma_stays(states: Seq<BlobAccess>, replies: Seq<AccessReply>, n: int)
    requires
        0 <= n,
    ensures
        forall|step: AccessStep|
            did(states, replies, n, step) ==> #[trigger] did(states, replies, n + 1, step),
        forall|step: AccessStep, reply: AccessReply|
            told(states, replies, n, step, reply) ==> #[trigger] told(
                states,
                replies,
                n + 1,
                step,
                reply,
            ),
        is_good(states[n], replies[n]) ==> did(states, replies, n + 1, states[n].step),
        told(states, replies, n + 1, states[n].step, replies[n]),
{
    reveal(did);
    reveal(told);
    assert forall|step: AccessStep| did(states, replies, n, step) implies #[trigger] did(
        states,
        replies,
        n + 1,
        step,
    ) by {
        let i = choose|i: int|
            0 <= i < n && (#[trigger] states[i]).step == step && is_good(states[i], replies[i]);
        assert(states[i].step == step);
    }
    assert forall|step: AccessStep, reply: AccessReply|
        told(states, replies, n, step, reply) implies #[trigger] told(
        states,
        replies,
        n + 1,
        step,
        reply,
    ) by {
        let i = choose|i: int| 0 <= i < n && (#[trigger] states[i]).step == step && replies[i] == reply;
        assert(states[i].step == step);
    }
    assert(states[n].step == states[n].step);
}

proof fn lemma_source_stays(
    states: Seq<BlobAccess>,
    replies: Seq<AccessReply>,
    n: int,
    path: String,
)
    requires
        0 <= n,
        is_source_file(states, replies, n, path),
    ensures
        is_source_file(states, replies, n + 1, path),
{
    lemma_stays(states, replies, n);
    if states[0].row.authority is Remote {
        if is_kept_place(states[0], path) && exists|cache: String| #[trigger]
            told(
                states,
                replies,
                n,
                AccessStep::ProbePinned { pinned: path, cache },
                AccessReply::Exists(Ok(true)),
            ) {
            let cache = choose|cache: String| #[trigger]
                told(
                    states,
                    replies,
                    n,
                    AccessStep::ProbePinned { pinned: path, cache },
                    AccessReply::Exists(Ok(true)),
                );
            assert(told(
                states,
                replies,
                n + 1,
                AccessStep::ProbePinned { pinned: path, cache },
                AccessReply::Exists(Ok(true)),
            ));
        } else {
            let pinned = choose|pinned: String| #[trigger]
                told(
                    states,
                    replies,
                    n,
                    AccessStep::ProbePinned { pinned, cache: path },
                    AccessReply::Exists(Ok(false)),
                ) && told(
                    states,
                    replies,
                    n,
                    AccessStep::ProbeCache { pinned, cache: path },
                    AccessReply::Exists(Ok(true)),
                );
            assert(told(
                states,
                replies,
                n + 1,
                AccessStep::ProbePinned { pinned, cache: path },
                AccessReply::Exists(Ok(false)),
            ));
        }
    }
}

proof fn lemma_staged_stays(
    states: Seq<BlobAccess>,
    replies: Seq<AccessReply>,
    n: int,
    dest: String,
    staged: String,
)
    requires
        0 <= n,
        is_staged(states, replies, n, dest, staged),
    ensures
        is_staged(states, replies, n + 1, dest, staged),
{
    lemma_stays(states, replies, n);
    let at = states[0];
    let copied = AccessReply::Copied(Ok((staged, at.row.plaintext_size, at.row.plaintext_hash)));
    if exists|from: String|
        (is_kept_place(at, from) || is_cache_place(at, from)) && #[trigger] told(
            states,
            replies,
            n,
            AccessStep::CopyForStage { from, dest },
            copied,
        ) {
        let from = choose|from: String|
            (is_kept_place(at, from) || is_cache_place(at, from)) && #[trigger] told(
                states,
                replies,
                n,
                AccessStep::CopyForStage { from, dest },
                copied,
            );
        assert(told(states, replies, n + 1, AccessStep::CopyForStage { from, dest }, copied));
    }
}

/// What was done with the staged file, for this use.
spec fn is_handled(
    states: Seq<BlobAccess>,
    replies: Seq<AccessReply>,
    n: int,
    dest: String,
    staged: String,
    served: Served,
) -> bool {
    match states[0].purpose {
        BlobUse::Read => served == Served::Contents && did(
            states,
            replies,
            n,
            AccessStep::ReadStaged { dest, staged },
        ),
        BlobUse::Open => did(states, replies, n, AccessStep::MeasureStaged { dest, staged }) && (
        served matches Served::Stream { source, size } && source == BlobStreamSource::Local && told(
            states,
            replies,
            n,
            AccessStep::OpenStaged { dest, staged },
            AccessReply::Opened(Ok(size)),
        )),
        _ => served == Served::Placed && did(
            states,
            replies,
            n,
            AccessStep::MeasureStaged { dest, staged },
        ),
    }
}

proof fn lemma_ready_stays(
    states: Seq<BlobAccess>,
    replies: Seq<AccessReply>,
    n: int,
    dest: String,
    moved: Option<String>,
    served: Served,
)
    requires
        0 <= n,
        is_ready(states, replies, n, dest, moved, served),
    ensures
        is_ready(states, replies, n + 1, dest, moved, served),
{
    lemma_stays(states, replies, n);
    if moved is None {
        let staged = choose|staged: String| #[trigger]
            is_staged(states, replies, n, dest, staged) && is_handled(
                states,
                replies,
                n,
                dest,
                staged,
                served,
            );
        lemma_staged_stays(states, replies, n, dest, staged);
        assert(is_handled(states, replies, n + 1, dest, staged, served));
    }
}

proof fn lemma_in_place_stays(
    states: Seq<BlobAccess>,
    replies: Seq<AccessReply>,
    n: int,
    dest: String,
    moved: Option<String>,
    served: Served,
)
    requires
        0 <= n,
        is_in_place(states, replies, n, dest, moved, served),
    ensures
        is_in_place(states, replies, n + 1, dest, moved, served),
{
    lemma_stays(states, replies, n);
    lemma_ready_stays(states, replies, n, dest, moved, served);
    if exists|path: String| #[trigger]
        did(states, replies, n, AccessStep::MeasureOccupied { path, dest, moved, served }) {
        let path = choose|path: String| #[trigger]
            did(states, replies, n, AccessStep::MeasureOccupied { path, dest, moved, served });
        assert(did(states, replies, n + 1, AccessStep::MeasureOccupied { path, dest, moved, served }));
    }
}

proof fn lemma_served_stays(
    states: Seq<BlobAccess>,
    replies: Seq<AccessReply>,
    n: int,
    served: Served,
)
    requires
        0 <= n,
    ensures
        is_served_from_device(states, replies, n, served) ==> is_served_from_device(
            states,
            replies,
            n + 1,
            served,
        ),
        is_served_from_cloud(states, replies, n, served) ==> is_served_from_cloud(
            states,
            replies,
            n + 1,
            served,
        ),
        is_ranged(states, replies, n, served) ==> is_ranged(states, replies, n + 1, served),
{
    lemma_stays(states, replies, n);
    assert forall|path: String| #[trigger] is_source_file(states, replies, n, path) implies is_source_file(
        states,
        replies,
        n + 1,
        path,
    ) by {
        lemma_source_stays(states, replies, n, path);
    }
    assert forall|file: ExternalBlob| #[trigger] is_users_file(states, replies, n, file) implies is_users_file(
        states,
        replies,
        n + 1,
        file,
    ) by {}
    if is_served_from_cloud(states, replies, n, served) {
        let dest = choose|dest: String|
            #![trigger is_in_place(states, replies, n, dest, None, served)]
            is_in_place(states, replies, n, dest, None, served) && did(
                states,
                replies,
                n,
                AccessStep::Evict { protect: dest, served },
            );
        lemma_in_place_stays(states, replies, n, dest, None, served);
        assert(is_in_place(states, replies, n + 1, dest, None, served) && did(
            states,
            replies,
            n + 1,
            AccessStep::Evict { protect: dest, served },
        ));
    }
}

/// A step that stays, with a reply that does not answer it.
proof fn lemma_behind_stays(states: Seq<BlobAccess>, replies: Seq<AccessReply>, n: int)
    requires
        0 <= n,
        states[n + 1] == states[n],
        has_behind_it(states, replies, n),
        !(states[n].step is Done),
    ensures
        has_behind_it(states, replies, n + 1),
{
    lemma_stays(states, replies, n);
    match states[n].step {
        AccessStep::ServeFile { path } => lemma_source_stays(states, replies, n, path),
        AccessStep::ValidateStaged { dest, staged } => lemma_staged_stays(
            states,
            replies,
            n,
            dest,
            staged,
        ),
        AccessStep::ReadStaged { dest, staged } => lemma_staged_stays(
            states,
            replies,
            n,
            dest,
            staged,
        ),
        AccessStep::MeasureStaged { dest, staged } => lemma_staged_stays(
            states,
            replies,
            n,
            dest,
            staged,
        ),
        AccessStep::OpenStaged { dest, staged } => lemma_staged_stays(
            states,
            replies,
            n,
            dest,
            staged,
        ),
        AccessStep::ValidateForPublish { dest, moved, served } => lemma_ready_stays(
            states,
            replies,
            n,
            dest,
            moved,
            served,
        ),
        AccessStep::Publish { dest, moved, served } => lemma_ready_stays(
            states,
            replies,
            n,
            dest,
            moved,
            served,
        ),
        AccessStep::MeasureOccupied { dest, moved, served, .. } => lemma_ready_stays(
            states,
            replies,
            n,
            dest,
            moved,
            served,
        ),
        AccessStep::RemoveSource { from, served } => {
            let dest = choose|dest: String| #[trigger]
                is_in_place(states, replies, n, dest, Some(from), served);
            lemma_in_place_stays(states, replies, n, dest, Some(from), served);
        },
        AccessStep::SyncSource { from, served } => {
            let dest = choose|dest: String| #[trigger]
                is_in_place(states, replies, n, dest, Some(from), served);
            lemma_in_place_stays(states, replies, n, dest, Some(from), served);
        },
        AccessStep::Evict { protect, served } => lemma_in_place_stays(
            states,
            replies,
            n,
            protect,
            None,
            served,
        ),
        AccessStep::ValidateAtEnd { served } => lemma_served_stays(states, replies, n, served),
        AccessStep::DropCached { cache } => {
            let pinned = choose|pinned: String|
                is_kept_place(states[0], pinned) && #[trigger] did(
                    states,
                    replies,
                    n,
                    AccessStep::DropPinned { pinned, cache },
                );
            assert(did(states, replies, n + 1, AccessStep::DropPinned { pinned, cache }));
        },
        _ => {},
    }
}

/// Up to what is fetched.
#[verifier::rlimit(40)]
proof fn lemma_behind_lookup(states: Seq<BlobAccess>, replies: Seq<AccessReply>, n: int)
    requires
        0 <= n,
        states[n].follows(replies[n], states[n + 1]),
        states[n].in_order(),
        states[n] == states[0].at(states[n].step),
        has_behind_it(states, replies, n),
        states[n + 1] != states[n],
        match states[n].step {
            AccessStep::Validate => true,
            AccessStep::LookUpExternal => true,
            AccessStep::ServeExternal { .. } => true,
            AccessStep::ProbeLocal { .. } => true,
            AccessStep::ProbePinned { .. } => true,
            AccessStep::ReprobePinned { .. } => true,
            AccessStep::ProbeCache { .. } => true,
            AccessStep::ServeFile { .. } => true,
            AccessStep::CheckPinned { .. } => true,
            AccessStep::CheckCached { .. } => true,
            AccessStep::OpenRange => true,
            AccessStep::DropPinned { .. } => true,
            AccessStep::DropCached { .. } => true,
            _ => false,
        },
    ensures
        has_behind_it(states, replies, n + 1),
{
    lemma_stays(states, replies, n);
    let (before, reply, after) = (states[n], replies[n], states[n + 1]);
    match (before.step, reply) {
        (AccessStep::ServeExternal { file }, AccessReply::Facts(_)) => {
            if after.step is ValidateAtEnd {
                assert(is_users_file(states, replies, n + 1, file));
                assert(did(states, replies, n + 1, AccessStep::ServeExternal { file }));
            }
        },
        (AccessStep::ServeExternal { file }, AccessReply::Opened(Ok(size))) => {
            if after.step is ValidateAtEnd {
                assert(is_users_file(states, replies, n + 1, file));
                assert(told(
                    states,
                    replies,
                    n + 1,
                    AccessStep::ServeExternal { file },
                    AccessReply::Opened(Ok(size)),
                ));
            }
        },
        (AccessStep::ProbePinned { pinned, cache }, AccessReply::Exists(Ok(found))) => {
            assert(told(
                states,
                replies,
                n + 1,
                AccessStep::ProbePinned { pinned, cache },
                AccessReply::Exists(Ok(found)),
            ));
        },
        (AccessStep::ProbeCache { pinned, cache }, AccessReply::Exists(Ok(found))) => {
            assert(told(
                states,
                replies,
                n + 1,
                AccessStep::ProbeCache { pinned, cache },
                AccessReply::Exists(Ok(found)),
            ));
            if after.step is ServeFile {
                assert(told(
                    states,
                    replies,
                    n + 1,
                    AccessStep::ProbePinned { pinned, cache },
                    AccessReply::Exists(Ok(false)),
                ));
            }
        },
        (AccessStep::ServeFile { path }, AccessReply::Facts(_)) => {
            lemma_source_stays(states, replies, n, path);
            if after.step is ValidateAtEnd {
                assert(did(states, replies, n + 1, AccessStep::ServeFile { path }));
            }
        },
        (AccessStep::ServeFile { path }, AccessReply::Opened(Ok(size))) => {
            lemma_source_stays(states, replies, n, path);
            if after.step is ValidateAtEnd {
                assert(told(
                    states,
                    replies,
                    n + 1,
                    AccessStep::ServeFile { path },
                    AccessReply::Opened(Ok(size)),
                ));
            }
        },
        (AccessStep::CheckPinned { pinned }, AccessReply::Facts(_)) => {
            if after.step is Done {
                assert(did(states, replies, n + 1, AccessStep::CheckPinned { pinned }));
            }
        },
        (AccessStep::DropPinned { pinned, cache }, AccessReply::Disk(Ok(_))) => {
            assert(did(states, replies, n + 1, AccessStep::DropPinned { pinned, cache }));
        },
        (AccessStep::DropCached { cache }, AccessReply::Disk(Ok(_))) => {
            let pinned = choose|pinned: String|
                is_kept_place(states[0], pinned) && #[trigger] did(
                    states,
                    replies,
                    n,
                    AccessStep::DropPinned { pinned, cache },
                );
            assert(did(states, replies, n + 1, AccessStep::DropPinned { pinned, cache }));
            assert(did(states, replies, n + 1, AccessStep::DropCached { cache }));
        },
        _ => {},
    }
}

/// Fetching.
#[verifier::rlimit(40)]
proof fn lemma_behind_fetch(states: Seq<BlobAccess>, replies: Seq<AccessReply>, n: int)
    requires
        0 <= n,
        states[n].follows(replies[n], states[n + 1]),
        states[n].in_order(),
        states[n] == states[0].at(states[n].step),
        has_behind_it(states, replies, n),
        states[n + 1] != states[n],
        match states[n].step {
            AccessStep::Download { .. } => true,
            AccessStep::ValidateForStage { .. } => true,
            AccessStep::ProbePinnedForStage { .. } => true,
            AccessStep::ProbeCacheForStage { .. } => true,
            AccessStep::CopyForStage { .. } => true,
            AccessStep::ValidateStaged { .. } => true,
            AccessStep::ReadStaged { .. } => true,
            AccessStep::MeasureStaged { .. } => true,
            AccessStep::OpenStaged { .. } => true,
            AccessStep::CopyForMove { .. } => true,
            _ => false,
        },
    ensures
        has_behind_it(states, replies, n + 1),
{
    lemma_stays(states, replies, n);
    let (before, reply, after) = (states[n], replies[n], states[n + 1]);
    match (before.step, reply) {
        (AccessStep::Download { dest }, AccessReply::Downloaded(Ok(staged))) => {
            assert(told(
                states,
                replies,
                n + 1,
                AccessStep::Download { dest },
                AccessReply::Downloaded(Ok(staged)),
            ));
            assert(is_staged(states, replies, n + 1, dest, staged));
        },
        (AccessStep::CopyForStage { from, dest }, AccessReply::Copied(Ok((staged, size, hash)))) => {
            if after.step is ValidateStaged {
                assert(told(
                    states,
                    replies,
                    n + 1,
                    AccessStep::CopyForStage { from, dest },
                    AccessReply::Copied(Ok((staged, size, hash))),
                ));
                assert(is_staged(states, replies, n + 1, dest, staged));
            }
        },
        (AccessStep::ValidateStaged { dest, staged }, AccessReply::Row(_)) => {
            lemma_staged_stays(states, replies, n, dest, staged);
        },
        (AccessStep::ReadStaged { dest, staged }, AccessReply::Disk(_)) => {
            lemma_staged_stays(states, replies, n, dest, staged);
            if after.step is ValidateForPublish {
                assert(did(states, replies, n + 1, AccessStep::ReadStaged { dest, staged }));
                assert(is_handled(states, replies, n + 1, dest, staged, Served::Contents));
            }
        },
        (AccessStep::MeasureStaged { dest, staged }, AccessReply::Facts(_)) => {
            lemma_staged_stays(states, replies, n, dest, staged);
            if !(after.step is Failed) {
                assert(did(states, replies, n + 1, AccessStep::MeasureStaged { dest, staged }));
            }
        },
        (AccessStep::OpenStaged { dest, staged }, AccessReply::Opened(Ok(size))) => {
            lemma_staged_stays(states, replies, n, dest, staged);
            assert(told(
                states,
                replies,
                n + 1,
                AccessStep::OpenStaged { dest, staged },
                AccessReply::Opened(Ok(size)),
            ));
        },
        (AccessStep::CopyForMove { from, dest }, AccessReply::Copied(_)) => {
            if after.step is ValidateForPublish {
                assert(did(states, replies, n + 1, AccessStep::CopyForMove { from, dest }));
            }
        },
        _ => {},
    }
}

/// Giving files their names, and handing out.
#[verifier::rlimit(40)]
proof fn lemma_behind_publish(states: Seq<BlobAccess>, replies: Seq<AccessReply>, n: int)
    requires
        0 <= n,
        states[n].follows(replies[n], states[n + 1]),
        states[n].in_order(),
        states[n] == states[0].at(states[n].step),
        has_behind_it(states, replies, n),
        states[n + 1] != states[n],
        match states[n].step {
            AccessStep::ValidateForPublish { .. } => true,
            AccessStep::Publish { .. } => true,
            AccessStep::MeasureOccupied { .. } => true,
            AccessStep::RemoveSource { .. } => true,
            AccessStep::SyncSource { .. } => true,
            AccessStep::Evict { .. } => true,
            AccessStep::ValidateAtEnd { .. } => true,
            _ => false,
        },
    ensures
        has_behind_it(states, replies, n + 1),
{
    lemma_stays(states, replies, n);
    let (before, reply, after) = (states[n], replies[n], states[n + 1]);
    match before.step {
        AccessStep::ValidateForPublish { dest, moved, served } => {
            lemma_ready_stays(states, replies, n, dest, moved, served);
            assert(has_behind_it(states, replies, n + 1));
        },
        AccessStep::Publish { dest, moved, served } => {
            lemma_ready_stays(states, replies, n, dest, moved, served);
            if reply matches AccessReply::Published(PublishReply::Published) {
                assert(did(states, replies, n + 1, AccessStep::Publish { dest, moved, served }));
                assert(is_in_place(states, replies, n + 1, dest, moved, served));
                if after.step is RemoveSource {
                    let from = after.step->RemoveSource_from;
                    assert(moved == Some(from));
                    assert(is_in_place(states, replies, n + 1, dest, Some(from), served));
                    assert(after.step->RemoveSource_served == served);
                    assert(served == Served::Placed);
                    assert(has_behind_it(states, replies, n + 1));
                }
                if after.step is Evict {
                    assert(after.step == (AccessStep::Evict { protect: dest, served }));
                    assert(is_in_place(states, replies, n + 1, dest, None, served));
                    assert(has_behind_it(states, replies, n + 1));
                }
                if after.step is Done {
                    assert(moved is None);
                    assert(states[0].purpose == BlobUse::Materialize || states[0].purpose
                        == BlobUse::Pin);
                    assert(served == Served::Placed);
                    assert(is_in_place(states, replies, n + 1, dest, None, Served::Placed));
                    assert(came_to(states, replies, n + 1, served));
                }
            }
            assert(has_behind_it(states, replies, n + 1));
        },
        AccessStep::MeasureOccupied { path, dest, moved, served } => {
            lemma_ready_stays(states, replies, n, dest, moved, served);
            if !(after.step is Failed) {
                assert(did(
                    states,
                    replies,
                    n + 1,
                    AccessStep::MeasureOccupied { path, dest, moved, served },
                ));
                assert(is_in_place(states, replies, n + 1, dest, moved, served));
                if after.step is RemoveSource {
                    let from = after.step->RemoveSource_from;
                    assert(moved == Some(from));
                    assert(is_in_place(states, replies, n + 1, dest, Some(from), served));
                    assert(after.step->RemoveSource_served == served);
                    assert(served == Served::Placed);
                    assert(has_behind_it(states, replies, n + 1));
                }
                if after.step is Evict {
                    assert(after.step == (AccessStep::Evict { protect: dest, served }));
                    assert(is_in_place(states, replies, n + 1, dest, None, served));
                    assert(has_behind_it(states, replies, n + 1));
                }
                if after.step is Done {
                    assert(moved is None);
                    assert(states[0].purpose == BlobUse::Materialize || states[0].purpose
                        == BlobUse::Pin);
                    assert(served == Served::Placed);
                    assert(is_in_place(states, replies, n + 1, dest, None, Served::Placed));
                    assert(came_to(states, replies, n + 1, served));
                }
            }
            assert(has_behind_it(states, replies, n + 1));
        },
        AccessStep::RemoveSource { from, served } => {
            let dest = choose|dest: String| #[trigger]
                is_in_place(states, replies, n, dest, Some(from), served);
            lemma_in_place_stays(states, replies, n, dest, Some(from), served);
            assert(has_behind_it(states, replies, n + 1));
        },
        AccessStep::SyncSource { from, served } => {
            let dest = choose|dest: String| #[trigger]
                is_in_place(states, replies, n, dest, Some(from), served);
            lemma_in_place_stays(states, replies, n, dest, Some(from), served);
            if after.step is Done {
                assert(did(states, replies, n + 1, AccessStep::SyncSource { from, served }));
                assert(is_moved(states, replies, n + 1, from, dest));
            }
            assert(has_behind_it(states, replies, n + 1));
        },
        AccessStep::Evict { protect, served } => {
            lemma_in_place_stays(states, replies, n, protect, None, served);
            if after.step is ValidateAtEnd {
                assert(did(states, replies, n + 1, AccessStep::Evict { protect, served }));
                assert(is_served_from_cloud(states, replies, n + 1, served));
            }
            assert(has_behind_it(states, replies, n + 1));
        },
        AccessStep::ValidateAtEnd { served } => {
            lemma_served_stays(states, replies, n, served);
            assert(has_behind_it(states, replies, n + 1));
        },
        _ => {},
    }
}

proof fn lemma_behind_run(states: Seq<BlobAccess>, replies: Seq<AccessReply>, n: int)
    requires
        is_access_run(states, replies),
        0 <= n < states.len(),
        n > 0 ==> states[n - 1].step != states[n].step,
    ensures
        has_behind_it(states, replies, n),
    decreases n, 1int,
{
    if n > 0 {
        lemma_behind_any(states, replies, n - 1);
        law_access_goes_by_authority(states, replies, n - 1);
        assert(access_leads(states[n - 1], replies[n - 1], states[n - 1 + 1]));
        reveal(access_leads);
        let step = states[n - 1].step;
        match step {
            AccessStep::Validate
            | AccessStep::LookUpExternal
            | AccessStep::ServeExternal { .. }
            | AccessStep::ProbeLocal { .. }
            | AccessStep::ProbePinned { .. }
            | AccessStep::ReprobePinned { .. }
            | AccessStep::ProbeCache { .. }
            | AccessStep::ServeFile { .. }
            | AccessStep::CheckPinned { .. }
            | AccessStep::CheckCached { .. }
            | AccessStep::OpenRange
            | AccessStep::DropPinned { .. }
            | AccessStep::DropCached { .. } => lemma_behind_lookup(states, replies, n - 1),
            AccessStep::Download { .. }
            | AccessStep::ValidateForStage { .. }
            | AccessStep::ProbePinnedForStage { .. }
            | AccessStep::ProbeCacheForStage { .. }
            | AccessStep::CopyForStage { .. }
            | AccessStep::ValidateStaged { .. }
            | AccessStep::ReadStaged { .. }
            | AccessStep::MeasureStaged { .. }
            | AccessStep::OpenStaged { .. }
            | AccessStep::CopyForMove { .. } => lemma_behind_fetch(states, replies, n - 1),
            AccessStep::ValidateForPublish { .. }
            | AccessStep::Publish { .. }
            | AccessStep::MeasureOccupied { .. }
            | AccessStep::RemoveSource { .. }
            | AccessStep::SyncSource { .. }
            | AccessStep::Evict { .. }
            | AccessStep::ValidateAtEnd { .. } => lemma_behind_publish(states, replies, n - 1),
            AccessStep::Done { .. } | AccessStep::Failed { .. } => {},
        }
    }
}

proof fn lemma_behind_any(states: Seq<BlobAccess>, replies: Seq<AccessReply>, n: int)
    requires
        is_access_run(states, replies),
        0 <= n < states.len(),
    ensures
        states[n].step is Done || has_behind_it(states, replies, n),
    decreases n, 2int,
{
    if n == 0 {
    } else if states[n - 1].step != states[n].step {
        lemma_behind_run(states, replies, n);
    } else {
        lemma_behind_any(states, replies, n - 1);
        law_access_goes_by_authority(states, replies, n - 1);
        law_access_goes_by_authority(states, replies, n);
        if !(states[n].step is Done) {
            lemma_behind_stays(states, replies, n - 1);
        }
    }
}

/// Whatever the operations reply: a use that has just been done came to what it was for.
/// Contents and streams come from the one place that holds the row's bytes, the kept copy
/// before the evictable one, or are fetched, given their place and the namespace evicted,
/// for a row that was then found to have this version; files that were read or moved were
/// measured to be exactly the row's plaintext. A pinned blob has its kept copy and, where
/// that came from the evictable place, no other. An unpinned one has moved, a dropped one is
/// gone from both places, and a staged one stands beside the file that the caller chose.
pub proof fn law_access_comes_to_what_it_was_for(
    states: Seq<BlobAccess>,
    replies: Seq<AccessReply>,
    n: int,
    served: Served,
)
    requires
        is_access_run(states, replies),
        0 < n < states.len(),
        states[n].step == (AccessStep::Done { served }),
        !(states[n - 1].step is Done),
    ensures
        came_to(states, replies, n, served),
{
    lemma_behind_run(states, replies, n);
}

/// Whether a reply is one to what the step asks for.
pub open spec fn is_answer(at: BlobAccess, reply: AccessReply) -> bool {
    match at.step {
        AccessStep::Validate => reply is Row,
        AccessStep::LookUpExternal => reply is External,
        AccessStep::ServeExternal { .. } => if at.purpose == BlobUse::Open {
            reply is Opened
        } else {
            reply is Facts
        },
        AccessStep::ProbeLocal { .. } => reply is Exists,
        AccessStep::ProbePinned { .. } => reply is Exists,
        AccessStep::ReprobePinned { .. } => reply is Exists,
        AccessStep::ProbeCache { .. } => reply is Exists,
        AccessStep::ServeFile { .. } => if at.purpose == BlobUse::Open {
            reply is Opened
        } else {
            reply is Facts
        },
        AccessStep::CheckPinned { .. } => reply is Facts,
        AccessStep::CheckCached { .. } => reply is Facts,
        AccessStep::OpenRange => reply is RangeReader,
        AccessStep::Download { .. } => reply is Downloaded,
        AccessStep::ValidateForStage { .. } => reply is Row,
        AccessStep::ProbePinnedForStage { .. } => reply is Exists,
        AccessStep::ProbeCacheForStage { .. } => reply is Exists,
        AccessStep::CopyForStage { .. } => reply is Copied,
        AccessStep::ValidateStaged { .. } => reply is Row,
        AccessStep::ReadStaged { .. } => reply is Disk,
        AccessStep::MeasureStaged { .. } => reply is Facts,
        AccessStep::OpenStaged { .. } => reply is Opened,
        AccessStep::CopyForMove { .. } => reply is Copied,
        AccessStep::ValidateForPublish { .. } => reply is Row,
        AccessStep::Publish { .. } => reply is Published,
        AccessStep::MeasureOccupied { .. } => reply is Facts,
        AccessStep::RemoveSource { .. } => reply is Disk,
        AccessStep::SyncSource { .. } => reply is Disk,
        AccessStep::Evict { .. } => reply is Evicted,
        AccessStep::ValidateAtEnd { .. } => reply is Row,
        AccessStep::DropPinned { .. } => reply is Disk,
        AccessStep::DropCached { .. } => reply is Disk,
        AccessStep::Done { .. } => false,
        AccessStep::Failed { .. } => false,
    }
}

/// Whether a reply says that an operation failed, or that a file is another than the row
/// declares.
pub open spec fn is_bad(at: BlobAccess, reply: AccessReply) -> bool {
    match reply {
        AccessReply::Row(done) => done is Err,
        AccessReply::External(found) => match found {
            Ok(Some(_)) => false,
            _ => true,
        },
        AccessReply::Exists(found) => found is Err,
        AccessReply::Facts(facts) => match facts {
            Err(_) => true,
            Ok((size, hash)) => !is_exact(at, size, hash) || (
            at.step matches AccessStep::ServeExternal { file } && size != file.size),
        },
        AccessReply::Opened(opened) => match opened {
            Err(_) => true,
            Ok(size) => at.step matches AccessStep::ServeExternal { file } && (size != file.size
                || size != at.row.plaintext_size),
        },
        AccessReply::RangeReader(opened) => opened is Err,
        AccessReply::Copied(copied) => match copied {
            Err(_) => true,
            Ok((_, size, hash)) => !is_exact(at, size, hash),
        },
        AccessReply::Downloaded(done) => done is Err,
        AccessReply::Disk(done) => done is Err,
        AccessReply::Published(done) => done is Failed,
        AccessReply::Evicted(done) => done is Err,
    }
}

/// The error that passes on what a failed operation said.
pub open spec fn error_of(at: BlobAccess, reply: AccessReply) -> Option<BlobCacheError> {
    match reply {
        AccessReply::Row(Err(error)) => Some(BlobCacheError::Metadata(error)),
        AccessReply::External(Err(error)) => Some(BlobCacheError::Metadata(error)),
        AccessReply::External(Ok(None)) => Some(
            BlobCacheError::NoExternalRef { id: at.row.blob.id },
        ),
        AccessReply::Exists(Err(detail)) => Some(BlobCacheError::Io(detail)),
        AccessReply::Copied(Err(detail)) => Some(BlobCacheError::Io(detail)),
        AccessReply::Disk(Err(detail)) => Some(BlobCacheError::Io(detail)),
        AccessReply::RangeReader(Err(error)) => Some(BlobCacheError::Storage(error)),
        AccessReply::Downloaded(Err(error)) => Some(BlobCacheError::Storage(error)),
        AccessReply::Published(PublishReply::Failed(detail)) => Some(BlobCacheError::Io(detail)),
        AccessReply::Evicted(Err(error)) => Some(error),
        AccessReply::Facts(Err(detail)) => Some(
            match at.step {
                AccessStep::ServeExternal { file } => BlobCacheError::ExternalMissing {
                    id: at.row.blob.id,
                    path: file.path,
                    source: detail,
                },
                _ => BlobCacheError::Io(detail),
            },
        ),
        AccessReply::Opened(Err(detail)) => Some(
            match at.step {
                AccessStep::ServeExternal { file } => BlobCacheError::ExternalMissing {
                    id: at.row.blob.id,
                    path: file.path,
                    source: detail,
                },
                _ => BlobCacheError::Io(detail),
            },
        ),
        _ => None,
    }
}

/// An access fails where an operation failed or a file is another than the row declares; and
/// else only where there is nothing to serve from: no copy on this device and no cloud home,
/// no file in the local store, or, at its start, a row without an object or with names that
/// fit no path. Whatever else is answered, it goes on.
#[verifier::rlimit(60)]
pub proof fn law_access_goes_on_unless_something_is_in_its_way(
    before: BlobAccess,
    reply: AccessReply,
    after: BlobAccess,
)
    requires
        before.follows(reply, after),
    ensures
        !is_answer(before, reply) ==> after == before,
        is_answer(before, reply) ==> after.step != before.step,
        is_answer(before, reply) && is_bad(before, reply) ==> after.step is Failed,
        is_answer(before, reply) ==> (error_of(before, reply) matches Some(error) ==> after.step == (
        AccessStep::Failed { error })),
        is_answer(before, reply) && !is_bad(before, reply) && after.step is Failed ==> {
            ||| before.step is Validate
            ||| before.step is ProbeLocal && reply == AccessReply::Exists(Ok(false))
                && after.step->error is NoLocalCopy
            ||| (before.step is ProbeCache || before.step is ProbeCacheForStage) && reply
                == AccessReply::Exists(Ok(false)) && !before.connected
                && after.step->error is NoCloudHome
        },
        before.step is ProbeLocal && reply == AccessReply::Exists(Ok(false)) ==> after.step is Failed,
{
    match before.step {
        AccessStep::ProbePinned { pinned, cache } => {
            assert(!(before.pinned_hit(pinned, cache) is Failed));
            assert(!(before.pinned_miss(pinned, cache) is Failed));
        },
        AccessStep::Download { dest } => {
            assert(forall|staged: String| !(#[trigger] before.downloaded(dest, staged) is Failed));
        },
        AccessStep::Publish { dest, moved, served } => {
            assert(!(before.published(dest, moved, served) is Failed));
        },
        AccessStep::MeasureOccupied { dest, moved, served, .. } => {
            assert(!(before.published(dest, moved, served) is Failed));
        },
        _ => {},
    }
}

/// Whether this operation of keeping a copy succeeded in the first `n` operations of a run.
#[verifier::opaque]
pub open spec fn kept(
    states: Seq<KeepCopy>,
    replies: Seq<KeepReply>,
    n: int,
    step: KeepStep,
) -> bool {
    exists|i: int|
        0 <= i < n && (#[trigger] states[i]).step == step && (match (step, replies[i]) {
            (KeepStep::Copy { .. }, KeepReply::Copied(done)) => done is Ok,
            (KeepStep::Measure { .. }, KeepReply::Facts(Ok((size, hash)))) => size == states[0].size
                && hash == states[0].hash,
            (KeepStep::MeasureOccupied { .. }, KeepReply::Facts(Ok((size, hash)))) => size
                == states[0].size && hash == states[0].hash,
            (KeepStep::Publish { .. }, KeepReply::Published(done)) => done is Published,
            (KeepStep::Evict { .. }, KeepReply::Evicted(done)) => done is Ok,
            _ => false,
        })
}

/// A run that keeps a copy of one file at one place.
pub open spec fn is_keep_run(
    from: String,
    dest: String,
    states: Seq<KeepCopy>,
    replies: Seq<KeepReply>,
) -> bool {
    &&& states.len() == replies.len() + 1
    &&& states[0].step == (KeepStep::Copy { from, dest })
    &&& forall|i: int|
        0 <= i < replies.len() ==> states[i].follows(#[trigger] replies[i], states[i + 1])
}

/// The copy has its name: it was published, or the file that was in the way was measured and
/// is exactly the plaintext.
pub open spec fn is_copy_in_place(
    states: Seq<KeepCopy>,
    replies: Seq<KeepReply>,
    n: int,
    from: String,
    dest: String,
) -> bool {
    &&& kept(states, replies, n, KeepStep::Copy { from, dest })
    &&& exists|staged: String| #[trigger]
        kept(states, replies, n, KeepStep::Measure { dest, staged })
    &&& kept(states, replies, n, KeepStep::Publish { dest }) || exists|path: String| #[trigger]
        kept(states, replies, n, KeepStep::MeasureOccupied { path, dest })
}

spec fn keep_has_behind_it(
    from: String,
    dest: String,
    states: Seq<KeepCopy>,
    replies: Seq<KeepReply>,
    n: int,
) -> bool {
    let now = states[n];
    &&& now == states[0].at(now.step)
    &&& match now.step {
        KeepStep::Copy { from: f, dest: d } => f == from && d == dest,
        KeepStep::Measure { dest: d, .. } => d == dest && kept(
            states,
            replies,
            n,
            KeepStep::Copy { from, dest },
        ),
        KeepStep::Publish { dest: d } => d == dest && kept(
            states,
            replies,
            n,
            KeepStep::Copy { from, dest },
        ) && exists|staged: String| #[trigger]
            kept(states, replies, n, KeepStep::Measure { dest, staged }),
        KeepStep::MeasureOccupied { dest: d, .. } => d == dest && kept(
            states,
            replies,
            n,
            KeepStep::Copy { from, dest },
        ) && exists|staged: String| #[trigger]
            kept(states, replies, n, KeepStep::Measure { dest, staged }),
        KeepStep::Evict { protect } => protect == dest && now.evictable && is_copy_in_place(
            states,
            replies,
            n,
            from,
            dest,
        ),
        KeepStep::Done => is_copy_in_place(states, replies, n, from, dest) && (now.evictable ==> kept(
            states,
            replies,
            n,
            KeepStep::Evict { protect: dest },
        )),
        KeepStep::Failed { .. } => true,
    }
}

proof fn lemma_kept_stays(
    states: Seq<KeepCopy>,
    replies: Seq<KeepReply>,
    n: int,
    from: String,
    dest: String,
)
    requires
        0 <= n,
        states[n] == states[0].at(states[n].step),
    ensures
        forall|step: KeepStep|
            kept(states, replies, n, step) ==> #[trigger] kept(states, replies, n + 1, step),
        (exists|staged: String| #[trigger]
            kept(states, replies, n, KeepStep::Measure { dest, staged })) ==> exists|staged: String|
            #[trigger]
            kept(states, replies, n + 1, KeepStep::Measure { dest, staged }),
        is_copy_in_place(states, replies, n, from, dest) ==> is_copy_in_place(
            states,
            replies,
            n + 1,
            from,
            dest,
        ),
        states[n].follows(replies[n], states[n + 1]) && states[n + 1] != states[n]
            && states[n + 1].step is Publish ==> kept(states, replies, n + 1, states[n].step),
        states[n].follows(replies[n], states[n + 1]) && states[n + 1] != states[n]
            && states[n + 1].step is Measure ==> kept(states, replies, n + 1, states[n].step),
        states[n].follows(replies[n], states[n + 1]) && states[n + 1] != states[n] && (
        states[n + 1].step is Evict || states[n + 1].step is Done) ==> kept(
            states,
            replies,
            n + 1,
            states[n].step,
        ),
{
    reveal(kept);
    assert forall|step: KeepStep| kept(states, replies, n, step) implies #[trigger] kept(
        states,
        replies,
        n + 1,
        step,
    ) by {
        let i = choose|i: int|
            0 <= i < n && (#[trigger] states[i]).step == step && (match (step, replies[i]) {
                (KeepStep::Copy { .. }, KeepReply::Copied(done)) => done is Ok,
                (KeepStep::Measure { .. }, KeepReply::Facts(Ok((size, hash)))) => size
                    == states[0].size && hash == states[0].hash,
                (KeepStep::MeasureOccupied { .. }, KeepReply::Facts(Ok((size, hash)))) => size
                    == states[0].size && hash == states[0].hash,
                (KeepStep::Publish { .. }, KeepReply::Published(done)) => done is Published,
                (KeepStep::Evict { .. }, KeepReply::Evicted(done)) => done is Ok,
                _ => false,
            });
        assert(states[i].step == step);
    }
    if exists|staged: String| #[trigger] kept(states, replies, n, KeepStep::Measure { dest, staged }) {
        let staged = choose|staged: String| #[trigger]
            kept(states, replies, n, KeepStep::Measure { dest, staged });
        assert(kept(states, replies, n + 1, KeepStep::Measure { dest, staged }));
    }
    if exists|path: String| #[trigger]
        kept(states, replies, n, KeepStep::MeasureOccupied { path, dest }) {
        let path = choose|path: String| #[trigger]
            kept(states, replies, n, KeepStep::MeasureOccupied { path, dest });
        assert(kept(states, replies, n + 1, KeepStep::MeasureOccupied { path, dest }));
    }
    assert(states[n].step == states[n].step);
}

proof fn lemma_keep_run(
    from: String,
    dest: String,
    states: Seq<KeepCopy>,
    replies: Seq<KeepReply>,
    n: int,
)
    requires
        is_keep_run(from, dest, states, replies),
        0 <= n < states.len(),
    ensures
        keep_has_behind_it(from, dest, states, replies, n),
    decreases n,
{
    if n > 0 {
        lemma_keep_run(from, dest, states, replies, n - 1);
        assert(states[n - 1].follows(replies[n - 1], states[n - 1 + 1]));
        lemma_kept_stays(states, replies, n - 1, from, dest);
        let before = states[n - 1];
        match before.step {
            KeepStep::Measure { dest: d, staged } => {
                if states[n].step is Publish {
                    assert(kept(states, replies, n, KeepStep::Measure { dest, staged }));
                }
            },
            KeepStep::MeasureOccupied { path, dest: d } => {
                if states[n].step is Evict || states[n].step is Done {
                    assert(kept(states, replies, n, KeepStep::MeasureOccupied { path, dest }));
                }
            },
            _ => {},
        }
    }
}

/// A copy that is kept was copied from the uploaded file, measured to be exactly the
/// plaintext, and given its place, where it replaced nothing; and where that place is under a
/// budget, the namespace was evicted with this copy spared.
pub proof fn law_kept_copy_is_in_its_place(
    from: String,
    dest: String,
    states: Seq<KeepCopy>,
    replies: Seq<KeepReply>,
    n: int,
)
    requires
        is_keep_run(from, dest, states, replies),
        0 <= n < states.len(),
        states[n].step is Done,
    ensures
        is_copy_in_place(states, replies, n, from, dest),
        states[0].evictable ==> kept(states, replies, n, KeepStep::Evict { protect: dest }),
{
    lemma_keep_run(from, dest, states, replies, n);
}

/// Keeping a copy fails exactly where an operation failed or a file is not the plaintext.
pub proof fn law_keeping_goes_on_unless_an_operation_failed(
    before: KeepCopy,
    reply: KeepReply,
    after: KeepCopy,
)
    requires
        before.follows(reply, after),
    ensures
        match (before.step, reply) {
            (KeepStep::Copy { .. }, KeepReply::Copied(done)) => after.step is Failed == done is Err
                && after.step != before.step,
            (KeepStep::Measure { .. }, KeepReply::Facts(facts)) => after.step is Failed == (facts
                != Ok::<(u64, ObjectHash), String>((before.size, before.hash))) && after.step
                != before.step,
            (KeepStep::MeasureOccupied { .. }, KeepReply::Facts(facts)) => after.step is Failed == (
            facts != Ok::<(u64, ObjectHash), String>((before.size, before.hash))) && after.step
                != before.step,
            (KeepStep::Publish { .. }, KeepReply::Published(done)) => after.step is Failed
                == done is Failed && after.step != before.step,
            (KeepStep::Evict { .. }, KeepReply::Evicted(done)) => after.step is Failed == done is Err
                && after.step != before.step,
            _ => after == before,
        },
{
}

} // verus!

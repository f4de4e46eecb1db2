//! What an upload attempt comes to as a whole, and what a pass over the queue admits and
//! counts.

use vstd::prelude::*;

use crate::blob::drain_laws::is_left_alone;
use crate::blob::locator::{BlobLocator, LocatorView, RemoteAudience, StoredBlobRef};
use crate::blob::transition::PostUpload;
use crate::blob::upload::{
    failure_text, failures_text, is_upload_run, upload_leads, waiting_prefix, CauseView, DrainView, EntryOutcome,
    UploadAttempt, UploadFailure, UploadFailureCause, UploadFault, UploadJob, UploadReply, UploadStep,
};
use crate::digest::{hex_text, sha256};
use crate::outbox::{MakeRemoteIntentState, OutboxEntry, OutboxUploadState};
use crate::storage::BlobSpoolProtection;
use crate::store_dir::spool_path_text;
use crate::text::signed_decimal;

verus! {

/// A locator that names the queued row's own facts: its blob, its size and its hash, under
/// this device as the uploader. A sealed one names the key of the home and the row's own
/// scope, for the whole store; a readable one names the row's own path.
pub open spec fn names_the_row(attempt: UploadAttempt, locator: LocatorView) -> bool {
    let row = attempt.job.row;
    match locator {
        LocatorView::Opaque {
            namespace,
            blob_id,
            uploader,
            audience,
            scope,
            key_fingerprint,
            semantic_key,
            plaintext_size,
            plaintext_hash,
        } => {
            &&& namespace == row.blob.namespace@
            &&& blob_id == row.blob.id@
            &&& uploader == attempt.uploader@
            &&& audience == RemoteAudience::Store
            &&& scope == row.blob.scope@
            &&& plaintext_size == row.plaintext_size
            &&& plaintext_hash == row.plaintext_hash
            &&& semantic_key == row.blob.namespace@ + "/opaque/"@ + attempt.uploader@ + "/"@
                + hex_text(key_fingerprint@) + "/"@ + row.blob.id@.subrange(0, 2) + "/"@
                + row.blob.id@.subrange(2, 4) + "/"@ + row.blob.id@
        },
        LocatorView::Browsable {
            namespace,
            blob_id,
            uploader,
            cloud_path,
            semantic_key,
            plaintext_size,
            plaintext_hash,
        } => {
            &&& namespace == row.blob.namespace@
            &&& blob_id == row.blob.id@
            &&& uploader == attempt.uploader@
            &&& row.blob.cloud_path is Some
            &&& cloud_path == row.blob.cloud_path->0@
            &&& plaintext_size == row.plaintext_size
            &&& plaintext_hash == row.plaintext_hash
            &&& semantic_key == row.blob.namespace@ + "/readable/"@ + row.blob.cloud_path->0@
                + "/.coven-versions/"@ + attempt.uploader@ + "/"@ + row.blob.id@ + "/"@ + hex_text(
                row.plaintext_hash@,
            )
        },
    }
}

/// The locator that the step works under, and the spool it works on.
pub open spec fn locator_at_hand(step: UploadStep) -> Option<(BlobLocator, String)> {
    match step {
        UploadStep::Seal { locator, spool_path } => Some((locator, spool_path)),
        UploadStep::AllocateSlot { locator, spool_path } => Some((locator, spool_path)),
        UploadStep::PrepareObject { locator, spool_path, .. } => Some((locator, spool_path)),
        _ => None,
    }
}

/// Everything of an attempt that no reply changes.
pub open spec fn same_upload(a: UploadAttempt, b: UploadAttempt) -> bool {
    &&& b.job == (UploadJob { state: b.job.state, ..a.job })
    &&& b.uploader == a.uploader
    &&& b.store_dir == a.store_dir
    &&& b.attempted_at == a.attempted_at
}

proof fn lemma_locator_step(before: UploadAttempt, reply: UploadReply, after: UploadAttempt)
    requires
        upload_leads(before, reply, after),
    ensures
        same_upload(before, after),
        locator_at_hand(after.step) is Some ==> {
            ||| locator_at_hand(after.step) == locator_at_hand(before.step)
            ||| {
                let (locator, spool_path) = locator_at_hand(after.step)->0;
                &&& before.step == UploadStep::AskProtection
                &&& reply matches UploadReply::Protection(Ok(protection)) && (match protection {
                    BlobSpoolProtection::Opaque(key_fingerprint) => locator@ matches LocatorView::Opaque {
                        key_fingerprint: named,
                        ..
                    } && named == key_fingerprint,
                    BlobSpoolProtection::Browsable => locator@ is Browsable,
                })
                &&& names_the_row(after, locator@)
                &&& locator@.fault() is None
                &&& spool_path@ == spool_path_text(after.store_dir@, sha256(locator@.canonical()))
            }
        },
{
    reveal(upload_leads);
    match (before.step, reply) {
        (UploadStep::AskProtection, UploadReply::Protection(Ok(protection))) => {
            if after.step is Seal {
                let view = before.planned_locator(protection)->Ok_0;
                let id = before.job.row.blob.id@;
                match view {
                    LocatorView::Opaque { semantic_key, key_fingerprint, .. } => {
                        assert(semantic_key =~= before.job.row.blob.namespace@ + "/opaque/"@
                            + before.uploader@ + "/"@ + hex_text(key_fingerprint@) + "/"@
                            + id.subrange(0, 2) + "/"@ + id.subrange(2, 4) + "/"@ + id);
                    },
                    LocatorView::Browsable { .. } => {},
                }
            }
        },
        _ => {},
    }
}

/// Whatever the operations reply, at every point of every attempt: the locator that a blob
/// is sealed, allocated and prepared under names the queued row's own facts, its scope
/// among them, is sound, and names the spool.
pub proof fn law_blob_is_sealed_under_its_own_facts(
    states: Seq<UploadAttempt>,
    replies: Seq<UploadReply>,
    n: int,
)
    requires
        is_upload_run(states, replies),
        0 <= n < states.len(),
    ensures
        same_upload(states[0], states[n]),
        locator_at_hand(states[n].step) matches Some(hand) ==> names_the_row(states[0], hand.0@)
            && hand.0@.fault() is None && hand.1@ == spool_path_text(
            states[0].store_dir@,
            sha256(hand.0@.canonical()),
        ),
    decreases n,
{
    if n > 0 {
        law_blob_is_sealed_under_its_own_facts(states, replies, n - 1);
        assert(upload_leads(states[n - 1], replies[n - 1], states[n - 1 + 1]));
        lemma_locator_step(states[n - 1], replies[n - 1], states[n]);
    }
}

/// A blob is sealed in the way in which the home protects blobs, and only for want of a
/// readable path, or of names that fit a key, it is not sealed.
pub proof fn law_blob_is_sealed_as_the_home_protects(
    before: UploadAttempt,
    protection: BlobSpoolProtection,
    after: UploadAttempt,
)
    requires
        before.step == UploadStep::AskProtection,
        before.follows(UploadReply::Protection(Ok(protection)), after),
    ensures
        after.step is Seal || after.step is RecordFailure,
        after.step matches UploadStep::Seal { locator, .. } ==> (match protection {
            BlobSpoolProtection::Opaque(key_fingerprint) => locator@ matches LocatorView::Opaque {
                key_fingerprint: named,
                ..
            } && named == key_fingerprint,
            BlobSpoolProtection::Browsable => locator@ is Browsable,
        }),
        forall|sound: LocatorView|
            #![trigger sound.fault()]
            sound.fault() is None && names_the_row(before, sound) && (match protection {
                BlobSpoolProtection::Opaque(key_fingerprint) => sound matches LocatorView::Opaque {
                    key_fingerprint: named,
                    ..
                } && named == key_fingerprint,
                BlobSpoolProtection::Browsable => sound is Browsable,
            }) ==> (after.step matches UploadStep::Seal { locator, .. } && locator@ == sound),
{
    reveal(upload_leads);
    lemma_locator_step(before, UploadReply::Protection(Ok(protection)), after);
}

/// A reply that the operation succeeded.
pub open spec fn succeeded(reply: UploadReply) -> bool {
    match reply {
        UploadReply::Done => true,
        UploadReply::Intent(answer) => answer is Ok,
        UploadReply::Protection(answer) => answer is Ok,
        UploadReply::Storage(answer) => answer is Ok,
        UploadReply::Slot(answer) => answer is Ok,
        UploadReply::Prepared(answer) => answer is Ok,
        UploadReply::Local(answer) => answer is Ok,
        UploadReply::Finalized(answer) => answer is Ok,
    }
}

/// Whether this operation was performed with success in the first `n` operations of a run.
#[verifier::opaque]
pub open spec fn performed(
    states: Seq<UploadAttempt>,
    replies: Seq<UploadReply>,
    n: int,
    step: UploadStep,
) -> bool {
    exists|i: int|
        0 <= i < n && (#[trigger] states[i]).step == step && succeeded(replies[i]) && states[i + 1].step
            != step
}

/// Whether the finalizer said this in the first `n` operations of a run.
#[verifier::opaque]
pub open spec fn finalizer_said(
    states: Seq<UploadAttempt>,
    replies: Seq<UploadReply>,
    n: int,
    said: PostUpload,
) -> bool {
    exists|i: int|
        0 <= i < n && (#[trigger] states[i]).step is Finalize && replies[i] == UploadReply::Finalized(
            Ok(said),
        )
}

/// Whether the transition was found to be cancelled in the first `n` operations of a run.
#[verifier::opaque]
pub open spec fn found_cancelled(
    states: Seq<UploadAttempt>,
    replies: Seq<UploadReply>,
    n: int,
) -> bool {
    exists|i: int|
        0 <= i < n && (((#[trigger] states[i]).step is ReadIntent && replies[i] == UploadReply::Intent(
            Ok(Some(MakeRemoteIntentState::Cancelling)),
        )) || (states[i].step is Finalize && replies[i] == UploadReply::Finalized(
            Ok(PostUpload::Cancelled),
        )))
}

/// The object of an upload, and its spool.
pub open spec fn object_of(state: OutboxUploadState) -> Option<(StoredBlobRef, String)> {
    match state {
        OutboxUploadState::Pending => None,
        OutboxUploadState::Prepared { stored, spool_path, .. } => Some((stored, spool_path)),
        OutboxUploadState::Created { stored, spool_path, .. } => Some((stored, spool_path)),
    }
}

/// The object is in the cloud: it was created and verified, recorded as such and told to
/// observers, in this run, or it was recorded before.
pub open spec fn is_up(
    states: Seq<UploadAttempt>,
    replies: Seq<UploadReply>,
    n: int,
    stored: StoredBlobRef,
    spool_path: String,
) -> bool {
    ||| states[0].job.state == (OutboxUploadState::Created {
        authority: RemoteAudience::Store,
        stored,
        spool_path,
    }) && !states[n].created_this_pass
    ||| {
        &&& states[n].created_this_pass
        &&& performed(states, replies, n, UploadStep::CreateObject { stored, spool_path })
        &&& performed(states, replies, n, UploadStep::VerifyObject { stored, spool_path })
        &&& performed(states, replies, n, UploadStep::MarkCreated { stored, spool_path })
        &&& performed(states, replies, n, UploadStep::NotifyUploaded { stored, spool_path })
    }
}

/// The home prepared this object for the spool, which had been sealed, in the first `n`
/// operations of a run.
#[verifier::opaque]
pub open spec fn home_prepared(
    states: Seq<UploadAttempt>,
    replies: Seq<UploadReply>,
    n: int,
    stored: StoredBlobRef,
    spool_path: String,
) -> bool {
    exists|i: int|
        0 <= i < n && ((#[trigger] states[i]).step matches UploadStep::PrepareObject {
            spool_path: spool,
            locator,
            ..
        } && spool == spool_path && replies[i] == UploadReply::Prepared(Ok(stored)) && performed(
            states,
            replies,
            n,
            UploadStep::Seal { locator, spool_path },
        ))
}

/// The upload is recorded with an object that the home prepared for its sealed spool in
/// this run, or it was recorded with it before.
pub open spec fn is_prepared(
    states: Seq<UploadAttempt>,
    replies: Seq<UploadReply>,
    n: int,
    stored: StoredBlobRef,
    spool_path: String,
) -> bool {
    ||| object_of(states[0].job.state) == Some((stored, spool_path))
    ||| {
        &&& performed(states, replies, n, UploadStep::MarkPrepared { stored, spool_path })
        &&& home_prepared(states, replies, n, stored, spool_path)
    }
}

/// The upload is undone: where it had an object, that was deleted, its spool removed and
/// its cached copies dropped.
pub open spec fn is_undone(
    states: Seq<UploadAttempt>,
    replies: Seq<UploadReply>,
    n: int,
) -> bool {
    match object_of(states[n].job.state) {
        None => true,
        Some((stored, spool_path)) => {
            &&& performed(states, replies, n, UploadStep::DeleteObject { stored, spool_path })
            &&& performed(states, replies, n, UploadStep::RemoveSpool { stored, spool_path })
            &&& performed(states, replies, n, UploadStep::DropCached { stored })
        },
    }
}

/// What an attempt has behind it at each step.
spec fn has_behind_it(states: Seq<UploadAttempt>, replies: Seq<UploadReply>, n: int) -> bool {
    let now = states[n];
    let pinned = |stored: StoredBlobRef, spool_path: String|
        now.job.retain_pinned ==> performed(
            states,
            replies,
            n,
            UploadStep::PopulatePinned { stored, spool_path },
        );
    &&& same_upload(states[0], now)
    &&& (now.job.state matches OutboxUploadState::Pending ==> states[0].job.state is Pending
        && !now.created_this_pass)
    &&& (now.job.state matches OutboxUploadState::Prepared { stored, spool_path, .. } ==> is_prepared(
        states,
        replies,
        n,
        stored,
        spool_path,
    ) && !now.created_this_pass)
    &&& (now.job.state matches OutboxUploadState::Created { authority, stored, spool_path } ==> (
    now.job.state == states[0].job.state && !now.created_this_pass) || (authority
        == RemoteAudience::Store && now.created_this_pass && is_prepared(
        states,
        replies,
        n,
        stored,
        spool_path,
    ) && performed(states, replies, n, UploadStep::CreateObject { stored, spool_path })
        && performed(states, replies, n, UploadStep::VerifyObject { stored, spool_path })
        && performed(states, replies, n, UploadStep::MarkCreated { stored, spool_path })))
    &&& match now.step {
        UploadStep::NotifyStarted => now.job == states[0].job && !now.created_this_pass,
        UploadStep::ReadIntent => now.job == states[0].job && !now.created_this_pass,
        UploadStep::AskProtection => now.job.state is Pending,
        UploadStep::Seal { .. } => now.job.state is Pending,
        UploadStep::AllocateSlot { locator, spool_path } => now.job.state is Pending && performed(
            states,
            replies,
            n,
            UploadStep::Seal { locator, spool_path },
        ),
        UploadStep::PrepareObject { locator, spool_path, .. } => now.job.state is Pending && performed(
            states,
            replies,
            n,
            UploadStep::Seal { locator, spool_path },
        ),
        UploadStep::MarkPrepared { stored, spool_path } => now.job.state is Pending && home_prepared(
            states,
            replies,
            n,
            stored,
            spool_path,
        ),
        UploadStep::CreateObject { stored, spool_path } => now.job.state
            == (OutboxUploadState::Prepared {
            authority: RemoteAudience::Store,
            stored,
            spool_path,
        }),
        UploadStep::VerifyObject { stored, spool_path } => now.job.state
            == (OutboxUploadState::Prepared {
            authority: RemoteAudience::Store,
            stored,
            spool_path,
        }) && performed(states, replies, n, UploadStep::CreateObject { stored, spool_path }),
        UploadStep::MarkCreated { stored, spool_path } => now.job.state
            == (OutboxUploadState::Prepared {
            authority: RemoteAudience::Store,
            stored,
            spool_path,
        }) && performed(states, replies, n, UploadStep::CreateObject { stored, spool_path })
            && performed(states, replies, n, UploadStep::VerifyObject { stored, spool_path }),
        UploadStep::NotifyUploaded { stored, spool_path } => now.job.state
            == (OutboxUploadState::Created {
            authority: RemoteAudience::Store,
            stored,
            spool_path,
        }),
        UploadStep::PopulatePinned { stored, spool_path } => now.job.state
            == (OutboxUploadState::Created {
            authority: RemoteAudience::Store,
            stored,
            spool_path,
        }) && now.job.retain_pinned && (now.created_this_pass ==> performed(
            states,
            replies,
            n,
            UploadStep::NotifyUploaded { stored, spool_path },
        )),
        UploadStep::Finalize { stored, spool_path } => now.job.state == (OutboxUploadState::Created {
            authority: RemoteAudience::Store,
            stored,
            spool_path,
        }) && pinned(stored, spool_path) && (now.created_this_pass ==> performed(
            states,
            replies,
            n,
            UploadStep::NotifyUploaded { stored, spool_path },
        )),
        UploadStep::NotifyMadeRemote { root_table, root_id } => finalizer_said(
            states,
            replies,
            n,
            PostUpload::MadeRemote { root_table, root_id },
        ) && (now.job.state matches OutboxUploadState::Created { authority, stored, spool_path }
            && authority == RemoteAudience::Store && pinned(stored, spool_path) && (now.created_this_pass ==> performed(
            states,
            replies,
            n,
            UploadStep::NotifyUploaded { stored, spool_path },
        ))),
        UploadStep::DeleteObject { stored, spool_path } => found_cancelled(states, replies, n)
            && object_of(now.job.state) == Some((stored, spool_path)),
        UploadStep::RemoveSpool { stored, spool_path } => found_cancelled(states, replies, n)
            && object_of(now.job.state) == Some((stored, spool_path)) && performed(
            states,
            replies,
            n,
            UploadStep::DeleteObject { stored, spool_path },
        ),
        UploadStep::DropCached { stored } => found_cancelled(states, replies, n) && (object_of(
            now.job.state,
        ) matches Some(object) && object.0 == stored && performed(
            states,
            replies,
            n,
            UploadStep::DeleteObject { stored, spool_path: object.1 },
        ) && performed(
            states,
            replies,
            n,
            UploadStep::RemoveSpool { stored, spool_path: object.1 },
        )),
        UploadStep::FinishCancelled => found_cancelled(states, replies, n) && is_undone(
            states,
            replies,
            n,
        ),
        UploadStep::Uploaded { made_remote, created_this_pass } => ends_well(
            states,
            replies,
            n,
            made_remote,
            created_this_pass,
        ),
        _ => true,
    }
}

/// How an attempt that succeeded ended. Either its blob's object is up, the blob is pinned
/// where that was asked for, and the finalizer was told; or the transition was found to be
/// cancelled, the upload is undone, and then the queue was told.
pub open spec fn ends_well(
    states: Seq<UploadAttempt>,
    replies: Seq<UploadReply>,
    n: int,
    made_remote: bool,
    created_this_pass: bool,
) -> bool {
    ||| {
        &&& states[n].job.state matches OutboxUploadState::Created { authority, stored, spool_path }
            && authority == RemoteAudience::Store && is_up(states, replies, n, stored, spool_path)
            && (states[n].job.retain_pinned ==> performed(
            states,
            replies,
            n,
            UploadStep::PopulatePinned { stored, spool_path },
        ))
        &&& created_this_pass == states[n].created_this_pass
        &&& if made_remote {
            exists|root_table: String, root_id: String| #[trigger]
                finalizer_said(
                    states,
                    replies,
                    n,
                    PostUpload::MadeRemote { root_table, root_id },
                ) && performed(
                    states,
                    replies,
                    n,
                    UploadStep::NotifyMadeRemote { root_table, root_id },
                )
        } else {
            finalizer_said(states, replies, n, PostUpload::Waiting)
        }
    }
    ||| {
        &&& !made_remote
        &&& !created_this_pass
        &&& found_cancelled(states, replies, n)
        &&& is_undone(states, replies, n)
        &&& performed(states, replies, n, UploadStep::FinishCancelled)
    }
}

proof fn lemma_performed_stays(
    states: Seq<UploadAttempt>,
    replies: Seq<UploadReply>,
    n: int,
)
    ensures
        forall|step: UploadStep|
            performed(states, replies, n, step) ==> #[trigger] performed(states, replies, n + 1, step),
        forall|said: PostUpload|
            finalizer_said(states, replies, n, said) ==> #[trigger] finalizer_said(
                states,
                replies,
                n + 1,
                said,
            ),
        found_cancelled(states, replies, n) ==> found_cancelled(states, replies, n + 1),
        forall|stored: StoredBlobRef, spool_path: String|
            home_prepared(states, replies, n, stored, spool_path) ==> #[trigger] home_prepared(
                states,
                replies,
                n + 1,
                stored,
                spool_path,
            ),
{
    reveal(performed);
    reveal(finalizer_said);
    reveal(found_cancelled);
    reveal(home_prepared);
    assert forall|step: UploadStep| performed(states, replies, n, step) implies #[trigger] performed(
        states,
        replies,
        n + 1,
        step,
    ) by {
        let i = choose|i: int|
            0 <= i < n && (#[trigger] states[i]).step == step && succeeded(replies[i]) && states[i
                + 1].step != step;
        assert(states[i].step == step);
    }
    assert forall|said: PostUpload| finalizer_said(states, replies, n, said) implies #[trigger] finalizer_said(
        states,
        replies,
        n + 1,
        said,
    ) by {
        let i = choose|i: int|
            0 <= i < n && (#[trigger] states[i]).step is Finalize && replies[i]
                == UploadReply::Finalized(Ok(said));
        assert(states[i].step is Finalize);
    }
    assert forall|stored: StoredBlobRef, spool_path: String|
        home_prepared(states, replies, n, stored, spool_path) implies #[trigger] home_prepared(
        states,
        replies,
        n + 1,
        stored,
        spool_path,
    ) by {
        let i = choose|i: int|
            0 <= i < n && ((#[trigger] states[i]).step matches UploadStep::PrepareObject {
                spool_path: spool,
                locator,
                ..
            } && spool == spool_path && replies[i] == UploadReply::Prepared(Ok(stored)) && performed(
                states,
                replies,
                n,
                UploadStep::Seal { locator, spool_path },
            ));
        assert(states[i].step is PrepareObject);
    }
}

/// What the last operation of a run adds to what was performed.
proof fn lemma_performed_now(states: Seq<UploadAttempt>, replies: Seq<UploadReply>, n: int)
    requires
        0 <= n,
    ensures
        succeeded(replies[n]) && states[n].step != states[n + 1].step ==> performed(
            states,
            replies,
            n + 1,
            states[n].step,
        ),
        states[n].step is Finalize ==> (replies[n] matches UploadReply::Finalized(Ok(said))
            ==> finalizer_said(states, replies, n + 1, said)),
        states[n].step is ReadIntent && replies[n] == UploadReply::Intent(
            Ok(Some(MakeRemoteIntentState::Cancelling)),
        ) ==> found_cancelled(states, replies, n + 1),
        states[n].step is Finalize && replies[n] == UploadReply::Finalized(
            Ok(PostUpload::Cancelled),
        ) ==> found_cancelled(states, replies, n + 1),
        states[n].step matches UploadStep::PrepareObject { locator, spool_path, .. } ==> (
        replies[n] matches UploadReply::Prepared(Ok(stored)) ==> (performed(
            states,
            replies,
            n,
            UploadStep::Seal { locator, spool_path },
        ) ==> home_prepared(states, replies, n + 1, stored, spool_path))),
{
    lemma_performed_stays(states, replies, n);
    reveal(performed);
    reveal(finalizer_said);
    reveal(found_cancelled);
    reveal(home_prepared);
    assert(states[n].step == states[n].step);
}

proof fn lemma_ends_well_stays(
    states: Seq<UploadAttempt>,
    replies: Seq<UploadReply>,
    n: int,
    made_remote: bool,
    created_this_pass: bool,
)
    requires
        states[n + 1] == states[n],
        ends_well(states, replies, n, made_remote, created_this_pass),
    ensures
        ends_well(states, replies, n + 1, made_remote, created_this_pass),
{
    lemma_performed_stays(states, replies, n);
    if exists|root_table: String, root_id: String| #[trigger]
        finalizer_said(states, replies, n, PostUpload::MadeRemote { root_table, root_id })
            && performed(
            states,
            replies,
            n,
            UploadStep::NotifyMadeRemote { root_table, root_id },
        ) {
        let (root_table, root_id) = choose|root_table: String, root_id: String| #[trigger]
            finalizer_said(
                states,
                replies,
                n,
                PostUpload::MadeRemote { root_table, root_id },
            ) && performed(
                states,
                replies,
                n,
                UploadStep::NotifyMadeRemote { root_table, root_id },
            );
        assert(performed(
            states,
            replies,
            n + 1,
            UploadStep::NotifyMadeRemote { root_table, root_id },
        ));
        assert(finalizer_said(
            states,
            replies,
            n + 1,
            PostUpload::MadeRemote { root_table, root_id },
        ));
    }
}

#[verifier::rlimit(60)]
proof fn lemma_has_behind_it(states: Seq<UploadAttempt>, replies: Seq<UploadReply>, n: int)
    requires
        0 <= n,
        states[n].follows(replies[n], states[n + 1]),
        has_behind_it(states, replies, n),
    ensures
        has_behind_it(states, replies, n + 1),
{
    lemma_performed_stays(states, replies, n);
    lemma_performed_now(states, replies, n);
    match states[n].step {
        UploadStep::NotifyMadeRemote { root_table, root_id } => {
            assert(finalizer_said(
                states,
                replies,
                n + 1,
                PostUpload::MadeRemote { root_table, root_id },
            ));
            if states[n + 1].step != states[n].step {
                assert(states[n + 1].job == states[n].job);
                assert(is_up(
                    states,
                    replies,
                    n + 1,
                    states[n].job.state->Created_stored,
                    states[n].job.state->Created_spool_path,
                ));
                assert(performed(
                    states,
                    replies,
                    n + 1,
                    UploadStep::NotifyMadeRemote { root_table, root_id },
                ));
            }
        },
        UploadStep::Uploaded { made_remote, created_this_pass } => {
            lemma_ends_well_stays(states, replies, n, made_remote, created_this_pass);
        },
        UploadStep::Finalize { stored, spool_path } => {
            if states[n + 1].step is Uploaded {
                assert(finalizer_said(states, replies, n + 1, PostUpload::Waiting));
                assert(is_up(states, replies, n + 1, stored, spool_path));
            }
        },
        _ => {},
    }
}

/// Whatever the operations reply: an attempt that ended well either has its blob's object
/// up, created and verified by itself or recorded so before, has pinned the blob where that
/// was asked for, and told the finalizer; or it found the transition cancelled and has
/// undone everything of the upload before the entry left the queue. It says that it created
/// the object, and that the root is remote, exactly where that is so.
pub proof fn law_upload_that_ended_well(
    states: Seq<UploadAttempt>,
    replies: Seq<UploadReply>,
    n: int,
    made_remote: bool,
    created_this_pass: bool,
)
    requires
        is_upload_run(states, replies),
        0 <= n < states.len(),
        states[n].step == (UploadStep::Uploaded { made_remote, created_this_pass }),
    ensures
        ends_well(states, replies, n, made_remote, created_this_pass),
{
    lemma_behind_run(states, replies, n);
}

/// The object that an attempt creates, verifies and finalizes is one that the home prepared
/// for the sealed spool of this very upload, or that was recorded for it before.
pub proof fn law_created_object_is_the_prepared_one(
    states: Seq<UploadAttempt>,
    replies: Seq<UploadReply>,
    n: int,
)
    requires
        is_upload_run(states, replies),
        0 <= n < states.len(),
    ensures
        states[n].step matches UploadStep::CreateObject { stored, spool_path } ==> is_prepared(
            states,
            replies,
            n,
            stored,
            spool_path,
        ),
        states[n].step matches UploadStep::Finalize { stored, spool_path } ==> is_up(
            states,
            replies,
            n,
            stored,
            spool_path,
        ) && is_prepared(states, replies, n, stored, spool_path),
{
    lemma_behind_run(states, replies, n);
}

proof fn lemma_behind_run(states: Seq<UploadAttempt>, replies: Seq<UploadReply>, n: int)
    requires
        is_upload_run(states, replies),
        0 <= n < states.len(),
    ensures
        has_behind_it(states, replies, n),
    decreases n,
{
    if n > 0 {
        lemma_behind_run(states, replies, n - 1);
        assert(upload_leads(states[n - 1], replies[n - 1], states[n - 1 + 1]));
        reveal(upload_leads);
        lemma_has_behind_it(states, replies, n - 1);
    }
}

/// Whether a reply is one to what the step asks for.
pub open spec fn is_answer(step: UploadStep, reply: UploadReply) -> bool {
    match step {
        UploadStep::NotifyStarted => reply is Done,
        UploadStep::ReadIntent => reply is Intent,
        UploadStep::AskProtection => reply is Protection,
        UploadStep::Seal { .. } => reply is Storage,
        UploadStep::AllocateSlot { .. } => reply is Slot,
        UploadStep::PrepareObject { .. } => reply is Prepared,
        UploadStep::MarkPrepared { .. } => reply is Local,
        UploadStep::CreateObject { .. } => reply is Storage,
        UploadStep::VerifyObject { .. } => reply is Storage,
        UploadStep::MarkCreated { .. } => reply is Local,
        UploadStep::NotifyUploaded { .. } => reply is Done,
        UploadStep::PopulatePinned { .. } => reply is Local,
        UploadStep::Finalize { .. } => reply is Finalized,
        UploadStep::NotifyMadeRemote { .. } => reply is Done,
        UploadStep::DeleteObject { .. } => reply is Storage,
        UploadStep::RemoveSpool { .. } => reply is Local,
        UploadStep::DropCached { .. } => reply is Local,
        UploadStep::FinishCancelled => reply is Local,
        UploadStep::RecordFailure { .. } => reply is Done,
        UploadStep::NotifyFailed { .. } => reply is Done,
        UploadStep::Failed { .. } => false,
        UploadStep::Uploaded { .. } => false,
    }
}

/// A fault that passes on what a failed operation said, by what the operation was for.
pub open spec fn passes_on(step: UploadStep, fault: UploadFault, reply: UploadReply) -> bool {
    match reply {
        UploadReply::Intent(Err(detail)) => fault == UploadFault::Database(detail),
        UploadReply::Protection(Err(error)) => fault == UploadFault::Storage(error),
        UploadReply::Slot(Err(error)) => fault == UploadFault::Storage(error),
        UploadReply::Prepared(Err(error)) => fault == UploadFault::Storage(error),
        UploadReply::Finalized(Err(detail)) => fault == UploadFault::Database(detail),
        UploadReply::Storage(Err(error)) => fault == (if step is DeleteObject {
            UploadFault::CancelStorage(error)
        } else {
            UploadFault::Storage(error)
        }),
        UploadReply::Local(Err(detail)) => fault == (match step {
            UploadStep::PopulatePinned { .. } => UploadFault::Pin(detail),
            UploadStep::RemoveSpool { .. } => UploadFault::CancelSpool(detail),
            UploadStep::DropCached { .. } => UploadFault::CancelCache(detail),
            UploadStep::FinishCancelled => UploadFault::CancelDatabase(detail),
            _ => UploadFault::Database(detail),
        }),
        _ => false,
    }
}

/// The object that a failure at this step is about: the one that could not be recorded,
/// pinned or finalized.
pub open spec fn object_at_fault(step: UploadStep) -> Option<StoredBlobRef> {
    match step {
        UploadStep::MarkPrepared { stored, .. } => Some(stored),
        UploadStep::MarkCreated { stored, .. } => Some(stored),
        UploadStep::PopulatePinned { stored, .. } => Some(stored),
        UploadStep::Finalize { stored, .. } => Some(stored),
        _ => None,
    }
}

/// An attempt fails exactly where an operation failed, and says what that said; where the
/// recorded object is not the whole store's; and where the blob has no locator. Whatever
/// else is answered, it goes on. A failure is recorded and told as it is before the attempt
/// ends with it.
pub proof fn law_attempt_goes_on_unless_an_operation_failed(
    before: UploadAttempt,
    reply: UploadReply,
    after: UploadAttempt,
)
    requires
        before.follows(reply, after),
    ensures
        !is_answer(before.step, reply) ==> after == before,
        is_answer(before.step, reply) ==> after.step != before.step,
        is_answer(before.step, reply) && !succeeded(reply) ==> after.step is RecordFailure
            && passes_on(before.step, after.step->RecordFailure_fault, reply),
        after.step is RecordFailure && before.step != after.step ==> after.step->RecordFailure_object
            == object_at_fault(before.step),
        is_answer(before.step, reply) && succeeded(reply) && after.step is RecordFailure ==> {
            ||| before.step is AskProtection && (after.step->RecordFailure_fault is NoReadablePath
                || after.step->RecordFailure_fault is Locator)
            ||| before.step is ReadIntent && after.step->RecordFailure_fault is ForeignAuthority && (
            match before.job.state {
                OutboxUploadState::Pending => false,
                OutboxUploadState::Prepared { authority, .. } => authority != RemoteAudience::Store,
                OutboxUploadState::Created { authority, .. } => authority != RemoteAudience::Store,
            })
        },
        before.step matches UploadStep::RecordFailure { fault, object, .. } ==> (reply is Done
            ==> after.step == (UploadStep::NotifyFailed { fault, object })),
        before.step matches UploadStep::NotifyFailed { fault, object } ==> (reply is Done
            ==> after.step == (UploadStep::Failed { fault, object })),
        after.step matches UploadStep::RecordFailure { attempted_at, .. } ==> after == before
            || attempted_at == before.attempted_at,
{
}

/// An attempt that finds the transition cancelled turns to undoing the recorded object, or
/// to the queue where there is none; and no other attempt does.
pub proof fn law_only_a_cancelled_upload_is_undone(
    before: UploadAttempt,
    reply: UploadReply,
    after: UploadAttempt,
)
    requires
        before.follows(reply, after),
        after.step != before.step,
    ensures
        before.step is ReadIntent ==> (after.step is DeleteObject || after.step is FinishCancelled)
            == (reply == UploadReply::Intent(Ok(Some(MakeRemoteIntentState::Cancelling)))),
        before.step is Finalize ==> after.step is DeleteObject == (reply == UploadReply::Finalized(
            Ok(PostUpload::Cancelled),
        )),
        before.step is ReadIntent && after.step is DeleteObject ==> object_of(before.job.state)
            == Some(
            (after.step->DeleteObject_stored, after.step->DeleteObject_spool_path),
        ),
        before.step is ReadIntent && after.step is FinishCancelled ==> object_of(before.job.state)
            is None,
{
}

proof fn lemma_waiting_prefix_is_backoff(pending: Seq<OutboxEntry>, now: crate::clock::Instant)
    ensures
        waiting_prefix(pending, now) <= pending.len(),
        forall|j: int|
            0 <= j < waiting_prefix(pending, now) ==> is_left_alone(#[trigger] pending[j], now),
        waiting_prefix(pending, now) < pending.len() ==> !is_left_alone(
            pending[waiting_prefix(pending, now) as int],
            now,
        ),
    decreases pending.len(),
{
    if pending.len() > 0 {
        let rest = pending.skip(1);
        lemma_waiting_prefix_is_backoff(rest, now);
        assert(forall|j: int| 0 <= j < rest.len() ==> #[trigger] rest[j] == pending[j + 1]);
        assert forall|j: int| 0 <= j < waiting_prefix(pending, now) implies is_left_alone(
            #[trigger] pending[j],
            now,
        ) by {
            if j > 0 {
                assert(is_left_alone(rest[j - 1], now));
            }
        }
    }
}

/// An admission takes the first entry whose backoff has passed, wherever there is one and
/// another attempt may run, and leaves exactly the entries behind it. It takes none, and
/// leaves none behind, only where every entry is in its backoff.
pub proof fn law_admission_takes_the_first_due_entry(drain: DrainView, k: int)
    requires
        !drain.stopped,
        drain.inflight < drain.limit,
        0 <= k <= drain.pending.len(),
        forall|j: int| 0 <= j < k ==> is_left_alone(#[trigger] drain.pending[j], drain.now),
        k < drain.pending.len() ==> !is_left_alone(drain.pending[k], drain.now),
    ensures
        ({
            let (after, taken) = drain.admission(false);
            &&& after.now == drain.now && after.limit == drain.limit && after.uploaded
                == drain.uploaded && after.yielded == drain.yielded && after.failures
                == drain.failures && after.stopped == drain.stopped
            &&& if k < drain.pending.len() {
                taken == Some(drain.pending[k]) && after.pending == drain.pending.skip(k + 1)
                    && after.inflight == drain.inflight + 1
            } else {
                taken is None && after.pending.len() == 0 && after.inflight == drain.inflight
            }
        }),
{
    lemma_waiting_prefix_is_backoff(drain.pending, drain.now);
    let w = waiting_prefix(drain.pending, drain.now) as int;
    if w < k {
        assert(is_left_alone(drain.pending[w], drain.now));
    } else if k < w {
        assert(is_left_alone(drain.pending[k], drain.now));
    }
}

/// What a pass has counted once it absorbed these outcomes, one after the other.
pub open spec fn after_outcomes(drain: DrainView, outcomes: Seq<EntryOutcome>) -> DrainView
    decreases outcomes.len(),
{
    if outcomes.len() == 0 {
        drain
    } else {
        after_outcomes(drain, outcomes.drop_last()).absorbed(outcomes.last())
    }
}

/// How many of the attempts created their object.
pub open spec fn created_count(outcomes: Seq<EntryOutcome>) -> nat
    decreases outcomes.len(),
{
    if outcomes.len() == 0 {
        0
    } else {
        created_count(outcomes.drop_last()) + match outcomes.last() {
            EntryOutcome::Uploaded { created_this_pass: true, .. } => 1nat,
            _ => 0,
        }
    }
}

/// The failures among the outcomes, in their order.
pub open spec fn failures_among(outcomes: Seq<EntryOutcome>) -> Seq<UploadFailure>
    decreases outcomes.len(),
{
    if outcomes.len() == 0 {
        seq![]
    } else {
        let before = failures_among(outcomes.drop_last());
        match outcomes.last() {
            EntryOutcome::NotUploaded(failure) => before.push(failure),
            _ => before,
        }
    }
}

/// A pass counts each created object once, collects every failure in the order the attempts
/// ended, stops and yields exactly where an upload completed its root, and frees one place
/// for each attempt; the queue is not touched.
pub proof fn law_pass_counts_its_outcomes(drain: DrainView, outcomes: Seq<EntryOutcome>)
    requires
        outcomes.len() <= drain.inflight,
    ensures
        ({
            let after = after_outcomes(drain, outcomes);
            let published = exists|i: int|
                0 <= i < outcomes.len() && ((#[trigger] outcomes[i]) matches EntryOutcome::Uploaded {
                    made_remote: true,
                    ..
                });
            &&& after.pending == drain.pending && after.now == drain.now && after.limit
                == drain.limit
            &&& after.inflight == drain.inflight - outcomes.len()
            &&& after.uploaded == drain.uploaded + created_count(outcomes)
            &&& after.failures == drain.failures + failures_among(outcomes)
            &&& after.yielded == (drain.yielded || published)
            &&& after.stopped == (drain.stopped || published)
        }),
    decreases outcomes.len(),
{
    if outcomes.len() == 0 {
        assert(drain.failures + seq![] =~= drain.failures);
    } else {
        let earlier = outcomes.drop_last();
        law_pass_counts_its_outcomes(drain, earlier);
        let before = after_outcomes(drain, earlier);
        assert(forall|i: int| 0 <= i < earlier.len() ==> #[trigger] earlier[i] == outcomes[i]);
        if exists|i: int|
            0 <= i < earlier.len() && ((#[trigger] earlier[i]) matches EntryOutcome::Uploaded {
                made_remote: true,
                ..
            }) {
            let i = choose|i: int|
                0 <= i < earlier.len() && ((#[trigger] earlier[i]) matches EntryOutcome::Uploaded {
                    made_remote: true,
                    ..
                });
            assert(outcomes[i] matches EntryOutcome::Uploaded { made_remote: true, .. });
        }
        if exists|i: int|
            0 <= i < outcomes.len() && ((#[trigger] outcomes[i]) matches EntryOutcome::Uploaded {
                made_remote: true,
                ..
            }) {
            let i = choose|i: int|
                0 <= i < outcomes.len() && ((#[trigger] outcomes[i]) matches EntryOutcome::Uploaded {
                    made_remote: true,
                    ..
                });
            if i < earlier.len() {
                assert(earlier[i] matches EntryOutcome::Uploaded { made_remote: true, .. });
            }
        }
        assert(outcomes[outcomes.len() - 1] == outcomes.last());
        assert(after_outcomes(drain, outcomes).failures =~= drain.failures + failures_among(
            outcomes,
        ));
    }
}

/// What is reported for a failed attempt: the entry that failed, the object at hand, or what
/// the entry is known by where there is none, and what the fault says.
pub proof fn law_failure_names_its_entry(
    attempt: UploadAttempt,
    fault: UploadFault,
    object: Option<StoredBlobRef>,
)
    ensures
        ({
            let report = attempt.failure_view(fault, object);
            let row = attempt.job.row;
            &&& report.entry_id == attempt.job.id
            &&& report.object_key == (match object {
                Some(stored) => stored.object.logical_key@,
                None => match object_of(attempt.job.state) {
                    Some((stored, _)) => stored.object.logical_key@,
                    None => row.table@ + "/"@ + row.row_id@ + "/"@ + row.column@ + "@"@ + row.row_stamp@,
                },
            })
            &&& fault matches UploadFault::Storage(error) ==> report.cause == CauseView::Storage(
                error@,
            )
            &&& fault matches UploadFault::CancelStorage(error) ==> report.cause
                == CauseView::Storage(error@)
            &&& fault matches UploadFault::Database(detail) ==> report.cause == CauseView::Local(
                detail@,
            )
            &&& fault matches UploadFault::Pin(detail) ==> report.cause == CauseView::Local(
                "pin uploaded blob: "@ + detail@,
            )
            &&& report.cause is Storage == (fault is Storage || fault is CancelStorage)
        }),
{
}

/// The words for two lists of failures are those for the one and then those for the other,
/// and the words for one failure name its entry, its object and its cause.
pub proof fn law_every_failure_is_put_in_words(
    a: Seq<UploadFailure>,
    b: Seq<UploadFailure>,
    one: UploadFailure,
)
    ensures
        failures_text(a + b) == failures_text(a) + failures_text(b),
        failures_text(seq![one]) == "; entry "@ + signed_decimal(one.entry_id as int) + " "@
            + one.object_key@ + ": "@ + (match one.cause {
            UploadFailureCause::Local(reason) => "local upload source: "@ + reason@,
            UploadFailureCause::Storage(error) => "blob storage: "@ + error@.message_text(),
        }),
    decreases b.len(),
{
    let single = seq![one];
    assert(single.drop_last() =~= Seq::<UploadFailure>::empty());
    assert(failures_text(single.drop_last()) =~= Seq::<char>::empty());
    assert(failures_text(single) =~= failure_text(one@));
    if b.len() == 0 {
        assert(a + b =~= a);
        assert(failures_text(a) + failures_text(b) =~= failures_text(a));
    } else {
        law_every_failure_is_put_in_words(a, b.drop_last(), one);
        assert((a + b).drop_last() =~= a + b.drop_last());
        assert((a + b).last() == b.last());
        assert(failures_text(a + b) =~= failures_text(a) + failures_text(b));
    }
}

} // verus!

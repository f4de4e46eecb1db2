//! What a collection pass comes to as a whole.
//!
//! The laws here do not speak of single steps. They take what the cloud and the database
//! answer as given, and say which blobs and which tombstones a pass has deleted once it
//! is done, out of the keys it was given.

use vstd::prelude::*;

use crate::blob::delete::{
    first_author, gc_leads, is_gc_run, key_object_id, law_tombstone_key_round_trip, next_tombstone, signing_payload,
    GcError, GcReply, GcStep, TombstoneGc, TombstoneRead,
};
use crate::blob::locator::StoredView;
use crate::clock::{nanos_between, rfc3339, Instant};
use crate::digest::{hex_text, ObjectHash};
use crate::outbox::StoredBlobReferenceState;
use crate::storage::StorageError;

verus! {

/// A key of the layout: the folder, the identity of an object, and the suffix.
pub open spec fn names_an_object(key: Seq<char>, suffix: Seq<char>) -> bool {
    exists|id: ObjectHash| key == "blob_tombstones/"@ + #[trigger] hex_text(id@) + suffix
}

/// Those of the listed keys that fit the layout, in their order.
pub open spec fn fitting_keys(listed: Seq<String>, suffix: Seq<char>) -> Seq<Seq<char>>
    decreases listed.len(),
{
    if listed.len() == 0 {
        seq![]
    } else {
        let rest = fitting_keys(listed.skip(1), suffix);
        if names_an_object(listed[0]@, suffix) {
            seq![listed[0]@] + rest
        } else {
            rest
        }
    }
}

/// The keys whose tombstones are still to be read: the one at hand, and those behind it.
pub open spec fn keys_to_read(pass: TombstoneGc) -> Seq<Seq<char>> {
    (match pass.step {
        GcStep::ReadTombstone { key, .. } => seq![key@],
        _ => seq![],
    }) + fitting_keys(pass.keys@, pass.suffix@)
}

/// What the cloud and the database answer during a pass.
pub ghost struct GcWorld {
    /// What reading a tombstone comes to, by its key.
    pub read: Map<Seq<char>, TombstoneRead>,
    /// Whether live rows refer to a stored blob.
    pub references: Map<StoredView, StoredBlobReferenceState>,
    /// Whether a tombstone is still there right before its blob is reclaimed.
    pub there: Map<Seq<char>, bool>,
    /// Whether a stored blob is in the cloud.
    pub present: Map<StoredView, bool>,
}

/// A reply to what the step asks for, and one that tells the truth where it does not
/// report a failure.
pub open spec fn gc_answers(world: GcWorld, step: GcStep, reply: GcReply) -> bool {
    match step {
        GcStep::ReadTombstone { key, .. } => reply == GcReply::Read(world.read[key@]),
        GcStep::CheckReferences { tombstone, .. } => match reply {
            GcReply::References(Ok(state)) => state == world.references[tombstone.stored@],
            GcReply::References(Err(_)) => true,
            _ => false,
        },
        GcStep::CheckTombstone { key, .. } => match reply {
            GcReply::Exists(Ok(there)) => there == world.there[key@],
            GcReply::Exists(Err(_)) => true,
            _ => false,
        },
        GcStep::CheckBlob { tombstone, .. } => match reply {
            GcReply::Verified(Ok(_)) => world.present[tombstone.stored@],
            GcReply::Verified(Err(StorageError::NotFound(_))) => !world.present[tombstone.stored@],
            GcReply::Verified(Err(_)) => true,
            _ => false,
        },
        GcStep::DeleteBlob { .. } => reply is BlobDeleted,
        GcStep::DeleteTombstone { .. } => reply is TombstoneDeleted,
        GcStep::CancelTombstone { .. } => reply is TombstoneDeleted,
        GcStep::Done => true,
        GcStep::Failed { .. } => true,
    }
}

/// The stored blob that the tombstone at a key condemns.
pub open spec fn condemned_blob(world: GcWorld, key: Seq<char>) -> StoredView {
    world.read[key]->Read_tombstone.stored@
}

/// Whether the tombstone at a key counts: it was read, it stands at the key of the object
/// it condemns, its signature was found to hold for this store, this blob and this time,
/// its author may write, and more than the grace has passed since the time it names.
pub open spec fn counts(pass: TombstoneGc, world: GcWorld, key: Seq<char>) -> bool {
    match world.read[key] {
        TombstoneRead::Read { tombstone, check } => {
            &&& key == "blob_tombstones/"@ + hex_text(tombstone.stored@.object.object_id@)
                + pass.suffix@
            &&& check.valid
            &&& check.pubkey@ == tombstone.author_pubkey@
            &&& check.signature@ == tombstone.signature@
            &&& check.payload@ == signing_payload(
                pass.store_id@,
                tombstone.stored@,
                tombstone.deleted_at@,
            )
            &&& exists|w: int|
                0 <= w < pass.membership.writers@.len() && (
                #[trigger] pass.membership.writers@[w])@ == tombstone.author_pubkey@
            &&& rfc3339(tombstone.deleted_at@) is Ok
            &&& nanos_between(
                Instant {
                    seconds: rfc3339(tombstone.deleted_at@)->Ok_0.0,
                    nanos: rfc3339(tombstone.deleted_at@)->Ok_0.1,
                },
                pass.now,
            ) > pass.grace
        },
        _ => false,
    }
}

/// Whether this member may reclaim what an uploader stored: the uploader is activated, and
/// it is this member's own or this member is an owner.
pub open spec fn may_take(pass: TombstoneGc, uploader: Seq<char>) -> bool {
    exists|u: int|
        {
            &&& 0 <= u < pass.membership.uploaders@.len()
            &&& (#[trigger] pass.membership.uploaders@[u]).0@ == uploader
            &&& forall|v: int| 0 <= v < u ==> (#[trigger] pass.membership.uploaders@[v]).0@ != uploader
            &&& pass.membership.uploaders@[u].1@ == pass.membership.self_pubkey@
                || pass.membership.is_owner
        }
}

/// Whether a pass must get as far as the blob that the tombstone at a key condemns.
pub open spec fn is_due(pass: TombstoneGc, world: GcWorld, key: Seq<char>) -> bool {
    &&& counts(pass, world, key)
    &&& world.references[condemned_blob(world, key)] == StoredBlobReferenceState::NotLiveRemote
    &&& may_take(pass, condemned_blob(world, key).locator.uploader())
    &&& world.there[key]
}

/// The blobs that a pass must delete for these keys, in their order.
pub open spec fn blobs_to_delete(pass: TombstoneGc, world: GcWorld, keys: Seq<Seq<char>>) -> Seq<
    StoredView,
>
    decreases keys.len(),
{
    if keys.len() == 0 {
        seq![]
    } else {
        let rest = blobs_to_delete(pass, world, keys.skip(1));
        if is_due(pass, world, keys[0]) && world.present[condemned_blob(world, keys[0])] {
            seq![condemned_blob(world, keys[0])] + rest
        } else {
            rest
        }
    }
}

/// The tombstones that a pass must delete for these keys, in their order: those whose blob
/// is due, whether or not it is still there, and those that a live remote row cancels.
pub open spec fn tombstones_to_delete(pass: TombstoneGc, world: GcWorld, keys: Seq<Seq<char>>) -> Seq<
    Seq<char>,
>
    decreases keys.len(),
{
    if keys.len() == 0 {
        seq![]
    } else {
        let rest = tombstones_to_delete(pass, world, keys.skip(1));
        if is_due(pass, world, keys[0]) || (counts(pass, world, keys[0])
            && world.references[condemned_blob(world, keys[0])]
            == StoredBlobReferenceState::LiveRemote) {
            seq![keys[0]] + rest
        } else {
            rest
        }
    }
}

/// The blobs whose deletion succeeded in the first `n` operations of a run.
pub open spec fn deleted_blobs(states: Seq<TombstoneGc>, replies: Seq<GcReply>, n: int) -> Seq<
    StoredView,
>
    decreases n,
{
    if n <= 0 {
        seq![]
    } else {
        let before = deleted_blobs(states, replies, n - 1);
        match (states[n - 1].step, replies[n - 1]) {
            (GcStep::DeleteBlob { tombstone, .. }, GcReply::BlobDeleted(Ok(_))) => before.push(
                tombstone.stored@,
            ),
            _ => before,
        }
    }
}

/// The keys of the tombstones whose deletion succeeded in the first `n` operations of a
/// run.
pub open spec fn deleted_tombstones(states: Seq<TombstoneGc>, replies: Seq<GcReply>, n: int) -> Seq<
    Seq<char>,
>
    decreases n,
{
    if n <= 0 {
        seq![]
    } else {
        let before = deleted_tombstones(states, replies, n - 1);
        match (states[n - 1].step, replies[n - 1]) {
            (GcStep::DeleteTombstone { key }, GcReply::TombstoneDeleted(Ok(_))) => before.push(key@),
            (GcStep::CancelTombstone { key }, GcReply::TombstoneDeleted(Ok(_))) => before.push(key@),
            _ => before,
        }
    }
}

/// A run of a pass that was given these keys, answered by this world.
pub open spec fn is_answered_gc_run(
    listed: Seq<String>,
    world: GcWorld,
    states: Seq<TombstoneGc>,
    replies: Seq<GcReply>,
) -> bool {
    &&& is_gc_run(states, replies)
    &&& keys_to_read(states[0]) == fitting_keys(listed, states[0].suffix@)
    &&& forall|i: int|
        0 <= i < replies.len() ==> gc_answers(world, states[i].step, #[trigger] replies[i])
}

proof fn lemma_key_names(key: Seq<char>, suffix: Seq<char>, id: ObjectHash)
    requires
        key_object_id(key, suffix) == Some(hex_text(id@)),
    ensures
        key == "blob_tombstones/"@ + hex_text(id@) + suffix,
{
    let prefix = "blob_tombstones/"@;
    assert(key =~= prefix + key.subrange(prefix.len() as int, key.len() - suffix.len()) + suffix);
}

/// What a pass turns to next, and what is left behind it, are all of the keys that fit.
pub proof fn lemma_next_tombstone_skips_no_key(keys: Seq<String>, suffix: Seq<char>)
    ensures
        ({
            let (rest, found) = next_tombstone(keys, suffix);
            match found {
                None => fitting_keys(keys, suffix).len() == 0 && rest.len() == 0,
                Some(key) => (exists|id: ObjectHash|
                    key_object_id(key@, suffix) == Some(#[trigger] hex_text(id@)))
                    ==> fitting_keys(keys, suffix) == seq![key@] + fitting_keys(rest, suffix),
            }
        }),
    decreases keys.len(),
{
    if keys.len() > 0 {
        if key_object_id(keys[0]@, suffix) is Some {
            if exists|id: ObjectHash|
                key_object_id(keys[0]@, suffix) == Some(#[trigger] hex_text(id@)) {
                let id = choose|id: ObjectHash|
                    key_object_id(keys[0]@, suffix) == Some(#[trigger] hex_text(id@));
                lemma_key_names(keys[0]@, suffix, id);
                assert(names_an_object(keys[0]@, suffix));
            }
        } else {
            lemma_next_tombstone_skips_no_key(keys.skip(1), suffix);
            if names_an_object(keys[0]@, suffix) {
                let id = choose|id: ObjectHash|
                    keys[0]@ == "blob_tombstones/"@ + #[trigger] hex_text(id@) + suffix;
                law_tombstone_key_round_trip(id, suffix);
            }
        }
    }
}

pub(crate) proof fn lemma_advanced_skips_no_key(before: TombstoneGc, after: TombstoneGc)
    requires
        before.advanced(after),
    ensures
        keys_to_read(after) == fitting_keys(before.keys@, before.suffix@),
        after.step is Done || after.step is ReadTombstone,
        after.step is Done ==> after.keys@.len() == 0,
{
    lemma_next_tombstone_skips_no_key(before.keys@, before.suffix@);
    match next_tombstone(before.keys@, before.suffix@).1 {
        None => {
            assert(keys_to_read(after) =~= seq![]);
        },
        Some(key) => {
            let id = after.step->object_id;
            assert(key_object_id(key@, before.suffix@) == Some(hex_text(id@)));
        },
    }
}

/// The key that the step at hand is about, as long as its blob is not settled.
spec fn open_key(step: GcStep) -> Seq<Seq<char>> {
    match step {
        GcStep::ReadTombstone { key, .. } => seq![key@],
        GcStep::CheckReferences { key, .. } => seq![key@],
        GcStep::CheckTombstone { key, .. } => seq![key@],
        GcStep::CheckBlob { key, .. } => seq![key@],
        GcStep::DeleteBlob { key, .. } => seq![key@],
        _ => seq![],
    }
}

/// The key that the step at hand is about.
spec fn key_at_hand(step: GcStep) -> Seq<Seq<char>> {
    match step {
        GcStep::DeleteTombstone { key } => seq![key@],
        GcStep::CancelTombstone { key } => seq![key@],
        _ => open_key(step),
    }
}

/// The blobs that are still to be deleted.
#[verifier::opaque]
spec fn blobs_left(pass: TombstoneGc, world: GcWorld) -> Seq<StoredView> {
    blobs_to_delete(pass, world, open_key(pass.step) + fitting_keys(pass.keys@, pass.suffix@))
}

/// The tombstones that are still to be deleted.
#[verifier::opaque]
spec fn tombstones_left(pass: TombstoneGc, world: GcWorld) -> Seq<Seq<char>> {
    tombstones_to_delete(
        pass,
        world,
        key_at_hand(pass.step) + fitting_keys(pass.keys@, pass.suffix@),
    )
}

/// The blob that this reply says is deleted.
spec fn blob_now_deleted(pass: TombstoneGc, reply: GcReply) -> Seq<StoredView> {
    match (pass.step, reply) {
        (GcStep::DeleteBlob { tombstone, .. }, GcReply::BlobDeleted(Ok(_))) => seq![
            tombstone.stored@,
        ],
        _ => seq![],
    }
}

/// The tombstone that this reply says is deleted.
spec fn tombstone_now_deleted(pass: TombstoneGc, reply: GcReply) -> Seq<Seq<char>> {
    match (pass.step, reply) {
        (GcStep::DeleteTombstone { key }, GcReply::TombstoneDeleted(Ok(_))) => seq![key@],
        (GcStep::CancelTombstone { key }, GcReply::TombstoneDeleted(Ok(_))) => seq![key@],
        _ => seq![],
    }
}

/// The step at hand follows from what the world answers for its key.
#[verifier::opaque]
spec fn follows_the_world(pass: TombstoneGc, world: GcWorld) -> bool {
    match pass.step {
        GcStep::ReadTombstone { key, object_id } => key_object_id(key@, pass.suffix@) == Some(
            hex_text(object_id@),
        ),
        GcStep::CheckReferences { key, tombstone } => counts(pass, world, key@)
            && world.read[key@]->Read_tombstone == tombstone,
        GcStep::CheckTombstone { key, tombstone } => counts(pass, world, key@)
            && world.read[key@]->Read_tombstone == tombstone
            && world.references[tombstone.stored@] == StoredBlobReferenceState::NotLiveRemote
            && may_take(pass, tombstone.stored@.locator.uploader()),
        GcStep::CheckBlob { key, tombstone } => is_due(pass, world, key@)
            && world.read[key@]->Read_tombstone == tombstone,
        GcStep::DeleteBlob { key, tombstone } => is_due(pass, world, key@)
            && world.read[key@]->Read_tombstone == tombstone && world.present[tombstone.stored@],
        GcStep::DeleteTombstone { key } => is_due(pass, world, key@),
        GcStep::CancelTombstone { key } => counts(pass, world, key@)
            && world.references[condemned_blob(world, key@)] == StoredBlobReferenceState::LiveRemote,
        _ => true,
    }
}

proof fn lemma_first_author(uploaders: Seq<(String, String)>, uploader: Seq<char>)
    ensures
        match first_author(uploaders, uploader) {
            Some(author) => exists|u: int|
                {
                    &&& 0 <= u < uploaders.len()
                    &&& (#[trigger] uploaders[u]).0@ == uploader
                    &&& uploaders[u].1@ == author
                    &&& forall|v: int| 0 <= v < u ==> (#[trigger] uploaders[v]).0@ != uploader
                },
            None => forall|v: int| 0 <= v < uploaders.len() ==> (#[trigger] uploaders[v]).0@ != uploader,
        },
    decreases uploaders.len(),
{
    if uploaders.len() > 0 {
        let rest = uploaders.skip(1);
        lemma_first_author(rest, uploader);
        if uploaders[0].0@ == uploader {
            assert(uploaders[0].1@ == first_author(uploaders, uploader)->0);
        } else {
            match first_author(uploaders, uploader) {
                Some(author) => {
                    let u = choose|u: int|
                        {
                            &&& 0 <= u < rest.len()
                            &&& (#[trigger] rest[u]).0@ == uploader
                            &&& rest[u].1@ == author
                            &&& forall|v: int| 0 <= v < u ==> (#[trigger] rest[v]).0@ != uploader
                        };
                    assert(uploaders[u + 1] == rest[u]);
                    assert forall|v: int| 0 <= v < u + 1 implies (#[trigger] uploaders[v]).0@
                        != uploader by {
                        if v > 0 {
                            assert(uploaders[v] == rest[v - 1]);
                        }
                    }
                },
                None => {
                    assert forall|v: int| 0 <= v < uploaders.len() implies (
                    #[trigger] uploaders[v]).0@ != uploader by {
                        if v > 0 {
                            assert(uploaders[v] == rest[v - 1]);
                        }
                    }
                },
            }
        }
    }
}

/// Whose uploads may be taken, by the first entry that names the uploader.
proof fn lemma_may_take(pass: TombstoneGc, uploader: Seq<char>)
    ensures
        may_take(pass, uploader) == (match pass.membership.author_of(uploader) {
            Some(author) => author == pass.membership.self_pubkey@ || pass.membership.is_owner,
            None => false,
        }),
{
    let uploaders = pass.membership.uploaders@;
    lemma_first_author(uploaders, uploader);
    if may_take(pass, uploader) {
        let u = choose|u: int|
            {
                &&& 0 <= u < uploaders.len()
                &&& (#[trigger] uploaders[u]).0@ == uploader
                &&& forall|v: int| 0 <= v < u ==> (#[trigger] uploaders[v]).0@ != uploader
                &&& uploaders[u].1@ == pass.membership.self_pubkey@ || pass.membership.is_owner
            };
        assert(uploaders[u].0@ == uploader);
        let author = pass.membership.author_of(uploader)->0;
        let w = choose|w: int|
            {
                &&& 0 <= w < uploaders.len()
                &&& (#[trigger] uploaders[w]).0@ == uploader
                &&& uploaders[w].1@ == author
                &&& forall|v: int| 0 <= v < w ==> (#[trigger] uploaders[v]).0@ != uploader
            };
        assert(u == w);
    }
}

proof fn lemma_gc_step(before: TombstoneGc, reply: GcReply, after: TombstoneGc, world: GcWorld)
    requires
        gc_leads(before, reply, after),
        gc_answers(world, before.step, reply),
        follows_the_world(before, world),
        !(after.step is Failed),
    ensures
        follows_the_world(after, world),
        before.same_pass(after),
        blobs_left(before, world) == blob_now_deleted(before, reply) + blobs_left(after, world),
        tombstones_left(before, world) == tombstone_now_deleted(before, reply) + tombstones_left(
            after,
            world,
        ),
        before.wf() ==> after.deleted == before.deleted + blob_now_deleted(before, reply).len(),
        after.step is Done && !(before.step is Done) ==> after.keys@.len() == 0,
        before.step is Done ==> after == before,
{
    reveal(gc_leads);
    reveal(blobs_left);
    reveal(tombstones_left);
    reveal(follows_the_world);
    let rest = fitting_keys(before.keys@, before.suffix@);
    lemma_same_pass_same_work(before, after, world, rest);
    if before.advanced(after) {
        lemma_advanced_skips_no_key(before, after);
    }
    let hand = key_at_hand(before.step);
    if hand.len() == 1 {
        assert((hand + rest)[0] == hand[0]);
        assert((hand + rest).skip(1) =~= rest);
        lemma_same_pass_same_work(before, after, world, hand + rest);
    }
    match before.step {
        GcStep::ReadTombstone { key, object_id } => {
            lemma_key_names(key@, before.suffix@, object_id);
            match reply {
                GcReply::Read(TombstoneRead::Read { tombstone, check }) => {
                    lemma_what_counts(before, world, key@, object_id);
                },
                _ => {},
            }
        },
        GcStep::CheckReferences { key, tombstone } => {
            lemma_may_take(before, tombstone.stored@.locator.uploader());
        },
        _ => {},
    }
    assert(seq![] + blobs_to_delete(after, world, open_key(after.step) + fitting_keys(
        after.keys@,
        after.suffix@,
    )) =~= blobs_to_delete(after, world, open_key(after.step) + fitting_keys(
        after.keys@,
        after.suffix@,
    )));
    assert(seq![] + rest =~= rest);
    assert(seq![] + tombstones_to_delete(after, world, key_at_hand(after.step) + fitting_keys(
        after.keys@,
        after.suffix@,
    )) =~= tombstones_to_delete(after, world, key_at_hand(after.step) + fitting_keys(
        after.keys@,
        after.suffix@,
    )));
}

/// A tombstone counts exactly where the step that read it acts on it.
proof fn lemma_what_counts(pass: TombstoneGc, world: GcWorld, key: Seq<char>, object_id: ObjectHash)
    requires
        key == "blob_tombstones/"@ + hex_text(object_id@) + pass.suffix@,
        world.read[key] is Read,
    ensures
        counts(pass, world, key) == pass.is_actionable(
            object_id,
            world.read[key]->Read_tombstone,
            world.read[key]->check,
        ),
{
    let tombstone = world.read[key]->Read_tombstone;
    let id = tombstone.stored@.object.object_id;
    if key == "blob_tombstones/"@ + hex_text(id@) + pass.suffix@ {
        law_tombstone_key_round_trip(id, pass.suffix@);
        law_tombstone_key_round_trip(object_id, pass.suffix@);
        crate::digest::law_object_hash_text_round_trip(id);
        assert(hex_text(id@) == hex_text(object_id@));
    }
}

proof fn lemma_same_pass_same_work(
    before: TombstoneGc,
    after: TombstoneGc,
    world: GcWorld,
    keys: Seq<Seq<char>>,
)
    requires
        before.same_pass(after),
    ensures
        blobs_to_delete(before, world, keys) == blobs_to_delete(after, world, keys),
        tombstones_to_delete(before, world, keys) == tombstones_to_delete(after, world, keys),
        forall|key: Seq<char>|
            #[trigger] counts(before, world, key) == counts(after, world, key) && is_due(
                before,
                world,
                key,
            ) == is_due(after, world, key),
    decreases keys.len(),
{
    assert(forall|uploader: Seq<char>|
        may_take(before, uploader) == #[trigger] may_take(after, uploader));
    assert(forall|key: Seq<char>|
        #[trigger] counts(before, world, key) == counts(after, world, key) && is_due(
            before,
            world,
            key,
        ) == is_due(after, world, key));
    if keys.len() > 0 {
        lemma_same_pass_same_work(before, after, world, keys.skip(1));
        assert(counts(before, world, keys[0]) == counts(after, world, keys[0]));
    }
}

proof fn lemma_gc_run(
    world: GcWorld,
    states: Seq<TombstoneGc>,
    replies: Seq<GcReply>,
    n: int,
)
    requires
        is_gc_run(states, replies),
        forall|i: int|
            0 <= i < replies.len() ==> gc_answers(world, states[i].step, #[trigger] replies[i]),
        0 <= n < states.len(),
        !(states[n].step is Failed),
        states[0].wf(),
    ensures
        follows_the_world(states[n], world),
        blobs_left(states[0], world) == deleted_blobs(states, replies, n) + blobs_left(
            states[n],
            world,
        ),
        tombstones_left(states[0], world) == deleted_tombstones(states, replies, n)
            + tombstones_left(states[n], world),
        states[n].deleted == deleted_blobs(states, replies, n).len(),
        states[n].wf(),
        n > 0 && states[n].step is Done ==> states[n].keys@.len() == 0 || states[0].step is Done,
        states[0].step is Done ==> states[n] == states[0],
    decreases n,
{
    if n == 0 {
        reveal(follows_the_world);
        assert(seq![] + blobs_left(states[0], world) =~= blobs_left(states[0], world));
        assert(seq![] + tombstones_left(states[0], world) =~= tombstones_left(states[0], world));
    } else {
        let (before, after, reply) = (states[n - 1], states[n], replies[n - 1]);
        assert(gc_leads(states[n - 1], replies[n - 1], states[n - 1 + 1]));
        assert(gc_answers(world, states[n - 1].step, replies[n - 1]));
        lemma_gc_wf(states, replies, n - 1);
        lemma_gc_failure_stays(before, reply, after);
        lemma_gc_run(world, states, replies, n - 1);
        lemma_gc_step(before, reply, after, world);
        let done = deleted_blobs(states, replies, n - 1);
        let more = blob_now_deleted(before, reply);
        assert(deleted_blobs(states, replies, n) =~= done + more);
        assert(done + (more + blobs_left(after, world)) =~= done + more + blobs_left(after, world));
        let gone = deleted_tombstones(states, replies, n - 1);
        let dropped = tombstone_now_deleted(before, reply);
        assert(deleted_tombstones(states, replies, n) =~= gone + dropped);
        assert(gone + (dropped + tombstones_left(after, world)) =~= gone + dropped
            + tombstones_left(after, world));
    }
}

proof fn lemma_gc_failure_stays(before: TombstoneGc, reply: GcReply, after: TombstoneGc)
    requires
        gc_leads(before, reply, after),
        before.wf(),
    ensures
        before.step is Failed ==> after == before,
        before.step is Done ==> after == before,
        after.wf(),
{
    reveal(gc_leads);
    crate::blob::delete::lemma_next_tombstone_is_shorter(before.keys@, before.suffix@);
}

proof fn lemma_gc_wf(
    states: Seq<TombstoneGc>,
    replies: Seq<GcReply>,
    n: int,
)
    requires
        is_gc_run(states, replies),
        0 <= n < states.len(),
        states[0].wf(),
    ensures
        states[n].wf(),
    decreases n,
{
    if n > 0 {
        lemma_gc_wf(states, replies, n - 1);
        assert(gc_leads(states[n - 1], replies[n - 1], states[n - 1 + 1]));
        lemma_gc_failure_stays(states[n - 1], replies[n - 1], states[n]);
    }
}

/// Whatever the cloud and the database answer: a pass that is done has looked at every
/// listed key that fits the layout. It has deleted exactly the blobs that authentic
/// tombstones past their grace condemn, that no live remote row refers to, that this
/// member may reclaim and that were there, and exactly the tombstones of the blobs that
/// were due or that a live remote row keeps, each in the order of the keys. It counts the
/// deleted blobs and leaves no key.
pub proof fn law_finished_pass_reclaimed_all_that_was_due(
    listed: Seq<String>,
    world: GcWorld,
    states: Seq<TombstoneGc>,
    replies: Seq<GcReply>,
)
    requires
        is_answered_gc_run(listed, world, states, replies),
        states[0].wf(),
        states[0].step is Done ==> states[0].keys@.len() == 0,
        states.last().step is Done,
    ensures
        deleted_blobs(states, replies, replies.len() as int) == blobs_to_delete(
            states[0],
            world,
            fitting_keys(listed, states[0].suffix@),
        ),
        deleted_tombstones(states, replies, replies.len() as int) == tombstones_to_delete(
            states[0],
            world,
            fitting_keys(listed, states[0].suffix@),
        ),
        states.last().deleted == deleted_blobs(states, replies, replies.len() as int).len(),
        states.last().keys@.len() == 0,
{
    reveal(blobs_left);
    reveal(tombstones_left);
    let n = replies.len() as int;
    let first = states[0];
    assert(open_key(first.step) + fitting_keys(first.keys@, first.suffix@) =~= keys_to_read(first));
    assert(key_at_hand(first.step) == open_key(first.step));
    lemma_gc_run(world, states, replies, n);
    let last = states[n];
    assert(fitting_keys(last.keys@, last.suffix@) =~= seq![]);
    assert(open_key(last.step) + fitting_keys(last.keys@, last.suffix@) =~= seq![]);
    assert(key_at_hand(last.step) + fitting_keys(last.keys@, last.suffix@) =~= seq![]);
    assert(deleted_blobs(states, replies, n) + Seq::<StoredView>::empty() =~= deleted_blobs(
        states,
        replies,
        n,
    ));
    assert(deleted_tombstones(states, replies, n) + Seq::<Seq<char>>::empty() =~= deleted_tombstones(
        states,
        replies,
        n,
    ));
}

/// The keys whose tombstones were read in the first `n` operations of a run.
pub open spec fn read_keys(states: Seq<TombstoneGc>, replies: Seq<GcReply>, n: int) -> Seq<Seq<char>>
    decreases n,
{
    if n <= 0 {
        seq![]
    } else {
        let before = read_keys(states, replies, n - 1);
        match (states[n - 1].step, replies[n - 1]) {
            (GcStep::ReadTombstone { key, .. }, GcReply::Read(_)) => before.push(key@),
            _ => before,
        }
    }
}

proof fn lemma_gc_reads(before: TombstoneGc, reply: GcReply, after: TombstoneGc)
    requires
        gc_leads(before, reply, after),
        !(after.step is Failed),
    ensures
        before.suffix == after.suffix,
        keys_to_read(before) == (match (before.step, reply) {
            (GcStep::ReadTombstone { key, .. }, GcReply::Read(_)) => seq![key@],
            _ => seq![],
        }) + keys_to_read(after),
        after.step is Done && !(before.step is Done) ==> after.keys@.len() == 0,
{
    reveal(gc_leads);
    if before.advanced(after) {
        lemma_advanced_skips_no_key(before, after);
    }
    let rest = fitting_keys(before.keys@, before.suffix@);
    assert(seq![] + rest =~= rest);
    assert(seq![] + keys_to_read(before) =~= keys_to_read(before));
    assert(seq![] + keys_to_read(after) =~= keys_to_read(after));
}

/// A pass reads the tombstone at every listed key that fits the layout, each once and in
/// their order: as long as it has not failed, the keys it has read and those it has still
/// to read are together all of them; when it is done, it has read all of them.
pub proof fn law_pass_reads_every_tombstone(
    listed: Seq<String>,
    states: Seq<TombstoneGc>,
    replies: Seq<GcReply>,
    n: int,
)
    requires
        is_gc_run(states, replies),
        keys_to_read(states[0]) == fitting_keys(listed, states[0].suffix@),
        states[0].step is Done ==> states[0].keys@.len() == 0,
        states[0].wf(),
        0 <= n < states.len(),
        !(states[n].step is Failed),
    ensures
        states[n].suffix == states[0].suffix,
        read_keys(states, replies, n) + keys_to_read(states[n]) == fitting_keys(
            listed,
            states[0].suffix@,
        ),
        states[n].step is Done ==> read_keys(states, replies, n) == fitting_keys(
            listed,
            states[0].suffix@,
        ) && states[n].keys@.len() == 0,
    decreases n,
{
    if n == 0 {
        assert(seq![] + keys_to_read(states[0]) =~= keys_to_read(states[0]));
    } else {
        let (before, after, reply) = (states[n - 1], states[n], replies[n - 1]);
        assert(gc_leads(states[n - 1], replies[n - 1], states[n - 1 + 1]));
        lemma_gc_wf(states, replies, n - 1);
        lemma_gc_failure_stays(before, reply, after);
        law_pass_reads_every_tombstone(listed, states, replies, n - 1);
        lemma_gc_reads(before, reply, after);
        let done = read_keys(states, replies, n - 1);
        let more: Seq<Seq<char>> = match (before.step, reply) {
            (GcStep::ReadTombstone { key, .. }, GcReply::Read(_)) => seq![key@],
            _ => seq![],
        };
        assert(read_keys(states, replies, n) =~= done + more);
        assert(done + (more + keys_to_read(after)) =~= done + more + keys_to_read(after));
    }
    if states[n].step is Done {
        assert(fitting_keys(states[n].keys@, states[n].suffix@) =~= seq![]);
        assert(read_keys(states, replies, n) + keys_to_read(states[n]) =~= read_keys(
            states,
            replies,
            n,
        ));
    }
}

/// A pass fails only on an operation that failed, on a reference that cannot be resolved
/// and on an uploader that is not activated; whatever else is answered, it goes on.
pub proof fn law_pass_goes_on_unless_an_operation_failed(
    before: TombstoneGc,
    reply: GcReply,
    after: TombstoneGc,
)
    requires
        before.follows(reply, after),
        !(before.step is Done) && !(before.step is Failed),
    ensures
        match (before.step, reply) {
            (GcStep::ReadTombstone { .. }, GcReply::Read(read)) => after.step is Failed == (
            read is NotFound || read is Failed),
            (GcStep::CheckReferences { tombstone, .. }, GcReply::References(references)) => after.step is Failed
                == (references is Err || references == Ok::<StoredBlobReferenceState, String>(
                StoredBlobReferenceState::Unresolved,
            ) || (references == Ok::<StoredBlobReferenceState, String>(
                StoredBlobReferenceState::NotLiveRemote,
            ) && forall|u: int|
                0 <= u < before.membership.uploaders@.len() ==> (
                #[trigger] before.membership.uploaders@[u]).0@
                    != tombstone.stored@.locator.uploader())),
            (GcStep::CancelTombstone { .. }, GcReply::TombstoneDeleted(done)) => after.step is Failed
                == done is Err,
            (GcStep::DeleteTombstone { .. }, GcReply::TombstoneDeleted(done)) => after.step is Failed
                == done is Err,
            (GcStep::CheckTombstone { .. }, GcReply::Exists(there)) => after.step is Failed
                == there is Err,
            (GcStep::CheckBlob { .. }, GcReply::Verified(verified)) => after.step is Failed == (
            verified matches Err(error) && !(error is NotFound)),
            (GcStep::DeleteBlob { .. }, GcReply::BlobDeleted(done)) => after.step is Failed
                == done is Err,
            _ => after == before,
        },
        after != before ==> after.step != before.step || after.keys@.len() < before.keys@.len(),
{
    if before.advanced(after) {
        lemma_advanced_skips_no_key(before, after);
        crate::blob::delete::lemma_next_tombstone_is_shorter(before.keys@, before.suffix@);
    }
    match before.step {
        GcStep::CheckReferences { tombstone, .. } => {
            lemma_first_author(
                before.membership.uploaders@,
                tombstone.stored@.locator.uploader(),
            );
        },
        _ => {},
    }
}

/// A pass that fails says at which tombstone, and what the operation said.
pub proof fn law_failed_pass_says_where(before: TombstoneGc, reply: GcReply, after: TombstoneGc)
    requires
        before.follows(reply, after),
        before.step != after.step,
        after.step is Failed,
    ensures
        ({
            let error = after.step->error;
            match (before.step, reply) {
                (GcStep::ReadTombstone { key, .. }, GcReply::Read(read)) => match read {
                    TombstoneRead::NotFound(detail) => error == (GcError::Read { key, detail }),
                    TombstoneRead::Failed(detail) => error == (GcError::Read { key, detail }),
                    _ => false,
                },
                (GcStep::CheckReferences { key, tombstone }, GcReply::References(references)) => {
                    match references {
                        Err(detail) => error == GcError::References(detail),
                        Ok(state) => if state == StoredBlobReferenceState::Unresolved {
                            error == (GcError::UnresolvedLocality { key })
                        } else {
                            error == (GcError::UnactivatedUploader { key, tombstone })
                        },
                    }
                },
                (GcStep::CancelTombstone { key }, GcReply::TombstoneDeleted(Err(detail))) => error == (
                GcError::Cancel { key, detail }),
                (GcStep::CheckTombstone { key, .. }, GcReply::Exists(Err(detail))) => error == (
                GcError::Recheck { key, detail }),
                (GcStep::CheckBlob { tombstone, .. }, GcReply::Verified(Err(said))) => error == (
                GcError::Presence { tombstone, error: said }),
                (GcStep::DeleteBlob { tombstone, .. }, GcReply::BlobDeleted(Err(said))) => error == (
                GcError::DeleteBlob { tombstone, error: said }),
                (GcStep::DeleteTombstone { key }, GcReply::TombstoneDeleted(Err(detail))) => error == (
                GcError::DeleteTombstone { key, detail }),
                _ => false,
            }
        }),
{
    if before.advanced(after) {
        lemma_advanced_skips_no_key(before, after);
    }
}

} // verus!

//! What setting a store up from a snapshot comes to as a whole.

use vstd::prelude::*;

use crate::database::{
    ascii_small, bootstrap_fault, equal_ignoring_case, CoveredCommit, DatabaseTestPoint, DbError, DbErrorView, InstallReply, InstallStep,
    SnapshotBootstrap, SnapshotInstall, SqlAccess, SqlAction, StabilityAuthority,
};

verus! {

/// Parts are joined exactly where all of them agree: the root with its verified object, the
/// founder with its registration, and the snapshot with what was verified to be stable.
pub proof fn law_only_agreeing_parts_are_joined(
    parts: SnapshotBootstrap,
    stability: StabilityAuthority,
    validity: Result<(), DbError>,
)
    ensures
        bootstrap_fault(parts, stability, validity) is None <==> {
            &&& parts.root_encoded@ == parts.root_bytes@
            &&& parts.root_hash == parts.root_semantic_hash
            &&& parts.founder_semantic_hash == parts.founder_registration_hash
            &&& validity is Ok
            &&& stability.root@ == parts.root@
            &&& stability.founder@ == parts.founder@
            &&& stability.snapshot@ == parts.snapshot@
            &&& stability.metadata@ == parts.metadata@
            &&& parts.next_slot@ == parts.successor_slot@
            &&& parts.coverage_policy == parts.root_policy
        },
{
}

/// The covered commit that this reply says is recorded.
pub open spec fn now_covered(at: SnapshotInstall, reply: InstallReply) -> Seq<CoveredCommit> {
    match (at.step, reply) {
        (InstallStep::RecordCoverage { covered, .. }, InstallReply::Db(Ok(_))) => seq![covered],
        _ => seq![],
    }
}

/// The covered commits that were recorded in the first `n` operations of a run.
pub open spec fn recorded_coverage(
    states: Seq<SnapshotInstall>,
    replies: Seq<InstallReply>,
    n: int,
) -> Seq<CoveredCommit>
    decreases n,
{
    if n <= 0 {
        seq![]
    } else {
        recorded_coverage(states, replies, n - 1) + now_covered(states[n - 1], replies[n - 1])
    }
}

/// A reply that the operation succeeded.
pub open spec fn went_well(reply: InstallReply) -> bool {
    match reply {
        InstallReply::Genesis(done) => done is Ok,
        InstallReply::Encoded(done) => done is Ok,
        InstallReply::Db(done) => done is Ok,
    }
}

/// Whether this operation succeeded in the first `n` operations of a run.
#[verifier::opaque]
pub open spec fn installed(
    states: Seq<SnapshotInstall>,
    replies: Seq<InstallReply>,
    n: int,
    step: InstallStep,
) -> bool {
    exists|i: int|
        0 <= i < n && (#[trigger] states[i]).step == step && went_well(replies[i]) && states[i + 1].step
            != step
}

/// A run of an installation with these covered commits.
pub open spec fn is_install_run(
    coverage: Seq<CoveredCommit>,
    states: Seq<SnapshotInstall>,
    replies: Seq<InstallReply>,
) -> bool {
    &&& states.len() == replies.len() + 1
    &&& states[0].step is ResolveGenesis
    &&& states[0].coverage@ == coverage
    &&& forall|i: int|
        0 <= i < replies.len() ==> states[i].follows(#[trigger] replies[i], states[i + 1])
}

/// The commits that are still to be recorded.
spec fn coverage_left(at: SnapshotInstall) -> Seq<CoveredCommit> {
    (match at.step {
        InstallStep::EncodeCommit { covered } => seq![covered],
        InstallStep::RecordCoverage { covered, .. } => seq![covered],
        _ => seq![],
    }) + at.coverage@
}

spec fn has_behind_it(
    coverage: Seq<CoveredCommit>,
    states: Seq<SnapshotInstall>,
    replies: Seq<InstallReply>,
    n: int,
) -> bool {
    let now = states[n];
    let did = |step: InstallStep| installed(states, replies, n, step);
    &&& !(now.step is Failed) ==> recorded_coverage(states, replies, n) + coverage_left(now) == coverage
    &&& match now.step {
        InstallStep::ResolveGenesis => true,
        InstallStep::CheckOwners => did(InstallStep::ResolveGenesis),
        InstallStep::InstallRoot => did(InstallStep::ResolveGenesis) && did(InstallStep::CheckOwners),
        InstallStep::InstallFounder => did(InstallStep::ResolveGenesis) && did(
            InstallStep::CheckOwners,
        ) && did(InstallStep::InstallRoot),
        InstallStep::ClearCoverage => did(InstallStep::ResolveGenesis) && did(
            InstallStep::CheckOwners,
        ) && did(InstallStep::InstallRoot) && did(InstallStep::InstallFounder),
        InstallStep::EncodeCommit { .. } => is_set_up(states, replies, n),
        InstallStep::RecordCoverage { covered, .. } => is_set_up(states, replies, n),
        InstallStep::InstallBaseline => is_set_up(states, replies, n) && now.coverage@.len() == 0,
        InstallStep::Done => is_set_up(states, replies, n) && now.coverage@.len() == 0 && did(
            InstallStep::InstallBaseline,
        ),
        InstallStep::Failed { .. } => true,
    }
}

/// Everything that comes before the coverage has succeeded, and what an earlier snapshot
/// covered is forgotten.
pub open spec fn is_set_up(
    states: Seq<SnapshotInstall>,
    replies: Seq<InstallReply>,
    n: int,
) -> bool {
    &&& installed(states, replies, n, InstallStep::ResolveGenesis)
    &&& installed(states, replies, n, InstallStep::CheckOwners)
    &&& installed(states, replies, n, InstallStep::InstallRoot)
    &&& installed(states, replies, n, InstallStep::InstallFounder)
    &&& installed(states, replies, n, InstallStep::ClearCoverage)
}

proof fn lemma_installed_stays(states: Seq<SnapshotInstall>, replies: Seq<InstallReply>, n: int)
    requires
        0 <= n,
    ensures
        forall|step: InstallStep|
            installed(states, replies, n, step) ==> #[trigger] installed(states, replies, n + 1, step),
        went_well(replies[n]) && states[n + 1].step != states[n].step ==> installed(
            states,
            replies,
            n + 1,
            states[n].step,
        ),
{
    reveal(installed);
    assert forall|step: InstallStep| installed(states, replies, n, step) implies #[trigger] installed(
        states,
        replies,
        n + 1,
        step,
    ) by {
        let i = choose|i: int|
            0 <= i < n && (#[trigger] states[i]).step == step && went_well(replies[i]) && states[i
                + 1].step != step;
        assert(states[i].step == step);
    }
    assert(states[n].step == states[n].step);
}

proof fn lemma_install_run(
    coverage: Seq<CoveredCommit>,
    states: Seq<SnapshotInstall>,
    replies: Seq<InstallReply>,
    n: int,
)
    requires
        is_install_run(coverage, states, replies),
        0 <= n < states.len(),
    ensures
        has_behind_it(coverage, states, replies, n),
    decreases n,
{
    if n == 0 {
        assert(seq![] + coverage_left(states[0]) =~= coverage);
    } else {
        let (before, after, reply) = (states[n - 1], states[n], replies[n - 1]);
        lemma_install_run(coverage, states, replies, n - 1);
        assert(states[n - 1].follows(replies[n - 1], states[n - 1 + 1]));
        lemma_installed_stays(states, replies, n - 1);
        let done = recorded_coverage(states, replies, n - 1);
        let more = now_covered(before, reply);
        if !(after.step is Failed) {
            assert(coverage_left(before) =~= more + coverage_left(after));
            assert(done + (more + coverage_left(after)) =~= done + more + coverage_left(after));
        }
    }
}

/// An installation that is done has recorded exactly the commits that the snapshot covers,
/// each once and in their order, after it derived the founding state, checked the owners,
/// recorded the root and the founder, and forgot what an earlier snapshot covered; and
/// behind all of them it recorded the baseline.
pub proof fn law_finished_install_recorded_everything(
    coverage: Seq<CoveredCommit>,
    states: Seq<SnapshotInstall>,
    replies: Seq<InstallReply>,
)
    requires
        is_install_run(coverage, states, replies),
        states.last().step is Done,
    ensures
        recorded_coverage(states, replies, replies.len() as int) == coverage,
        is_set_up(states, replies, replies.len() as int),
        installed(states, replies, replies.len() as int, InstallStep::InstallBaseline),
{
    let n = replies.len() as int;
    lemma_install_run(coverage, states, replies, n);
    assert(coverage_left(states[n]) =~= seq![]);
    assert(recorded_coverage(states, replies, n) + seq![] =~= recorded_coverage(
        states,
        replies,
        n,
    ));
}

/// An installation fails exactly where an operation failed, and says what that said; a
/// commit is recorded under the reference that was encoded for it. Whatever else is
/// answered, it goes on.
pub proof fn law_install_goes_on_unless_an_operation_failed(
    before: SnapshotInstall,
    reply: InstallReply,
    after: SnapshotInstall,
)
    requires
        before.follows(reply, after),
        !(before.step is Done) && !(before.step is Failed),
    ensures
        ({
            let answers = match before.step {
                InstallStep::ResolveGenesis => reply is Genesis,
                InstallStep::EncodeCommit { .. } => reply is Encoded,
                _ => reply is Db,
            };
            &&& !answers ==> after == before
            &&& answers ==> after.step != before.step && (after.step is Failed) == !went_well(reply)
            &&& answers ==> (reply matches InstallReply::Db(Err(error)) ==> after.step == (
            InstallStep::Failed { error }))
            &&& before.step is ResolveGenesis ==> (reply matches InstallReply::Genesis(Err(detail))
                ==> after.step == (InstallStep::Failed { error: DbError::Message(detail) }))
            &&& before.step is EncodeCommit ==> (reply matches InstallReply::Encoded(Err(detail)) ==> (
            after.step matches InstallStep::Failed { error } && error@ == DbErrorView::Message(
                "serialize snapshot exact commit ref: "@ + detail@,
            )))
            &&& before.step matches InstallStep::EncodeCommit { covered } ==> (
            reply matches InstallReply::Encoded(Ok(commit_ref)) ==> after.step == (
            InstallStep::RecordCoverage { covered, commit_ref }))
        }),
{
}

/// The host's SQL reaches neither the gates' baseline, in whatever case it is written, nor
/// the list of the attached databases; and everything else it does reach.
pub proof fn law_host_sql_is_kept_from_the_baseline(access: SqlAccess)
    ensures
        access.touches_baseline() == ({
            ||| access.database matches Some(name) && equal_ignoring_case(
                name@,
                "coven_gate_empty"@,
            )
            ||| access.action matches SqlAction::Detach { database } && equal_ignoring_case(
                database@,
                "coven_gate_empty"@,
            )
            ||| access.action matches SqlAction::Pragma { name } && equal_ignoring_case(
                name@,
                "database_list"@,
            )
        }),
{
}

/// Comparing without case is an equivalence that only the case of ASCII letters matters to:
/// texts without capitals are the same only where they are equal.
pub proof fn law_ignoring_case_is_an_equivalence(a: Seq<char>, b: Seq<char>, c: Seq<char>)
    ensures
        equal_ignoring_case(a, a),
        equal_ignoring_case(a, b) == equal_ignoring_case(b, a),
        equal_ignoring_case(a, b) && equal_ignoring_case(b, c) ==> equal_ignoring_case(a, c),
        equal_ignoring_case(a, b) && (forall|i: int|
            0 <= i < a.len() ==> !('A' <= #[trigger] a[i] <= 'Z')) && (forall|i: int|
            0 <= i < b.len() ==> !('A' <= #[trigger] b[i] <= 'Z')) ==> a == b,
{
    if equal_ignoring_case(b, a) {
        assert forall|i: int| 0 <= i < a.len() implies ascii_small(#[trigger] a[i]) == ascii_small(
            b[i],
        ) by {
            assert(ascii_small(b[i]) == ascii_small(a[i]));
        }
    }
    if equal_ignoring_case(a, b) {
        assert forall|i: int| 0 <= i < b.len() implies ascii_small(#[trigger] b[i]) == ascii_small(
            a[i],
        ) by {
            assert(ascii_small(a[i]) == ascii_small(b[i]));
        }
        if equal_ignoring_case(b, c) {
            assert forall|i: int| 0 <= i < a.len() implies ascii_small(#[trigger] a[i])
                == ascii_small(c[i]) by {
                assert(ascii_small(b[i]) == ascii_small(c[i]));
            }
        }
        if (forall|i: int| 0 <= i < a.len() ==> !('A' <= #[trigger] a[i] <= 'Z')) && (forall|i: int|
            0 <= i < b.len() ==> !('A' <= #[trigger] b[i] <= 'Z')) {
            assert forall|i: int| 0 <= i < a.len() implies a[i] == b[i] by {
                assert(ascii_small(a[i]) == ascii_small(b[i]));
                assert(!('A' <= b[i] <= 'Z'));
            }
            assert(a =~= b);
        }
    }
}

/// Two points are the same only where they are of one kind and name the same things.
pub proof fn law_points_say_the_same(a: DatabaseTestPoint, b: DatabaseTestPoint)
    requires
        a@ == b@,
    ensures
        match (a, b) {
            (
                DatabaseTestPoint::LocalBlobCleanupBeforeFilesystem { namespace: x, blob_id: y },
                DatabaseTestPoint::LocalBlobCleanupBeforeFilesystem { namespace: u, blob_id: v },
            ) => x@ == u@ && y@ == v@,
            (
                DatabaseTestPoint::PullAfterRemoteCommit { device_id: x, seq: y },
                DatabaseTestPoint::PullAfterRemoteCommit { device_id: u, seq: v },
            ) => x@ == u@ && y == v,
            (
                DatabaseTestPoint::StoreWriteCommitUploaded { write_id: x },
                DatabaseTestPoint::StoreWriteCommitUploaded { write_id: u },
            ) => x@ == u@,
            (
                DatabaseTestPoint::StoreWriteHeadReadBack { write_id: x },
                DatabaseTestPoint::StoreWriteHeadReadBack { write_id: u },
            ) => x@ == u@,
            _ => a == b,
        },
{
}

} // verus!

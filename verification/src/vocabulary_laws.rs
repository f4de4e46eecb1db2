//! What holds of the vocabulary: names and paths, numbers and times, and what it takes for
//! two records to say the same.

use vstd::prelude::*;

use crate::blob::decl::{digits_value, integer_of};
use crate::blob::locator::{uploader_fault, BlobLocator, LocatorView, StoredBlobRef};
use crate::blob::retry::{backoff_seconds, in_backoff};
use crate::blob::{location_fault, BlobRef, BlobScope};
use crate::clock::{nanos_between, rfc3339, Instant};
use crate::digest::{hex_text, is_hex_char, lemma_hex_text_injective};
use crate::hlc::{is_digit_char, is_timestamp};
use crate::outbox::{is_same_version, OutboxEntry, OutboxOperation, OutboxUploadState, RowBlobRef};
use crate::session::{doubled_quotes, quoted_ident};
use crate::store_dir::{
    cache_path_text, first_fault, is_forbidden_char, local_path_text, pinned_path_text, segments, spool_path_text,
    token_fault,
};
use crate::text::{decimal, digit_char, signed_decimal};

verus! {

/// A text can stand in a path as one segment exactly where it is not empty, is neither the
/// folder itself nor the one above it, and holds no separator, no drive mark and no end of
/// text.
pub proof fn law_what_a_path_token_is(s: Seq<char>)
    ensures
        token_fault(s) is None <==> {
            &&& s.len() > 0
            &&& s != seq!['.']
            &&& s != seq!['.', '.']
            &&& !s.contains('/') && !s.contains('\\') && !s.contains(':') && !s.contains('\0')
        },
{
    if exists|i: int| 0 <= i < s.len() && is_forbidden_char(#[trigger] s[i]) {
        let i = choose|i: int| 0 <= i < s.len() && is_forbidden_char(#[trigger] s[i]);
        assert(s.contains(s[i]));
    } else {
        assert forall|c: char| is_forbidden_char(c) implies !s.contains(c) by {
            if s.contains(c) {
                let i = s.index_of(c);
                assert(is_forbidden_char(s[i]));
            }
        }
        assert(is_forbidden_char('/') && is_forbidden_char('\\') && is_forbidden_char(':')
            && is_forbidden_char('\0'));
    }
}

/// A path is refused exactly where one of its segments is, for the fault of the first one.
pub proof fn law_first_faulty_segment_decides(parts: Seq<Seq<char>>, k: int)
    requires
        0 <= k <= parts.len(),
        forall|i: int| 0 <= i < k ==> token_fault(#[trigger] parts[i]) is None,
        k < parts.len() ==> token_fault(parts[k]) is Some,
    ensures
        first_fault(parts) == (if k < parts.len() {
            token_fault(parts[k])
        } else {
            None
        }),
    decreases parts.len(),
{
    if parts.len() > 0 {
        let earlier = parts.drop_last();
        if k < parts.len() {
            if k < earlier.len() {
                assert(forall|i: int| 0 <= i < k ==> earlier[i] == #[trigger] parts[i]);
                assert(earlier[k] == parts[k]);
                law_first_faulty_segment_decides(earlier, k);
            } else {
                assert(forall|i: int| 0 <= i < k ==> #[trigger] earlier[i] == parts[i]);
                law_first_faulty_segment_decides(earlier, earlier.len() as int);
            }
        } else {
            assert(forall|i: int| 0 <= i < earlier.len() ==> #[trigger] earlier[i] == parts[i]);
            law_first_faulty_segment_decides(earlier, earlier.len() as int);
            assert(token_fault(parts[parts.len() - 1]) is None);
        }
    }
}

/// The texts with the separator between them.
pub open spec fn joined(parts: Seq<Seq<char>>, separator: char) -> Seq<char>
    decreases parts.len(),
{
    if parts.len() == 0 {
        seq![]
    } else if parts.len() == 1 {
        parts[0]
    } else {
        joined(parts.drop_last(), separator).push(separator) + parts.last()
    }
}

/// Splitting loses nothing and splits at every separator: the segments, joined again, are
/// the text, and none of them holds the separator.
pub proof fn law_segments_join_back(s: Seq<char>, separator: char)
    ensures
        segments(s, separator).len() >= 1,
        joined(segments(s, separator), separator) == s,
        forall|i: int|
            0 <= i < segments(s, separator).len() ==> !(#[trigger] segments(
                s,
                separator,
            )[i]).contains(separator),
    decreases s.len(),
{
    let parts = segments(s, separator);
    if s.len() > 0 {
        let shorter = s.drop_last();
        let before = segments(shorter, separator);
        law_segments_join_back(shorter, separator);
        if s.last() == separator {
            assert(parts.drop_last() =~= before);
            assert(joined(parts, separator) =~= joined(before, separator).push(separator));
            assert(joined(parts, separator) =~= s);
            assert forall|i: int| 0 <= i < parts.len() implies !(#[trigger] parts[i]).contains(
                separator,
            ) by {
                if i < before.len() {
                    assert(parts[i] == before[i]);
                }
            }
        } else {
            let last = before.last().push(s.last());
            assert(parts.last() == last);
            assert(parts.drop_last() =~= before.drop_last());
            if before.len() > 1 {
                assert(joined(parts, separator) =~= joined(before, separator).push(s.last()));
            } else {
                assert(joined(parts, separator) =~= joined(before, separator).push(s.last()));
            }
            assert(joined(parts, separator) =~= s);
            assert forall|i: int| 0 <= i < parts.len() implies !(#[trigger] parts[i]).contains(
                separator,
            ) by {
                if i < before.len() - 1 {
                    assert(parts[i] == before[i]);
                } else {
                    assert(!before[before.len() - 1].contains(separator));
                    if last.contains(separator) {
                        let j = last.index_of(separator);
                        if j < before.last().len() {
                            assert(before.last()[j] == separator);
                        }
                    }
                }
            }
        }
    } else {
        assert(joined(parts, separator) =~= s);
    }
}

/// Splitting goes segment by segment: what stands behind a separator is split by itself.
pub proof fn law_segments_of_joined_texts(a: Seq<char>, b: Seq<char>, separator: char)
    ensures
        segments(a.push(separator) + b, separator) == segments(a, separator) + segments(
            b,
            separator,
        ),
    decreases b.len(),
{
    let whole = a.push(separator) + b;
    if b.len() == 0 {
        assert(whole =~= a.push(separator));
        assert(whole.drop_last() =~= a);
        assert(segments(whole, separator) =~= segments(a, separator) + segments(b, separator));
    } else {
        law_segments_of_joined_texts(a, b.drop_last(), separator);
        law_segments_join_back(b.drop_last(), separator);
        assert(whole.drop_last() =~= a.push(separator) + b.drop_last());
        let (x, y) = (segments(a, separator), segments(b.drop_last(), separator));
        assert((x + y).last() == y.last());
        assert((x + y).drop_last() =~= x + y.drop_last());
        assert(segments(whole, separator) =~= x + segments(b, separator));
    }
}

/// A text without the separator is one segment.
pub proof fn law_text_without_separator_is_one_segment(s: Seq<char>, separator: char)
    requires
        !s.contains(separator),
    ensures
        segments(s, separator) == seq![s],
    decreases s.len(),
{
    if s.len() > 0 {
        let shorter = s.drop_last();
        assert(!shorter.contains(separator)) by {
            if shorter.contains(separator) {
                let i = shorter.index_of(separator);
                assert(s[i] == separator);
            }
        }
        assert(s.contains(s[s.len() - 1]));
        law_text_without_separator_is_one_segment(shorter, separator);
        assert(shorter.push(s.last()) =~= s);
        assert(segments(s, separator) =~= seq![s]);
    } else {
        assert(s =~= Seq::<char>::empty());
        assert(segments(s, separator) =~= seq![s]);
    }
}

/// Different blobs have different places in the local store, and different locators have
/// different spools.
pub proof fn law_files_have_their_own_places(
    root: Seq<char>,
    namespace: Seq<char>,
    id: Seq<char>,
    other_namespace: Seq<char>,
    other_id: Seq<char>,
    hash: Seq<u8>,
    other_hash: Seq<u8>,
)
    requires
        token_fault(namespace) is None,
        token_fault(other_namespace) is None,
    ensures
        local_path_text(root, namespace, id) == local_path_text(root, other_namespace, other_id)
            ==> namespace == other_namespace && id == other_id,
        spool_path_text(root, hash) == spool_path_text(root, other_hash) ==> hash == other_hash,
{
    reveal_strlit("/");
    law_what_a_path_token_is(namespace);
    law_what_a_path_token_is(other_namespace);
    let (p, q) = (
        local_path_text(root, namespace, id),
        local_path_text(root, other_namespace, other_id),
    );
    let start = (root + "/storage/local/"@).len() as int;
    if p == q {
        let (x, y) = (p.skip(start), q.skip(start));
        assert(x =~= namespace.push('/') + id);
        assert(y =~= other_namespace.push('/') + other_id);
        if namespace.len() < other_namespace.len() {
            assert(x[namespace.len() as int] == '/');
            assert(other_namespace.contains(y[namespace.len() as int]));
        } else if other_namespace.len() < namespace.len() {
            assert(y[other_namespace.len() as int] == '/');
            assert(namespace.contains(x[other_namespace.len() as int]));
        }
        assert(namespace =~= x.take(namespace.len() as int));
        assert(other_namespace =~= y.take(namespace.len() as int));
        assert(id =~= x.skip(namespace.len() as int + 1));
        assert(other_id =~= y.skip(namespace.len() as int + 1));
    }
    let (s, t) = (spool_path_text(root, hash), spool_path_text(root, other_hash));
    if s == t {
        let from = (root + "/storage/outbound/"@).len() as int;
        assert(s.skip(from) =~= hex_text(hash));
        assert(t.skip(from) =~= hex_text(other_hash));
        lemma_hex_text_injective(hash, other_hash);
    }
}

/// An uploader is a public key: sixty-four lowercase hexadecimal digits, and nothing else.
pub proof fn law_what_an_uploader_is(uploader: Seq<char>)
    ensures
        uploader_fault(uploader) is None <==> uploader.len() == 64 && forall|i: int|
            0 <= i < uploader.len() ==> ('0' <= #[trigger] uploader[i] <= '9' || 'a' <= uploader[i]
                <= 'f'),
{
    law_what_a_path_token_is(uploader);
    assert(forall|c: char| #[trigger] is_hex_char(c) == ('0' <= c <= '9' || 'a' <= c <= 'f'));
    if uploader.len() == 64 && (forall|i: int|
        0 <= i < uploader.len() ==> ('0' <= #[trigger] uploader[i] <= '9' || 'a' <= uploader[i]
            <= 'f')) {
        assert(seq!['.'].len() == 1 && seq!['.', '.'].len() == 2);
        assert forall|c: char| c == '/' || c == '\\' || c == ':' || c == '\0' implies !uploader.contains(
            c,
        ) by {
            if uploader.contains(c) {
                let i = uploader.index_of(c);
                assert('0' <= uploader[i] <= '9' || 'a' <= uploader[i] <= 'f');
            }
        }
        assert(!uploader.contains('/') && !uploader.contains('\\') && !uploader.contains(':')
            && !uploader.contains('\0'));
    }
    if uploader_fault(uploader) is None {
        assert forall|i: int| 0 <= i < uploader.len() implies ('0' <= #[trigger] uploader[i] <= '9'
            || 'a' <= uploader[i] <= 'f') by {
            assert(is_hex_char(uploader[i]));
        }
    }
}

/// An identifier is quoted so that it is read back as it was: different names are different
/// identifiers.
pub proof fn law_quoted_identifiers_are_apart(a: Seq<char>, b: Seq<char>)
    requires
        quoted_ident(a) == quoted_ident(b),
    ensures
        a == b,
{
    let (x, y) = (quoted_ident(a), quoted_ident(b));
    assert(x.subrange(1, x.len() - 1) =~= doubled_quotes(a));
    assert(y.subrange(1, y.len() - 1) =~= doubled_quotes(b));
    lemma_doubled_quotes(a, b);
}

proof fn lemma_doubled_quotes(a: Seq<char>, b: Seq<char>)
    requires
        doubled_quotes(a) == doubled_quotes(b),
    ensures
        a == b,
    decreases a.len(),
{
    let (x, y) = (doubled_quotes(a), doubled_quotes(b));
    if a.len() == 0 {
        if b.len() > 0 {
            assert(y.len() > 0);
        }
        assert(a =~= b);
    } else if b.len() == 0 {
        assert(x.len() > 0);
    } else {
        assert(x.last() == a.last());
        assert(y.last() == b.last());
        if a.last() == '"' {
            assert(x.drop_last().drop_last() =~= doubled_quotes(a.drop_last()));
            assert(y.drop_last().drop_last() =~= doubled_quotes(b.drop_last()));
        } else {
            assert(x.drop_last() =~= doubled_quotes(a.drop_last()));
            assert(y.drop_last() =~= doubled_quotes(b.drop_last()));
        }
        lemma_doubled_quotes(a.drop_last(), b.drop_last());
        assert(a =~= a.drop_last().push(a.last()));
        assert(b =~= b.drop_last().push(b.last()));
    }
}

proof fn lemma_decimal_value(n: nat)
    ensures
        digits_value(decimal(n)) == n,
        decimal(n).len() > 0,
        forall|i: int| 0 <= i < decimal(n).len() ==> '0' <= #[trigger] decimal(n)[i] <= '9',
    decreases n,
{
    if n < 10 {
        assert(decimal(n).drop_last() =~= Seq::<char>::empty());
        assert(digits_value(decimal(n).drop_last()) == 0);
        assert(decimal(n).last() == digit_char(n));
    } else {
        lemma_decimal_value(n / 10);
        assert(decimal(n).drop_last() =~= decimal(n / 10));
        assert(decimal(n).last() == digit_char(n % 10));
        assert forall|i: int| 0 <= i < decimal(n).len() implies '0' <= #[trigger] decimal(n)[i] <= '9' by {
            if i < decimal(n / 10).len() {
                assert(decimal(n)[i] == decimal(n / 10)[i]);
            }
        }
    }
}

/// A whole number is read back from its numeral, below zero too.
pub proof fn law_numeral_is_read_back(n: i64)
    ensures
        integer_of(signed_decimal(n as int)) == Some(n as int),
{
    let text = signed_decimal(n as int);
    if n < 0 {
        let digits = decimal((-n) as nat);
        lemma_decimal_value((-n) as nat);
        assert(text[0] == '-');
        assert(text.skip(1) =~= digits);
    } else {
        lemma_decimal_value(n as nat);
        assert('0' <= text[0] <= '9');
    }
}

/// The wait after a failure: none before the first, half a minute after it, and after each
/// further one twice as long or the full hour.
pub proof fn law_each_failure_doubles_the_wait(failures: int)
    ensures
        failures <= 0 ==> backoff_seconds(failures) == 0,
        failures == 1 ==> backoff_seconds(failures) == 30,
        failures > 1 ==> backoff_seconds(failures) == (if 2 * backoff_seconds(failures - 1) <= 3600
            && backoff_seconds(failures - 1) < 3600 {
            2 * backoff_seconds(failures - 1)
        } else {
            3600
        }),
{
    vstd::arithmetic::power2::lemma2_to64();
    if failures > 1 {
        vstd::arithmetic::power2::lemma_pow2_unfold((failures - 1) as nat);
        let p = vstd::arithmetic::power2::pow2((failures - 2) as nat);
        assert(vstd::arithmetic::power2::pow2((failures - 1) as nat) == 2 * p);
        if p == 120 {
            lemma_no_power_is_120((failures - 2) as nat);
        }
    }
}

proof fn lemma_no_power_is_120(e: nat)
    ensures
        vstd::arithmetic::power2::pow2(e) != 120,
{
    vstd::arithmetic::power2::lemma2_to64();
    if e < 7 {
        if e < 6 {
            vstd::arithmetic::power2::lemma_pow2_strictly_increases(e, 6);
        }
    } else if e > 7 {
        vstd::arithmetic::power2::lemma_pow2_strictly_increases(7, e);
    }
}

/// An entry waits exactly until its wait has passed since its last attempt; one that was
/// never tried, and one whose recorded time cannot be read, does not wait.
pub proof fn law_entry_waits_out_its_backoff(
    attempt_count: int,
    last_attempt_at: Option<Seq<char>>,
    now: Instant,
)
    ensures
        in_backoff(attempt_count, last_attempt_at, now) == (last_attempt_at matches Some(text) && (
        rfc3339(text) matches Ok(at) && nanos_between(Instant { seconds: at.0, nanos: at.1 }, now)
            < backoff_seconds(attempt_count) * 1_000_000_000)),
{
}

/// The time between two instants is the difference of their clocks where neither falls into
/// a leap second, and it is the same in both directions but for its sign.
pub proof fn law_time_between_instants(earlier: Instant, later: Instant)
    ensures
        earlier.nanos < 1_000_000_000 && later.nanos < 1_000_000_000 ==> nanos_between(earlier, later)
            == (later.seconds * 1_000_000_000 + later.nanos) - (earlier.seconds * 1_000_000_000
            + earlier.nanos),
        nanos_between(later, earlier) == -nanos_between(earlier, later),
        nanos_between(earlier, earlier) == 0,
{
}

/// Two rows say the same only where all of their fields do, and name the same version of the
/// same blob where all of them do but where the bytes are.
pub proof fn law_rows_say_the_same(a: RowBlobRef, b: RowBlobRef)
    ensures
        a@ == b@ <==> is_same_version(a@, b@) && a.authority == b.authority && a@.stored
            == b@.stored,
        is_same_version(a@, b@) <==> {
            &&& a.table@ == b.table@
            &&& a.row_id@ == b.row_id@
            &&& a.row_stamp@ == b.row_stamp@
            &&& a.column@ == b.column@
            &&& a.blob@ == b.blob@
            &&& a.plaintext_size == b.plaintext_size
            &&& a.plaintext_hash == b.plaintext_hash
        },
        a@ == b@ ==> (a.stored is Some == b.stored is Some) && (a.stored is Some ==> a.stored->0@
            == b.stored->0@),
{
}

/// Two blobs are the same only where all of their fields are.
pub proof fn law_blobs_say_the_same(a: BlobRef, b: BlobRef)
    ensures
        a@ == b@ <==> {
            &&& a.namespace@ == b.namespace@
            &&& a.id@ == b.id@
            &&& a.scope@ == b.scope@
            &&& a.cloud_path is Some == b.cloud_path is Some
            &&& a.cloud_path is Some ==> a.cloud_path->0@ == b.cloud_path->0@
            &&& a.provenance == b.provenance
            &&& a.fill == b.fill
        },
{
}

/// Scopes are the same only where both are the whole store's, or both the same derived one.
pub proof fn law_scopes_say_the_same(a: BlobScope, b: BlobScope)
    ensures
        a@ == b@ <==> (a is Master && b is Master) || (a matches BlobScope::Derived(x)
            && b matches BlobScope::Derived(y) && x@ == y@),
{
}

/// Two queue entries say the same only where all of their fields do.
pub proof fn law_entries_say_the_same(a: OutboxEntry, b: OutboxEntry)
    requires
        a@ == b@,
    ensures
        a.id == b.id,
        a.attempt_count == b.attempt_count,
        a.last_attempt_at is Some == b.last_attempt_at is Some,
        a.last_attempt_at is Some ==> a.last_attempt_at->0@ == b.last_attempt_at->0@,
        match (a.operation, b.operation) {
            (
                OutboxOperation::Upload {
                    root_table: ta,
                    root_id: ia,
                    row: ra,
                    source_path: pa,
                    retain_pinned: ka,
                    state: sa,
                },
                OutboxOperation::Upload {
                    root_table: tb,
                    root_id: ib,
                    row: rb,
                    source_path: pb,
                    retain_pinned: kb,
                    state: sb,
                },
            ) => ta@ == tb@ && ia@ == ib@ && ra@ == rb@ && pa@ == pb@ && ka == kb && (match (sa, sb) {
                (OutboxUploadState::Pending, OutboxUploadState::Pending) => true,
                (
                    OutboxUploadState::Prepared { authority: x, stored: y, spool_path: z },
                    OutboxUploadState::Prepared { authority: u, stored: v, spool_path: w },
                ) => x == u && y@ == v@ && z@ == w@,
                (
                    OutboxUploadState::Created { authority: x, stored: y, spool_path: z },
                    OutboxUploadState::Created { authority: u, stored: v, spool_path: w },
                ) => x == u && y@ == v@ && z@ == w@,
                _ => false,
            }),
            (OutboxOperation::Delete { stored: x }, OutboxOperation::Delete { stored: y }) => x@ == y@,
            _ => false,
        },
{
}

/// Two stored blobs are the same only where both their locators and all of their objects'
/// fields are.
pub proof fn law_stored_blobs_say_the_same(a: StoredBlobRef, b: StoredBlobRef)
    ensures
        a@ == b@ <==> {
            &&& a.locator@ == b.locator@
            &&& a.object.logical_key@ == b.object.logical_key@
            &&& a.object.stored_size == b.object.stored_size
            &&& a.object.object_id == b.object.object_id
        },
{
}

/// What a locator says is every one of its fields.
pub proof fn law_locators_say_their_fields(locator: BlobLocator)
    ensures
        match locator {
            BlobLocator::Opaque {
                namespace,
                blob_id,
                uploader,
                audience,
                scope,
                key_fingerprint,
                semantic_key,
                plaintext_size,
                plaintext_hash,
            } => locator@ == (LocatorView::Opaque {
                namespace: namespace@,
                blob_id: blob_id@,
                uploader: uploader@,
                audience,
                scope: scope@,
                key_fingerprint,
                semantic_key: semantic_key@,
                plaintext_size,
                plaintext_hash,
            }),
            BlobLocator::Browsable {
                namespace,
                blob_id,
                uploader,
                cloud_path,
                semantic_key,
                plaintext_size,
                plaintext_hash,
            } => locator@ == (LocatorView::Browsable {
                namespace: namespace@,
                blob_id: blob_id@,
                uploader: uploader@,
                cloud_path: cloud_path@,
                semantic_key: semantic_key@,
                plaintext_size,
                plaintext_hash,
            }),
        },
{
}

/// A locator is sound exactly where its names can stand in a key and its key is made of
/// them: a sealed blob's key names the key that sealed it and partitions the blob by its id,
/// which has at least four characters; a readable one's names the path, which keeps clear of
/// the reserved folder, and the plaintext.
pub proof fn law_what_a_sound_locator_is(locator: LocatorView)
    ensures
        locator.fault() is None <==> {
            &&& token_fault(locator.namespace()) is None
            &&& uploader_fault(locator.uploader()) is None
            &&& token_fault(locator.blob_id()) is None
            &&& match locator {
                LocatorView::Opaque {
                    namespace,
                    blob_id,
                    uploader,
                    key_fingerprint,
                    semantic_key,
                    ..
                } => blob_id.len() >= 4 && semantic_key == namespace + "/opaque/"@ + uploader + "/"@
                    + hex_text(key_fingerprint@) + "/"@ + (blob_id.subrange(0, 2) + "/"@
                    + blob_id.subrange(2, 4) + "/"@ + blob_id),
                LocatorView::Browsable {
                    namespace,
                    blob_id,
                    uploader,
                    cloud_path,
                    semantic_key,
                    plaintext_hash,
                    ..
                } => first_fault(segments(cloud_path, '/')) is None && !segments(
                    cloud_path,
                    '/',
                ).contains(".coven-versions"@) && semantic_key == namespace + "/readable/"@
                    + cloud_path + "/.coven-versions/"@ + uploader + "/"@ + blob_id + "/"@ + hex_text(
                    plaintext_hash@,
                ),
            }
        },
{
}

/// A clock stamp is thirteen digits, four digits and the name of a device, with hyphens
/// between them; and nothing else is one.
pub proof fn law_what_a_stamp_is(s: Seq<char>, time: Seq<char>, counter: Seq<char>, device: Seq<char>)
    ensures
        ({
            let fits = time.len() == 13 && counter.len() == 4 && device.len() > 0 && (forall|i: int|
                0 <= i < 13 ==> '0' <= #[trigger] time[i] <= '9') && (forall|i: int|
                0 <= i < 4 ==> '0' <= #[trigger] counter[i] <= '9');
            fits ==> is_timestamp(time.push('-') + (counter.push('-') + device))
        }),
        is_timestamp(s) ==> s.len() > 19 && s == s.take(13).push('-') + (s.subrange(14, 18).push('-')
            + s.skip(19)) && (forall|i: int| 0 <= i < 13 ==> '0' <= #[trigger] s.take(13)[i] <= '9')
            && (forall|i: int| 0 <= i < 4 ==> '0' <= #[trigger] s.subrange(14, 18)[i] <= '9'),
{
    let built = time.push('-') + (counter.push('-') + device);
    if time.len() == 13 && counter.len() == 4 && device.len() > 0 && (forall|i: int|
        0 <= i < 13 ==> '0' <= #[trigger] time[i] <= '9') && (forall|i: int|
        0 <= i < 4 ==> '0' <= #[trigger] counter[i] <= '9') {
        assert forall|i: int| 0 <= i < 13 implies is_digit_char(#[trigger] built[i]) by {
            assert(built[i] == time[i]);
        }
        assert forall|i: int| 14 <= i < 18 implies is_digit_char(#[trigger] built[i]) by {
            assert(built[i] == counter[i - 14]);
        }
        assert(built[13] == '-' && built[18] == '-');
    }
    if is_timestamp(s) {
        assert(s =~= s.take(13).push('-') + (s.subrange(14, 18).push('-') + s.skip(19)));
        assert forall|i: int| 0 <= i < 13 implies '0' <= #[trigger] s.take(13)[i] <= '9' by {
            assert(is_digit_char(s[i]));
        }
        assert forall|i: int| 0 <= i < 4 implies '0' <= #[trigger] s.subrange(14, 18)[i] <= '9' by {
            assert(is_digit_char(s[14 + i]));
        }
    }
}

/// A location is sound exactly where its uploader can stand in a path, its object token is
/// sixty-four hexadecimal digits, and its version is a clock stamp.
pub proof fn law_what_a_sound_location_is(
    uploader: Seq<char>,
    generation: Seq<char>,
    version: Seq<char>,
)
    ensures
        location_fault(uploader, generation, version) is None <==> token_fault(uploader) is None
            && generation.len() == 64 && (forall|i: int|
            0 <= i < generation.len() ==> is_hex_char(#[trigger] generation[i])) && is_timestamp(
            version,
        ),
{
    law_what_a_path_token_is(generation);
    law_what_an_uploader_is(generation);
    if generation.len() == 64 && (forall|i: int|
        0 <= i < generation.len() ==> is_hex_char(#[trigger] generation[i])) {
        assert forall|i: int| 0 <= i < generation.len() implies ('0' <= #[trigger] generation[i]
            <= '9' || 'a' <= generation[i] <= 'f') by {
            assert(is_hex_char(generation[i]));
        }
    }
}

/// The copies of different locators, and of different namespaces, have different places in
/// both cache folders.
pub proof fn law_copies_have_their_own_places(
    root: Seq<char>,
    namespace: Seq<char>,
    hash: Seq<u8>,
    other_namespace: Seq<char>,
    other_hash: Seq<u8>,
)
    requires
        hash.len() == 32,
        other_hash.len() == 32,
    ensures
        cache_path_text(root, namespace, hash) == cache_path_text(root, other_namespace, other_hash)
            ==> namespace == other_namespace && hash == other_hash,
        pinned_path_text(root, namespace, hash) == pinned_path_text(
            root,
            other_namespace,
            other_hash,
        ) ==> namespace == other_namespace && hash == other_hash,
{
    reveal_strlit("/");
    let (x, y) = (hex_text(hash), hex_text(other_hash));
    assert(x.len() == 64 && y.len() == 64);
    let (p, q) = (
        cache_path_text(root, namespace, hash),
        cache_path_text(root, other_namespace, other_hash),
    );
    if p == q {
        let start = (root + "/storage/cache/"@).len() as int;
        assert(p.skip(p.len() - 64) =~= x);
        assert(q.skip(q.len() - 64) =~= y);
        lemma_hex_text_injective(hash, other_hash);
        assert(p.subrange(start, p.len() - 71) =~= namespace);
        assert(q.subrange(start, q.len() - 71) =~= other_namespace);
    }
    let (s, t) = (
        pinned_path_text(root, namespace, hash),
        pinned_path_text(root, other_namespace, other_hash),
    );
    if s == t {
        let start = (root + "/storage/pinned/"@).len() as int;
        assert(s.skip(s.len() - 64) =~= x);
        assert(t.skip(t.len() - 64) =~= y);
        lemma_hex_text_injective(hash, other_hash);
        assert(s.subrange(start, s.len() - 71) =~= namespace);
        assert(t.subrange(start, t.len() - 71) =~= other_namespace);
    }
}

} // verus!

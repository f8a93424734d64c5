//! What hashes, identifiers, names and envelopes keep of what they were made of.
use vstd::prelude::*;
use vstd::utf8::{encode_utf8, encode_utf8_decode_utf8};

use crate::hash::{sha256_text, DynHash, LogId, LogLeaf, RecordId};
use crate::protocol::{
    decoded_envelope, hash_texts, keep_present, leb128, package_log_bytes, package_log_id,
    package_record_id, present, push_leb128, record_digest, released_contents, texts,
    RecordEnvelope,
};
use crate::record::{ContentSource, ContentSourceKind, PackageRecordInfo, RecordState};

verus! {

/// A text is read as a hash exactly where it is `sha256:` and whole bytes in
/// lower-case hexadecimal, and the hash has that text.
pub proof fn law_hashes_keep_their_text(
    text: String,
    result: Option<DynHash>,
    hash: DynHash,
    back: &str,
)
    requires
        call_ensures(DynHash::parse, (text,), result),
        result == Some(hash) ==> call_ensures(DynHash::as_str, (&hash,), back),
    ensures
        result is Some <==> {
            &&& text@.len() >= 7
            &&& text@.take(7) == seq!['s', 'h', 'a', '2', '5', '6', ':']
            &&& text@.len() % 2 == 1
            &&& forall|i: int|
                7 <= i < text@.len() ==> ('0' <= #[trigger] text@[i] <= '9' || 'a' <= text@[i]
                    <= 'f')
        },
        result == Some(hash) ==> back@ == text@,
        call_requires(DynHash::parse, (text,)),
        call_requires(DynHash::as_str, (&hash,)),
{
    reveal_strlit("sha256:");
    assert("sha256:"@ =~= seq!['s', 'h', 'a', '2', '5', '6', ':']);
}

/// Two hashes are the same exactly where their texts are, and a copy is the same.
pub proof fn law_hashes_are_told_apart_by_text(
    a: DynHash,
    b: DynHash,
    a_text: &str,
    b_text: &str,
    same: bool,
    copy: DynHash,
    copied: &str,
)
    requires
        call_ensures(DynHash::as_str, (&a,), a_text),
        call_ensures(DynHash::as_str, (&b,), b_text),
        call_ensures(DynHash::same, (&a, &b), same),
        call_ensures(DynHash::clone, (&a,), copy),
        call_ensures(DynHash::as_str, (&copy,), copied),
    ensures
        same <==> a_text@ == b_text@,
        copied@ == a_text@,
        call_requires(DynHash::same, (&a, &b)),
        call_requires(DynHash::clone, (&a,)),
{
}

/// Identifiers have the text of the hash that they are made of, and so do their
/// copies.
pub proof fn law_identifiers_keep_their_hash(
    hash: DynHash,
    text: &str,
    log_id: LogId,
    log_copy: LogId,
    log_text: &str,
    record_id: RecordId,
    record_copy: RecordId,
    record_text: &str,
)
    requires
        call_ensures(DynHash::as_str, (&hash,), text),
        call_ensures(LogId::from_hash, (hash,), log_id),
        call_ensures(LogId::clone, (&log_id,), log_copy),
        call_ensures(LogId::as_str, (&log_copy,), log_text),
        call_ensures(RecordId::from_hash, (hash,), record_id),
        call_ensures(RecordId::clone, (&record_id,), record_copy),
        call_ensures(RecordId::as_str, (&record_copy,), record_text),
    ensures
        log_text@ == text@,
        record_text@ == text@,
        call_requires(LogId::from_hash, (hash,)),
        call_requires(LogId::as_str, (&log_id,)),
        call_requires(RecordId::from_hash, (hash,)),
        call_requires(RecordId::as_str, (&record_id,)),
{
}

/// A digest is that of all the bytes.
pub proof fn law_digests_are_of_all_bytes(bytes: &[u8], hash: DynHash, text: &str)
    requires
        call_ensures(DynHash::sha256, (bytes,), hash),
        call_ensures(DynHash::as_str, (&hash,), text),
    ensures
        text@ == sha256_text(bytes@),
        call_requires(DynHash::sha256, (bytes,)),
{
}

/// A state, a leaf and a source stand for what they say.
pub proof fn law_values_stand_for_what_they_say(
    state: RecordState,
    leaf: LogLeaf,
    source: ContentSource,
    info: PackageRecordInfo,
)
    ensures
        state is Unknown <==> state@ is Unknown,
        state is Processing <==> state@ is Processing,
        state is Published <==> state@ is Published,
        state is Rejected <==> state@ is Rejected,
        state matches RecordState::Published { checkpoint } ==> state@->checkpoint == *checkpoint,
        state matches RecordState::Rejected { reason } ==> state@->reason == reason@,
        leaf@ == (leaf.log_id@, leaf.record_id@),
        source@.content_digest == source.content_digest@,
        source@.kind->url == source.kind->url@,
        info@.record == info.record@,
        info@.state == info.state@,
        info@.content_sources.len() == info.content_sources@.len(),
        forall|i: int|
            0 <= i < info.content_sources@.len() ==> #[trigger] info@.content_sources[i]
                == info.content_sources@[i]@,
{
}

/// Copies say the same, and a state that nobody set is unknown.
pub proof fn law_copies_say_the_same(
    state: RecordState,
    state_copy: RecordState,
    leaf: LogLeaf,
    leaf_copy: LogLeaf,
    source: ContentSource,
    source_copy: ContentSource,
    kind: ContentSourceKind,
    kind_copy: ContentSourceKind,
    info: PackageRecordInfo,
    info_copy: PackageRecordInfo,
    unset: RecordState,
)
    requires
        call_ensures(RecordState::clone, (&state,), state_copy),
        call_ensures(LogLeaf::clone, (&leaf,), leaf_copy),
        call_ensures(ContentSource::clone, (&source,), source_copy),
        call_ensures(ContentSourceKind::clone, (&kind,), kind_copy),
        call_ensures(PackageRecordInfo::clone, (&info,), info_copy),
        call_ensures(RecordState::default, (), unset),
    ensures
        state_copy@ == state@,
        leaf_copy.log_id@ == leaf.log_id@ && leaf_copy.record_id@ == leaf.record_id@,
        source_copy.content_digest@ == source.content_digest@,
        source_copy.kind->url@ == source.kind->url@,
        kind_copy->url@ == kind->url@,
        info_copy.record@ == info.record@,
        info_copy.state@ == info.state@,
        info_copy@.content_sources == info@.content_sources,
        unset is Unknown,
{
    law_values_stand_for_what_they_say(state, leaf, source, info);
    law_values_stand_for_what_they_say(state_copy, leaf_copy, source_copy, info_copy);
}

/// The number that groups of seven bits make, the lowest first.
pub open spec fn number(groups: Seq<u8>) -> nat
    decreases groups.len(),
{
    if groups.len() == 0 {
        0
    } else {
        (groups[0] % 128) as nat + 128 * number(groups.skip(1))
    }
}

/// Whether `groups` are the shortest groups of seven bits that make `n`, with the
/// high bit set in all but the last.
pub open spec fn written(groups: Seq<u8>, n: nat) -> bool {
    &&& groups.len() > 0
    &&& number(groups) == n
    &&& forall|i: int| 0 <= i < groups.len() - 1 ==> #[trigger] groups[i] >= 128
    &&& groups.last() < 128
    &&& groups.len() > 1 ==> groups.last() > 0
}

/// A length is written in the shortest groups of seven bits from which it can be
/// read back.
pub proof fn law_lengths_are_read_back(n: nat)
    ensures
        written(leb128(n), n),
    decreases n,
{
    let groups = leb128(n);
    if n < 128 {
        assert(groups.skip(1) =~= Seq::empty());
        assert(number(groups.skip(1)) == 0);
        assert(groups[0] == n);
    } else {
        let rest = leb128(n / 128);
        law_lengths_are_read_back(n / 128);
        assert(groups.skip(1) =~= rest);
        assert(groups[0] == n % 128 + 128);
        assert(groups[0] % 128 == n % 128);
        assert(groups.last() == rest.last());
        assert forall|i: int| 0 <= i < groups.len() - 1 implies #[trigger] groups[i] >= 128 by {
            if i > 0 {
                assert(groups[i] == rest[i - 1]);
            }
        }
    }
}

/// To write a length behind some bytes changes none of them.
pub proof fn law_lengths_are_written_behind(bytes: &mut Vec<u8>, n: usize)
    requires
        call_ensures(push_leb128, (bytes, n), ()),
    ensures
        final(bytes)@.len() > old(bytes)@.len(),
        final(bytes)@.take(old(bytes)@.len() as int) == old(bytes)@,
        written(final(bytes)@.skip(old(bytes)@.len() as int), n as nat),
        call_requires(push_leb128, (bytes, n)),
{
    law_lengths_are_read_back(n as nat);
    assert(final(bytes)@.take(old(bytes)@.len() as int) =~= old(bytes)@);
    assert(final(bytes)@.skip(old(bytes)@.len() as int) =~= leb128(n as nat));
}

/// Groups that are written one behind another can be told apart.
proof fn lemma_written_once(
    a: Seq<u8>,
    a_rest: Seq<u8>,
    b: Seq<u8>,
    b_rest: Seq<u8>,
    m: nat,
    n: nat,
)
    requires
        written(a, m),
        written(b, n),
        a + a_rest == b + b_rest,
    ensures
        a == b,
        a_rest == b_rest,
{
    let all = a + a_rest;
    assert(all == b + b_rest);
    if a.len() < b.len() {
        assert(all[a.len() - 1] == a.last());
        assert((b + b_rest)[a.len() - 1] == b[a.len() - 1]);
    }
    if b.len() < a.len() {
        assert((b + b_rest)[b.len() - 1] == b.last());
        assert(all[b.len() - 1] == a[b.len() - 1]);
    }
    assert(a =~= all.take(a.len() as int));
    assert(b =~= (b + b_rest).take(b.len() as int));
    assert(a_rest =~= all.skip(a.len() as int));
    assert(b_rest =~= (b + b_rest).skip(b.len() as int));
}

/// The identifier of the log of a package is the digest of two fixed prefixes, the
/// length of the name in bytes and the whole name, whatever the name is.
pub proof fn law_log_ids_are_of_the_whole_name(name: &str, id: LogId)
    requires
        call_ensures(LogId::package_log, (name,), id),
    ensures
        id@ == package_log_id(name@),
        exists|length: Seq<u8>| #[trigger]
            written(length, encode_utf8(name@).len()) && package_log_id(name@) == sha256_text(
                encode_utf8("WARG-PACKAGE-LOG-ID-V0:WARG-PACKAGE-ID-V0"@) + length + encode_utf8(
                    name@,
                ),
            ),
        call_requires(LogId::package_log, (name,)),
{
    law_lengths_are_read_back(encode_utf8(name@).len());
}

/// Names that differ are digested as bytes that differ.
pub proof fn law_names_are_digested_apart(a: Seq<char>, b: Seq<char>)
    requires
        package_log_bytes(a) == package_log_bytes(b),
    ensures
        a == b,
{
    let prefix = encode_utf8("WARG-PACKAGE-LOG-ID-V0:WARG-PACKAGE-ID-V0"@);
    let (a_bytes, b_bytes) = (encode_utf8(a), encode_utf8(b));
    let (a_len, b_len) = (leb128(a_bytes.len()), leb128(b_bytes.len()));
    law_lengths_are_read_back(a_bytes.len());
    law_lengths_are_read_back(b_bytes.len());
    assert(package_log_bytes(a).skip(prefix.len() as int) =~= a_len + a_bytes);
    assert(package_log_bytes(b).skip(prefix.len() as int) =~= b_len + b_bytes);
    lemma_written_once(a_len, a_bytes, b_len, b_bytes, a_bytes.len(), b_bytes.len());
    encode_utf8_decode_utf8(a);
    encode_utf8_decode_utf8(b);
}

/// Whether `kept` are the values of `options` that are there, all of them and in
/// order: `positions` says where each comes from.
pub open spec fn kept_from(
    kept: Seq<Seq<char>>,
    options: Seq<Option<Seq<char>>>,
    positions: Seq<int>,
) -> bool {
    &&& positions.len() == kept.len()
    &&& forall|i: int|
        0 <= i < positions.len() ==> {
            &&& 0 <= #[trigger] positions[i] < options.len()
            &&& options[positions[i]] == Some(kept[i])
        }
    &&& forall|i: int, j: int|
        0 <= i < j < positions.len() ==> #[trigger] positions[i] < #[trigger] positions[j]
    &&& forall|k: int|
        0 <= k < options.len() && (#[trigger] options[k]) is Some ==> positions.contains(k)
}

/// What is there is kept, all of it and in order.
pub proof fn law_what_is_there_is_kept(options: Seq<Option<Seq<char>>>)
    ensures
        exists|positions: Seq<int>| #[trigger] kept_from(present(options), options, positions),
    decreases options.len(),
{
    reveal(Seq::filter);
    if options.len() == 0 {
        assert(present(options) =~= Seq::empty());
        assert(kept_from(present(options), options, Seq::empty()));
    } else {
        let shorter = options.drop_last();
        law_what_is_there_is_kept(shorter);
        let before = choose|positions: Seq<int>| #[trigger]
            kept_from(present(shorter), shorter, positions);
        let last = options.len() - 1;
        let positions = if options.last() is Some {
            before.push(last)
        } else {
            before
        };
        let kept = if options.last() is Some {
            present(shorter).push(options.last()->0)
        } else {
            present(shorter)
        };
        assert(present(options) =~= kept);
        assert forall|i: int| 0 <= i < positions.len() implies {
            &&& 0 <= #[trigger] positions[i] < options.len()
            &&& options[positions[i]] == Some(kept[i])
        } by {
            if i < before.len() {
                assert(positions[i] == before[i]);
                assert(shorter[before[i]] == Some(present(shorter)[i]));
            }
        }
        assert forall|i: int, j: int| 0 <= i < j < positions.len() implies #[trigger] positions[i]
            < #[trigger] positions[j] by {
            assert(positions[i] == before[i]);
            if j < before.len() {
                assert(positions[j] == before[j]);
            }
        }
        assert forall|k: int|
            0 <= k < options.len() && (#[trigger] options[k]) is Some implies positions.contains(
            k,
        ) by {
            if k < last {
                assert(shorter[k] is Some);
                let i = choose|i: int| 0 <= i < before.len() && before[i] == k;
                assert(positions[i] == k);
            } else {
                assert(positions[positions.len() - 1] == k);
            }
        }
        assert(kept_from(present(options), options, positions));
    }
}

/// Of hashes that may be missing, those that are there are kept, all of them and in
/// order.
pub proof fn law_hashes_that_are_there_are_kept(
    options: Vec<Option<String>>,
    hashes: Vec<DynHash>,
)
    requires
        call_ensures(keep_present, (options,), hashes),
        forall|i: int|
            0 <= i < options@.len() && (#[trigger] options@[i]) is Some
                ==> crate::hash::is_hash_text(options@[i]->0@),
    ensures
        exists|positions: Seq<int>|
            {
                &&& #[trigger] positions.len() == hashes@.len()
                &&& forall|i: int|
                    0 <= i < positions.len() ==> {
                        &&& 0 <= #[trigger] positions[i] < options@.len()
                        &&& options@[positions[i]] is Some
                        &&& options@[positions[i]]->0@ == hashes@[i]@
                    }
                &&& forall|i: int, j: int|
                    0 <= i < j < positions.len() ==> #[trigger] positions[i]
                        < #[trigger] positions[j]
                &&& forall|k: int|
                    0 <= k < options@.len() && (#[trigger] options@[k]) is Some
                        ==> positions.contains(k)
            },
        call_requires(keep_present, (options,)),
{
    let views = texts(options@);
    law_what_is_there_is_kept(views);
    let positions = choose|positions: Seq<int>| #[trigger]
        kept_from(present(views), views, positions);
    assert(hash_texts(hashes@) == present(views));
    assert forall|i: int| 0 <= i < positions.len() implies {
        &&& 0 <= #[trigger] positions[i] < options@.len()
        &&& options@[positions[i]] is Some
        &&& options@[positions[i]]->0@ == hashes@[i]@
    } by {
        assert(views[positions[i]] == Some(hash_texts(hashes@)[i]));
    }
    assert forall|k: int| 0 <= k < options@.len() && (#[trigger] options@[k]) is Some implies
        positions.contains(k) by {
        assert(views[k] is Some);
    }
    assert(positions.len() == hashes@.len());
}

/// A message is read as an envelope exactly where it is one, and why not is said
/// otherwise; the envelope keeps the message.
pub proof fn law_envelopes_keep_their_message(
    encoded: Vec<u8>,
    result: Result<RecordEnvelope, String>,
    envelope: RecordEnvelope,
    back: &Vec<u8>,
)
    requires
        call_ensures(RecordEnvelope::parse, (encoded,), result),
        result == Ok::<_, String>(envelope) ==> call_ensures(
            RecordEnvelope::encoded,
            (&envelope,),
            back,
        ),
    ensures
        result is Ok <==> decoded_envelope(encoded@) is Ok,
        result matches Err(reason) ==> reason@ == decoded_envelope(encoded@)->Err_0,
        result == Ok::<_, String>(envelope) ==> back@ == encoded@ && envelope@ == encoded@,
        call_requires(RecordEnvelope::parse, (encoded,)),
{
}

/// What is read off an envelope is what its message holds: the bytes of the record,
/// all of them; the digests of all contents that its entries release, in order; and
/// the digests of the bytes, with the prefix and without.
pub proof fn law_envelopes_say_what_is_in_them(
    envelope: RecordEnvelope,
    bytes: &Vec<u8>,
    contents: &Vec<DynHash>,
    id: RecordId,
    digest: DynHash,
)
    requires
        call_ensures(RecordEnvelope::content_bytes, (&envelope,), bytes),
        call_ensures(RecordEnvelope::contents, (&envelope,), contents),
        call_ensures(RecordEnvelope::record_id, (&envelope,), id),
        call_ensures(RecordEnvelope::digest, (&envelope,), digest),
    ensures
        ({
            let (content, entries) = decoded_envelope(envelope@)->Ok_0;
            &&& bytes@ == content
            &&& digest@ == sha256_text(content)
            &&& digest@ == record_digest(envelope@)
            &&& id@ == sha256_text(encode_utf8("WARG-PACKAGE-LOG-RECORD-V0:"@) + content)
            &&& id@ == package_record_id(envelope@)
            &&& contents@.len() == released_contents(envelope@).len()
            &&& forall|i: int|
                0 <= i < contents@.len() ==> (#[trigger] contents@[i])@ == released_contents(
                    envelope@,
                )[i]
            &&& exists|positions: Seq<int>| #[trigger]
                kept_from(released_contents(envelope@), entries, positions)
        }),
        call_requires(RecordEnvelope::encoded, (&envelope,)),
        call_requires(RecordEnvelope::content_bytes, (&envelope,)),
        call_requires(RecordEnvelope::contents, (&envelope,)),
        call_requires(RecordEnvelope::record_id, (&envelope,)),
        call_requires(RecordEnvelope::digest, (&envelope,)),
{
    law_what_is_there_is_kept(decoded_envelope(envelope@)->Ok_0.1);
    assert(hash_texts(contents@) == released_contents(envelope@));
    assert forall|i: int| 0 <= i < contents@.len() implies (#[trigger] contents@[i])@
        == released_contents(envelope@)[i] by {
        assert(hash_texts(contents@)[i] == contents@[i]@);
    }
}

/// What identifies a record is the digest of a fixed prefix and all of its bytes; its
/// digest is that of all of its bytes; and it releases all contents that its entries
/// name, in order.
pub proof fn law_records_are_known_by_their_bytes(encoded: Seq<u8>)
    ensures
        ({
            let (content, entries) = decoded_envelope(encoded)->Ok_0;
            &&& package_record_id(encoded) == sha256_text(
                encode_utf8("WARG-PACKAGE-LOG-RECORD-V0:"@) + content,
            )
            &&& record_digest(encoded) == sha256_text(content)
            &&& exists|positions: Seq<int>| #[trigger]
                kept_from(released_contents(encoded), entries, positions)
        }),
{
    let entries = decoded_envelope(encoded)->Ok_0.1;
    law_what_is_there_is_kept(entries);
    let positions = choose|positions: Seq<int>| #[trigger]
        kept_from(present(entries), entries, positions);
    assert(kept_from(released_contents(encoded), entries, positions));
}

} // verus!

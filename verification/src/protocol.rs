//! Package names, signed package records and the rules that a package log
//! follows.
use vstd::prelude::*;
use vstd::string::*;
use vstd::utf8::encode_utf8;
use warg_crypto::hash::Sha256;
use warg_protocol::package::{LogState, PackageRecord};
use warg_protocol::ProtoEnvelope;

use crate::hash::{is_hash_text, sha256_text, DynHash, LogId, RecordId};

verus! {

/// Whether `c` is a lower-case letter of ASCII.
pub open spec fn is_lower(c: char) -> bool {
    'a' <= c && c <= 'z'
}

/// Whether `c` is an upper-case letter of ASCII.
pub open spec fn is_upper(c: char) -> bool {
    'A' <= c && c <= 'Z'
}

/// Where the word of `s` begins that position `i` belongs to.
pub open spec fn word_start(s: Seq<char>, i: int) -> int
    decreases i,
{
    if i <= 0 || s[i - 1] == '-' {
        i
    } else {
        word_start(s, i - 1)
    }
}

/// Whether `s` is in kebab case: words joined by single hyphens, each of which
/// begins with a letter and goes on with letters of that case and digits.
pub open spec fn is_kebab(s: Seq<char>) -> bool {
    &&& s.len() > 0
    &&& s.last() != '-'
    &&& forall|i: int|
        0 <= i < s.len() ==> {
            let start = word_start(s, i);
            ||| is_lower(#[trigger] s[i]) && (i == start || is_lower(s[start]))
            ||| is_upper(s[i]) && (i == start || is_upper(s[start]))
            ||| ('0' <= s[i] && s[i] <= '9' || s[i] == '-') && i != start
        }
}

/// Whether `name` is a namespace and a name in kebab case, with a colon between
/// them.
pub open spec fn valid_package_id(name: Seq<char>) -> bool {
    exists|colon: int|
        0 <= colon < name.len() && #[trigger] name[colon] == ':' && is_kebab(name.take(colon))
            && is_kebab(name.skip(colon + 1))
}

/// `n` in groups of seven bits, the lowest first, each but the last with the high
/// bit set.
pub open spec fn leb128(n: nat) -> Seq<u8>
    decreases n,
{
    if n < 128 {
        seq![n as u8]
    } else {
        seq![(n % 128 + 128) as u8] + leb128(n / 128)
    }
}

/// The bytes of which the identifier of the log of the package `name` is the
/// digest: fixed prefixes, and the name with its length before it.
pub open spec fn package_log_bytes(name: Seq<char>) -> Seq<u8> {
    encode_utf8("WARG-PACKAGE-LOG-ID-V0:WARG-PACKAGE-ID-V0"@) + leb128(encode_utf8(name).len())
        + encode_utf8(name)
}

/// The identifier of the log of the package `name`, in textual form.
pub open spec fn package_log_id(name: Seq<char>) -> Seq<char> {
    sha256_text(package_log_bytes(name))
}

/// Calls `warg_protocol`'s `PackageId::new`. Claimed: it accepts `name` where that
/// is a namespace and a name in kebab case, and nowhere else.
#[verifier::external_body]
fn accepts_package_id(name: &str) -> (accepted: bool)
    ensures
        accepted == valid_package_id(name@),
{
    warg_protocol::registry::PackageId::new(name).is_ok()
}

/// Calls `warg_protocol`'s `LogId::package_log` for SHA-256, on the `PackageId`
/// made of `name`. Claimed: the identifier is the SHA-256 digest of fixed prefixes,
/// the length of the name and the name.
#[verifier::external_body]
fn package_log(name: &str) -> (text: String)
    requires
        valid_package_id(name@),
    ensures
        text@ == package_log_id(name@),
        is_hash_text(text@),
{
    let id = warg_protocol::registry::PackageId::new(name).unwrap();
    warg_protocol::registry::LogId::package_log::<Sha256>(&id).to_string()
}

/// Appends `n` to `bytes`, in groups of seven bits.
pub fn push_leb128(bytes: &mut Vec<u8>, n: usize)
    ensures
        final(bytes)@ == old(bytes)@ + leb128(n as nat),
{
    let mut rest: usize = n;
    while rest >= 128
        invariant
            bytes@ + leb128(rest as nat) == old(bytes)@ + leb128(n as nat),
        decreases rest,
    {
        let group: u8 = (rest % 128 + 128) as u8;
        let ghost before = bytes@;
        bytes.push(group);
        assert(before + leb128(rest as nat) =~= bytes@ + leb128((rest / 128) as nat));
        rest = rest / 128;
    }
    bytes.push(rest as u8);
    assert(bytes@ =~= old(bytes)@ + leb128(n as nat));
}

impl LogId {
    /// The identifier of the log of the package `name`. The protocol's own function
    /// takes names of the form `<namespace>:<name>` in kebab case; the identifiers
    /// of other names are made in the same way.
    pub fn package_log(name: &str) -> (id: LogId)
        ensures
            id@ == package_log_id(name@),
    {
        if accepts_package_id(name) {
            LogId::from_hash(DynHash::from_text(package_log(name)))
        } else {
            let prefix = "WARG-PACKAGE-LOG-ID-V0:WARG-PACKAGE-ID-V0";
            let text = name.as_bytes();
            let mut bytes: Vec<u8> = Vec::new();
            bytes.extend_from_slice(prefix.as_bytes());
            assert(bytes@ =~= encode_utf8(prefix@));
            push_leb128(&mut bytes, text.len());
            bytes.extend_from_slice(text);
            assert(bytes@ =~= package_log_bytes(name@));
            LogId::from_hash(DynHash::sha256(bytes.as_slice()))
        }
    }
}

/// What the protobuf message `encoded` holds, read as the envelope of a package
/// record: the bytes of the record, and for each entry of the record the digest
/// of the content that it releases, if it releases any. Or why it is no such
/// envelope.
pub uninterp spec fn decoded_envelope(encoded: Seq<u8>) -> Result<
    (Seq<u8>, Seq<Option<Seq<char>>>),
    Seq<char>,
>;

/// The texts of optional strings.
pub open spec fn texts(strings: Seq<Option<String>>) -> Seq<Option<Seq<char>>> {
    strings.map_values(
        |s: Option<String>|
            match s {
                Some(text) => Some(text@),
                None => None,
            },
    )
}

/// Calls `ProtoEnvelope::<PackageRecord>::from_protobuf`, and reads
/// `content_bytes` and each entry's `content` off the envelope. Claimed: all of
/// it, the message of the error too, depends on `encoded` alone, and every
/// digest is a hash text. (This is for systems whose clock type holds every
/// protobuf timestamp, as on Unix; elsewhere more timestamps are errors.)
#[verifier::external_body]
fn decode_envelope(encoded: &Vec<u8>) -> (result: Result<(Vec<u8>, Vec<Option<String>>), String>)
    ensures
        match result {
            Ok((content, entries)) => {
                &&& decoded_envelope(encoded@) == Ok::<_, Seq<char>>((content@, texts(entries@)))
                &&& forall|i: int|
                    0 <= i < entries@.len() && (#[trigger] entries@[i]) is Some ==> is_hash_text(
                        entries@[i]->0@,
                    )
            },
            Err(reason) => decoded_envelope(encoded@) == Err::<
                (Seq<u8>, Seq<Option<Seq<char>>>),
                _,
            >(reason@),
        },
{
    let envelope: ProtoEnvelope<PackageRecord> =
        ProtoEnvelope::from_protobuf(encoded.clone()).map_err(|error| error.to_string())?;
    let entries = envelope.as_ref().entries.iter();
    let contents = entries.map(|entry| entry.content().map(|digest| digest.to_string()));
    Ok((envelope.content_bytes().to_vec(), contents.collect()))
}

/// The bytes that go before those of a record where its identifier is made.
pub open spec fn record_id_prefix() -> Seq<u8> {
    encode_utf8("WARG-PACKAGE-LOG-RECORD-V0:"@)
}

/// The bytes of the record in the envelope `encoded`.
pub open spec fn record_content(encoded: Seq<u8>) -> Seq<u8> {
    decoded_envelope(encoded)->Ok_0.0
}

/// The digests of the contents that the record in the envelope `encoded`
/// releases, in the order of its entries.
pub open spec fn released_contents(encoded: Seq<u8>) -> Seq<Seq<char>> {
    present(decoded_envelope(encoded)->Ok_0.1)
}

/// The identifier of the record in the envelope `encoded`.
pub open spec fn package_record_id(encoded: Seq<u8>) -> Seq<char> {
    sha256_text(record_id_prefix() + record_content(encoded))
}

/// The digest of the record in the envelope `encoded`.
pub open spec fn record_digest(encoded: Seq<u8>) -> Seq<char> {
    sha256_text(record_content(encoded))
}

/// The values that are there, in order.
pub open spec fn present(options: Seq<Option<Seq<char>>>) -> Seq<Seq<char>> {
    options.filter(|o: Option<Seq<char>>| o is Some).map_values(|o: Option<Seq<char>>| o->0)
}

/// Calls `warg_protocol`'s `RecordId::package_record` for SHA-256, on the
/// envelope read from `encoded`. Claimed: the identifier is the SHA-256 digest of
/// a fixed prefix and the bytes of the record.
#[verifier::external_body]
fn record_id(encoded: &Vec<u8>) -> (text: String)
    requires
        decoded_envelope(encoded@) is Ok,
    ensures
        text@ == package_record_id(encoded@),
        is_hash_text(text@),
{
    let envelope: ProtoEnvelope<PackageRecord> =
        ProtoEnvelope::from_protobuf(encoded.clone()).unwrap();
    warg_protocol::registry::RecordId::package_record::<Sha256>(&envelope).to_string()
}

/// The texts of hashes.
pub open spec fn hash_texts(hashes: Seq<DynHash>) -> Seq<Seq<char>> {
    hashes.map_values(|hash: DynHash| hash@)
}

/// The values that are there, one more option considered.
proof fn lemma_present_step(options: Seq<Option<Seq<char>>>, i: int)
    requires
        0 <= i < options.len(),
    ensures
        present(options.take(i + 1)) == match options[i] {
            Some(value) => present(options.take(i)).push(value),
            None => present(options.take(i)),
        },
{
    let pred = |o: Option<Seq<char>>| o is Some;
    let longer = options.take(i + 1);
    assert(longer.drop_last() =~= options.take(i));
    assert(longer.last() == options[i]);
    reveal(Seq::filter);
    assert(present(longer) =~= match options[i] {
        Some(value) => present(options.take(i)).push(value),
        None => present(options.take(i)),
    });
}

/// The hashes that are there, in order.
pub fn keep_present(options: Vec<Option<String>>) -> (hashes: Vec<DynHash>)
    requires
        forall|i: int|
            0 <= i < options@.len() && (#[trigger] options@[i]) is Some ==> is_hash_text(
                options@[i]->0@,
            ),
    ensures
        hash_texts(hashes@) == present(texts(options@)),
{
    let mut hashes: Vec<DynHash> = Vec::new();
    let mut i: usize = 0;
    proof {
        reveal(Seq::filter);
        assert(hash_texts(hashes@) =~= present(texts(options@).take(0)));
    }
    while i < options.len()
        invariant
            i <= options@.len(),
            hash_texts(hashes@) == present(texts(options@).take(i as int)),
            forall|j: int|
                0 <= j < options@.len() && (#[trigger] options@[j]) is Some ==> is_hash_text(
                    options@[j]->0@,
                ),
        decreases options@.len() - i,
    {
        proof {
            lemma_present_step(texts(options@), i as int);
        }
        let ghost before = hashes@;
        if let Some(text) = &options[i] {
            let hash = DynHash::from_text(text.clone());
            hashes.push(hash);
            assert(hash_texts(hashes@) =~= hash_texts(before).push(text@));
        }
        i = i + 1;
    }
    assert(texts(options@).take(i as int) =~= texts(options@));
    hashes
}

/// The signed envelope of a package record.
#[derive(Debug, PartialEq, Eq)]
pub struct RecordEnvelope {
    encoded: Vec<u8>,
    content: Vec<u8>,
    contents: Vec<DynHash>,
}

impl View for RecordEnvelope {
    type V = Seq<u8>;

    closed spec fn view(&self) -> Seq<u8> {
        self.encoded@
    }
}

impl RecordEnvelope {
    #[verifier::type_invariant]
    spec fn valid(&self) -> bool {
        &&& decoded_envelope(self.encoded@) is Ok
        &&& self.content@ == record_content(self.encoded@)
        &&& hash_texts(self.contents@) == released_contents(self.encoded@)
    }

    /// Reads an envelope from its protobuf message. Says why where that is not
    /// possible.
    pub fn parse(encoded: Vec<u8>) -> (result: Result<RecordEnvelope, String>)
        ensures
            match result {
                Ok(envelope) => decoded_envelope(encoded@) is Ok && envelope@ == encoded@,
                Err(reason) => decoded_envelope(encoded@) == Err::<
                    (Seq<u8>, Seq<Option<Seq<char>>>),
                    _,
                >(reason@),
            },
    {
        match decode_envelope(&encoded) {
            Ok((content, entries)) => {
                let contents = keep_present(entries);
                Ok(RecordEnvelope { encoded, content, contents })
            },
            Err(reason) => Err(reason),
        }
    }

    /// The protobuf message.
    pub fn encoded(&self) -> (bytes: &Vec<u8>)
        ensures
            bytes@ == self@,
            decoded_envelope(bytes@) is Ok,
    {
        proof {
            use_type_invariant(self);
        }
        &self.encoded
    }

    /// The bytes of the record.
    pub fn content_bytes(&self) -> (bytes: &Vec<u8>)
        ensures
            bytes@ == record_content(self@),
    {
        proof {
            use_type_invariant(self);
        }
        &self.content
    }

    /// The digests of the contents that the record releases, in the order of its
    /// entries.
    pub fn contents(&self) -> (digests: &Vec<DynHash>)
        ensures
            hash_texts(digests@) == released_contents(self@),
    {
        proof {
            use_type_invariant(self);
        }
        &self.contents
    }

    /// The identifier of the record.
    pub fn record_id(&self) -> (id: RecordId)
        ensures
            id@ == package_record_id(self@),
    {
        proof {
            use_type_invariant(self);
        }
        RecordId::from_hash(DynHash::from_text(record_id(&self.encoded)))
    }

    /// The digest of the record.
    pub fn digest(&self) -> (hash: DynHash)
        ensures
            hash@ == record_digest(self@),
    {
        proof {
            use_type_invariant(self);
        }
        DynHash::sha256(self.content.as_slice())
    }
}

/// `warg_protocol`'s `LogState`: what the records of a package log add up to.
#[verifier::external_type_specification]
#[verifier::external_body]
pub struct ExLogState(warg_protocol::package::LogState);

/// The envelopes that `state` has taken in, in order, as protobuf messages.
pub uninterp spec fn validated(state: warg_protocol::package::LogState) -> Seq<Seq<u8>>;

/// What the rules of package logs say of the envelope `encoded` behind the
/// envelopes of `log`: that it may follow, or why not.
pub uninterp spec fn validation(log: Seq<Seq<u8>>, encoded: Seq<u8>) -> Result<(), Seq<char>>;

/// `LogState::clone`. Claimed: the copy has taken in the same envelopes.
pub assume_specification[ <warg_protocol::package::LogState as Clone>::clone ](
    state: &warg_protocol::package::LogState,
) -> (copy: warg_protocol::package::LogState)
    ensures
        validated(copy) == validated(*state),
;

/// `LogState::default`. Claimed: it has taken in nothing.
pub assume_specification[ <warg_protocol::package::LogState as Default>::default ]() -> (state:
    warg_protocol::package::LogState)
    ensures
        validated(state) == Seq::<Seq<u8>>::empty(),
;

/// Calls `LogState::validate` on the envelope read from `encoded`. Claimed: what
/// it says, the message of the error too, depends on that envelope and on those
/// taken in before, and an envelope that it finds valid is taken in. Of a state
/// that has refused an envelope nothing is claimed: it does not undo everything
/// that the refused record did.
#[verifier::external_body]
pub(crate) fn validate(state: &mut LogState, encoded: &Vec<u8>) -> (result: Result<(), String>)
    requires
        decoded_envelope(encoded@) is Ok,
    ensures
        match result {
            Ok(()) => {
                &&& validation(validated(*old(state)), encoded@) == Ok::<(), Seq<char>>(())
                &&& validated(*final(state)) == validated(*old(state)).push(encoded@)
            },
            Err(reason) => validation(validated(*old(state)), encoded@) == Err::<(), Seq<char>>(
                reason@,
            ),
        },
{
    let envelope: ProtoEnvelope<PackageRecord> =
        ProtoEnvelope::from_protobuf(encoded.clone()).unwrap();
    state.validate(&envelope).map_err(|error| error.to_string())
}

} // verus!

//! Identifiers and evidence hashes of incidents.

use std::collections::hash_map::DefaultHasher;
use std::hash::{Hash, Hasher};

use vstd::prelude::*;
use vstd::std_specs::hash::DefaultHasherAdditionalSpecFns;

use crate::byte_order;
use crate::byte_order::{to_bytes_in_order, ByteOrder};
use crate::digits;
use crate::digits::{write_decimal, write_hexadecimal};

verus! {

/// What `<str as std::hash::Hash>::hash` writes into a hasher, write by write.
pub uninterp spec fn str_hash_writes(text: Seq<char>) -> Seq<Seq<u8>>;

/// `<str as std::hash::Hash>::hash` feeds a string into a `DefaultHasher`: it adds writes that
/// depend on the string alone.
#[verifier::external_body]
fn feed_str(hasher: &mut DefaultHasher, text: &str)
    ensures
        final(hasher)@ == old(hasher)@ + str_hash_writes(text@),
{
    text.hash(hasher);
}

/// What is hashed for an event: a prefix, a source, and a time in milliseconds as the sixteen bytes
/// that a machine of the given byte order stores.
pub open spec fn event_digest(
    prefix: Seq<char>,
    source: Seq<char>,
    timestamp_ms: u128,
    order: ByteOrder,
) -> u64 {
    DefaultHasher::spec_finish(
        (str_hash_writes(prefix) + str_hash_writes(source)).push(
            byte_order::bytes_in_order(timestamp_ms, order),
        ),
    )
}

/// What is hashed as evidence: three strings.
pub open spec fn evidence_digest(
    primary: Seq<char>,
    secondary: Seq<char>,
    tertiary: Seq<char>,
) -> u64 {
    DefaultHasher::spec_finish(
        str_hash_writes(primary) + str_hash_writes(secondary) + str_hash_writes(tertiary),
    )
}

/// An event identifier: prefix, time and digest.
pub open spec fn event_id(prefix: Seq<char>, timestamp_ms: u128, digest: u64) -> Seq<char> {
    prefix + seq!['_'] + digits::decimal(timestamp_ms as nat) + seq!['_'] + digits::hexadecimal(
        digest as nat,
        16,
    )
}

/// An evidence hash: a label and the digest.
pub open spec fn evidence_text(digest: u64) -> Seq<char> {
    "sha256:"@ + digits::hexadecimal(digest as nat, 16)
}

/// The identifier of an event of a source at a time, on a machine of the given byte order.
pub open spec fn identifier(
    prefix: Seq<char>,
    source: Seq<char>,
    timestamp_ms: u128,
    order: ByteOrder,
) -> Seq<char> {
    event_id(prefix, timestamp_ms, event_digest(prefix, source, timestamp_ms, order))
}

/// The evidence hash of three texts.
pub open spec fn evidence(primary: Seq<char>, secondary: Seq<char>, tertiary: Seq<char>) -> Seq<
    char,
> {
    evidence_text(evidence_digest(primary, secondary, tertiary))
}

/// The identifier of an event whose digest is known.
pub fn format_event_id(prefix: &str, timestamp_ms: u128, digest: u64) -> (id: String)
    ensures
        id@ == event_id(prefix@, timestamp_ms, digest),
{
    let mut id = prefix.to_owned();
    id.push('_');
    id.append(write_decimal(timestamp_ms).as_str());
    id.push('_');
    id.append(write_hexadecimal(digest, 16).as_str());
    assert(id@ == event_id(prefix@, timestamp_ms, digest));
    id
}

/// The evidence hash of a digest.
pub fn format_evidence_hash(digest: u64) -> (text: String)
    ensures
        text@ == evidence_text(digest),
{
    let mut text = "sha256:".to_owned();
    text.append(write_hexadecimal(digest, 16).as_str());
    text
}

/// The identifier of an event, on a machine of the given byte order.
pub fn build_event_id(prefix: &str, source: &str, timestamp_ms: u128, order: ByteOrder) -> (id:
    String)
    ensures
        id@ == identifier(prefix@, source@, timestamp_ms, order),
{
    let mut hasher = DefaultHasher::new();
    feed_str(&mut hasher, prefix);
    feed_str(&mut hasher, source);
    let time = to_bytes_in_order(timestamp_ms, order);
    hasher.write(time.as_slice());
    assert(hasher@ == (str_hash_writes(prefix@) + str_hash_writes(source@)).push(time@));
    format_event_id(prefix, timestamp_ms, hasher.finish())
}

/// The evidence hash of three strings.
pub fn build_evidence_hash(primary: &str, secondary: &str, tertiary: &str) -> (text: String)
    ensures
        text@ == evidence(primary@, secondary@, tertiary@),
{
    let mut hasher = DefaultHasher::new();
    feed_str(&mut hasher, primary);
    feed_str(&mut hasher, secondary);
    feed_str(&mut hasher, tertiary);
    assert(hasher@ == str_hash_writes(primary@) + str_hash_writes(secondary@) + str_hash_writes(
        tertiary@,
    ));
    format_evidence_hash(hasher.finish())
}

/// An event identifier is the prefix, the time in decimal digits, and sixteen hexadecimal digits of
/// a hash of the prefix, the source and the bytes of the time, with underscores between them.
pub proof fn lemma_identifier(
    prefix: Seq<char>,
    source: Seq<char>,
    timestamp_ms: u128,
    order: ByteOrder,
)
    ensures
        identifier(prefix, source, timestamp_ms, order) == prefix + seq!['_'] + digits::decimal(
            timestamp_ms as nat,
        ) + seq!['_'] + digits::hexadecimal(
            DefaultHasher::spec_finish(
                (str_hash_writes(prefix) + str_hash_writes(source)).push(
                    byte_order::bytes_in_order(timestamp_ms, order),
                ),
            ) as nat,
            16,
        ),
{
}

/// An evidence hash is sixteen hexadecimal digits of a hash of three texts in their order, behind
/// `sha256:`.
pub proof fn lemma_evidence(primary: Seq<char>, secondary: Seq<char>, tertiary: Seq<char>)
    ensures
        evidence(primary, secondary, tertiary) == "sha256:"@ + digits::hexadecimal(
            DefaultHasher::spec_finish(
                str_hash_writes(primary) + str_hash_writes(secondary) + str_hash_writes(tertiary),
            ) as nat,
            16,
        ),
{
}

/// An identifier and an evidence hash are written from their parts alone.
pub proof fn lemma_written_digests(prefix: Seq<char>, timestamp_ms: u128, digest: u64)
    ensures
        event_id(prefix, timestamp_ms, digest) == prefix + seq!['_'] + digits::decimal(
            timestamp_ms as nat,
        ) + seq!['_'] + digits::hexadecimal(digest as nat, 16),
        evidence_text(digest) == "sha256:"@ + digits::hexadecimal(digest as nat, 16),
{
}

} // verus!

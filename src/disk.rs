//! The store file and its codec.
//!
//! A file is a 28-byte header (signature 4, salt 12, last update 8, record
//! count 4) and a body (nonce 12, tag 16, ciphertext length 8, ciphertext).
//! Integers are little-endian. The plaintext under the ciphertext is the
//! records one after another, each preceded by its length in 8 bytes; the
//! last update and the record count, as they stand in the header, are the
//! associated data.

use vstd::bytes::*;
use vstd::prelude::*;
use vstd::slice::*;

use crate::encryption::{
    aes_gcm_opened, aes_gcm_seal, aes_gcm_sealed, decrypt_in_place, random_nonce, PLAINTEXT_MAX,
};
use crate::model::Timestamp;
use crate::secrets::AesKeyValue;

verus! {

broadcast use vstd::seq::group_seq_axioms;

/// Length of the key derivation salt kept in the header.
pub const SALT_LEN: usize = 12;

/// Length of the fixed-size header: signature, salt, last update, record count.
pub const HEADER_LEN: usize = 28;

/// First bytes of every store file: "MEF" and the format version.
pub const FILE_SIGNATURE: [u8; 4] = [77u8, 69u8, 70u8, 1u8];

/// What the header of a store file holds.
pub struct StoreHeader {
    pub salt: Seq<u8>,
    pub last_updated: i64,
    pub record_count: u32,
}

/// The bytes of `FILE_SIGNATURE`.
pub open spec fn signature() -> Seq<u8> {
    seq![77u8, 69u8, 70u8, 1u8]
}

/// The bytes that bind the header to the sealed body.
pub open spec fn associated_data_of(last_updated: i64, record_count: u32) -> Seq<u8> {
    spec_u64_to_le_bytes(last_updated as u64) + spec_u32_to_le_bytes(record_count)
}

/// The header bytes that hold `h`.
pub open spec fn header_image(h: StoreHeader) -> Seq<u8> {
    signature() + h.salt + associated_data_of(h.last_updated, h.record_count)
}

/// The header that a file starts with, if it starts with one.
pub open spec fn parse_header(bytes: Seq<u8>) -> Option<StoreHeader> {
    if bytes.len() >= HEADER_LEN && bytes.subrange(0, 4) == signature() {
        Some(
            StoreHeader {
                salt: bytes.subrange(4, 16),
                last_updated: spec_u64_from_le_bytes(bytes.subrange(16, 24)) as i64,
                record_count: spec_u32_from_le_bytes(bytes.subrange(24, 28)),
            },
        )
    } else {
        None
    }
}

/// Length of the body's fixed part: nonce, tag and ciphertext length.
pub const BODY_PREFIX_LEN: usize = 36;

/// The body of a store file: nonce, tag, ciphertext length, ciphertext.
pub open spec fn body_image(nonce: Seq<u8>, tag: Seq<u8>, ciphertext: Seq<u8>) -> Seq<u8> {
    nonce + tag + spec_u64_to_le_bytes(ciphertext.len() as u64) + ciphertext
}

/// Nonce, tag and ciphertext of a body, if it has that shape and its
/// ciphertext is as long as it says.
pub open spec fn parse_body(body: Seq<u8>) -> Option<(Seq<u8>, Seq<u8>, Seq<u8>)> {
    if body.len() >= BODY_PREFIX_LEN && spec_u64_from_le_bytes(body.subrange(28, 36)) as int
        == body.len() - BODY_PREFIX_LEN {
        Some((body.subrange(0, 12), body.subrange(12, 28), body.subrange(36, body.len() as int)))
    } else {
        None
    }
}

/// The body of a store file: everything after the header.
pub open spec fn body_of(bytes: Seq<u8>) -> Seq<u8> {
    bytes.subrange(HEADER_LEN as int, bytes.len() as int)
}

/// The header that saving `count` records at time `now` writes into a store
/// with this salt.
pub open spec fn saved_header(salt: Seq<u8>, now: i64, count: nat) -> StoreHeader {
    StoreHeader { salt: salt, last_updated: now, record_count: count as u32 }
}

/// The file that holds `recs` sealed under `key` and `nonce`, with header `h`.
pub open spec fn sealed_image(h: StoreHeader, recs: Seq<Seq<u8>>, key: Seq<u8>, nonce: Seq<u8>) -> Seq<u8> {
    let sealed = aes_gcm_sealed(
        key,
        nonce,
        associated_data_of(h.last_updated, h.record_count),
        frame_records(recs),
    );
    header_image(h) + body_image(nonce, sealed.1, sealed.0)
}

/// Records that a header can count and whose plaintext AES-GCM can seal.
pub open spec fn records_storable(recs: Seq<Seq<u8>>) -> bool {
    recs.len() <= u32::MAX && frame_records(recs).len() <= PLAINTEXT_MAX
}

/// `bytes` is a store file that holds `recs` sealed under `key`, for a store
/// with this salt, at some time and with some nonce.
pub open spec fn is_saved_file(bytes: Seq<u8>, salt: Seq<u8>, recs: Seq<Seq<u8>>, key: Seq<u8>) -> bool {
    exists|now: i64, nonce: Seq<u8>|
        #![trigger sealed_image(saved_header(salt, now, recs.len()), recs, key, nonce)]
        nonce.len() == 12 && bytes == sealed_image(saved_header(salt, now, recs.len()), recs, key, nonce)
            && sealed_fits(saved_header(salt, now, recs.len()), recs, key, nonce)
}

/// Sealing these records for header `h` gave a 16-byte tag and a ciphertext
/// as long as the plaintext.
pub open spec fn sealed_fits(h: StoreHeader, recs: Seq<Seq<u8>>, key: Seq<u8>, nonce: Seq<u8>) -> bool {
    let sealed = aes_gcm_sealed(
        key,
        nonce,
        associated_data_of(h.last_updated, h.record_count),
        frame_records(recs),
    );
    sealed.1.len() == 16 && sealed.0.len() == frame_records(recs).len()
}

/// What loading a store with header `h` from `bytes` under `key` gives:
/// the records, or `None` for a decoding error.
pub open spec fn load_spec(h: StoreHeader, bytes: Seq<u8>, key: Seq<u8>) -> Option<Seq<Seq<u8>>> {
    if h.record_count == 0 {
        Some(Seq::empty())
    } else if bytes.len() < HEADER_LEN {
        None
    } else {
        match parse_body(body_of(bytes)) {
            None => None,
            Some(parts) => match aes_gcm_opened(
                key,
                parts.0,
                associated_data_of(h.last_updated, h.record_count),
                parts.2,
                parts.1,
            ) {
                None => None,
                Some(plain) => records_of_plaintext(h, plain),
            },
        }
    }
}

/// The records of a plaintext, if it splits into as many as the header says.
pub open spec fn records_of_plaintext(h: StoreHeader, plain: Seq<u8>) -> Option<Seq<Seq<u8>>> {
    match split_frames(plain) {
        Some(recs) => if recs.len() == h.record_count {
            Some(recs)
        } else {
            None
        },
        None => None,
    }
}

proof fn lemma_i64_bits(x: i64)
    ensures
        (x as u64) as i64 == x,
{
    assert((x as u64) as i64 == x) by (bit_vector);
}

/// A header reads back as it was written, whatever follows it.
pub proof fn lemma_header_round_trip(h: StoreHeader, rest: Seq<u8>)
    requires
        h.salt.len() == SALT_LEN,
    ensures
        parse_header(header_image(h) + rest) == Some(h),
{
    lemma_auto_spec_u64_to_from_le_bytes();
    lemma_auto_spec_u32_to_from_le_bytes();
    lemma_i64_bits(h.last_updated);
    let b = header_image(h) + rest;
    assert(b.subrange(0, 4) =~= signature());
    assert(b.subrange(4, 16) =~= h.salt);
    assert(b.subrange(16, 24) =~= spec_u64_to_le_bytes(h.last_updated as u64));
    assert(b.subrange(24, 28) =~= spec_u32_to_le_bytes(h.record_count));
    assert(parse_header(b).unwrap() == h);
}

/// A body reads back as it was written.
pub proof fn lemma_body_round_trip(nonce: Seq<u8>, tag: Seq<u8>, ciphertext: Seq<u8>)
    requires
        nonce.len() == 12,
        tag.len() == 16,
        ciphertext.len() <= u64::MAX,
    ensures
        parse_body(body_image(nonce, tag, ciphertext)) == Some((nonce, tag, ciphertext)),
{
    lemma_auto_spec_u64_to_from_le_bytes();
    let b = body_image(nonce, tag, ciphertext);
    assert(b.subrange(28, 36) =~= spec_u64_to_le_bytes(ciphertext.len() as u64));
    assert(b.subrange(0, 12) =~= nonce);
    assert(b.subrange(12, 28) =~= tag);
    assert(b.subrange(36, b.len() as int) =~= ciphertext);
}

/// A sealed store file starts with its header and holds the nonce, tag and
/// ciphertext that sealing gave.
pub proof fn lemma_sealed_image_parts(h: StoreHeader, recs: Seq<Seq<u8>>, key: Seq<u8>, nonce: Seq<u8>)
    requires
        h.salt.len() == SALT_LEN,
        nonce.len() == 12,
        sealed_fits(h, recs, key, nonce),
        frame_records(recs).len() <= PLAINTEXT_MAX,
    ensures
        ({
            let img = sealed_image(h, recs, key, nonce);
            let sealed = aes_gcm_sealed(
                key,
                nonce,
                associated_data_of(h.last_updated, h.record_count),
                frame_records(recs),
            );
            &&& img.len() >= HEADER_LEN
            &&& parse_header(img) == Some(h)
            &&& parse_body(body_of(img)) == Some((nonce, sealed.1, sealed.0))
        }),
{
    lemma_auto_spec_u64_to_from_le_bytes();
    lemma_auto_spec_u32_to_from_le_bytes();
    let sealed = aes_gcm_sealed(
        key,
        nonce,
        associated_data_of(h.last_updated, h.record_count),
        frame_records(recs),
    );
    let body = body_image(nonce, sealed.1, sealed.0);
    lemma_header_round_trip(h, body);
    lemma_body_round_trip(nonce, sealed.1, sealed.0);
    let img = sealed_image(h, recs, key, nonce);
    assert(header_image(h).len() == HEADER_LEN);
    assert(body_of(img) =~= body);
}

/// A file that saving `recs` wrote, read back with its own header `h`, holds
/// as many records as `h` counts and is `recs` sealed for `h` with some nonce.
pub proof fn lemma_saved_file_parts(bytes: Seq<u8>, h: StoreHeader, recs: Seq<Seq<u8>>, key: Seq<u8>) -> (nonce: Seq<u8>)
    requires
        is_saved_file(bytes, h.salt, recs, key),
        parse_header(bytes) == Some(h),
        records_storable(recs),
    ensures
        recs.len() == h.record_count,
        nonce.len() == 12,
        sealed_fits(h, recs, key, nonce),
        bytes == sealed_image(h, recs, key, nonce),
{
    let (now, nonce) = choose|now: i64, nonce: Seq<u8>|
        #![trigger sealed_image(saved_header(h.salt, now, recs.len()), recs, key, nonce)]
        nonce.len() == 12 && bytes == sealed_image(saved_header(h.salt, now, recs.len()), recs, key, nonce)
            && sealed_fits(saved_header(h.salt, now, recs.len()), recs, key, nonce);
    let saved = saved_header(h.salt, now, recs.len());
    assert(h.salt.len() == SALT_LEN);
    lemma_sealed_image_parts(saved, recs, key, nonce);
    assert(saved == h);
    nonce
}

/// Reading a header looks at the first `HEADER_LEN` bytes only: two files
/// that share them read the same header, and a valid header is read whatever
/// body follows it.
pub proof fn lemma_header_read_ignores_body(a: Seq<u8>, b: Seq<u8>)
    requires
        a.len() >= HEADER_LEN,
        b.len() >= HEADER_LEN,
        a.subrange(0, HEADER_LEN as int) == b.subrange(0, HEADER_LEN as int),
    ensures
        parse_header(a) == parse_header(b),
{
    let ha = a.subrange(0, HEADER_LEN as int);
    assert(a.subrange(0, 4) =~= ha.subrange(0, 4));
    assert(b.subrange(0, 4) =~= ha.subrange(0, 4));
    assert(a.subrange(4, 16) =~= b.subrange(4, 16)) by {
        assert(a.subrange(4, 16) =~= ha.subrange(4, 16));
        assert(b.subrange(4, 16) =~= ha.subrange(4, 16));
    }
    assert(a.subrange(16, 24) =~= b.subrange(16, 24)) by {
        assert(a.subrange(16, 24) =~= ha.subrange(16, 24));
        assert(b.subrange(16, 24) =~= ha.subrange(16, 24));
    }
    assert(a.subrange(24, 28) =~= b.subrange(24, 28)) by {
        assert(a.subrange(24, 28) =~= ha.subrange(24, 28));
        assert(b.subrange(24, 28) =~= ha.subrange(24, 28));
    }
}

/// A store that counts no records loads as empty, whatever its file holds
/// after the header and whatever the key: the body is never read.
pub proof fn lemma_empty_store_loads_nothing(h: StoreHeader, a: Seq<u8>, b: Seq<u8>, key_a: Seq<u8>, key_b: Seq<u8>)
    requires
        h.record_count == 0,
    ensures
        load_spec(h, a, key_a) == Some(Seq::<Seq<u8>>::empty()),
        load_spec(h, a, key_a) == load_spec(h, b, key_b),
{
}

/// The associated data determines the last update and the record count: a
/// change to either header field changes what the body is opened with.
pub proof fn lemma_associated_data_binds(t1: i64, c1: u32, t2: i64, c2: u32)
    requires
        associated_data_of(t1, c1) == associated_data_of(t2, c2),
    ensures
        t1 == t2,
        c1 == c2,
{
    lemma_auto_spec_u64_to_from_le_bytes();
    lemma_auto_spec_u32_to_from_le_bytes();
    lemma_i64_bits(t1);
    lemma_i64_bits(t2);
    let a1 = associated_data_of(t1, c1);
    let a2 = associated_data_of(t2, c2);
    assert(a1.subrange(0, 8) =~= spec_u64_to_le_bytes(t1 as u64));
    assert(a2.subrange(0, 8) =~= spec_u64_to_le_bytes(t2 as u64));
    assert(a1.subrange(8, 12) =~= spec_u32_to_le_bytes(c1));
    assert(a2.subrange(8, 12) =~= spec_u32_to_le_bytes(c2));
}

/// One record in the plaintext: its length as eight little-endian bytes, then its bytes.
pub open spec fn frame_of(rec: Seq<u8>) -> Seq<u8> {
    spec_u64_to_le_bytes(rec.len() as u64) + rec
}

/// The plaintext that holds these records, in order.
pub open spec fn frame_records(recs: Seq<Seq<u8>>) -> Seq<u8>
    decreases recs.len(),
{
    if recs.len() == 0 {
        Seq::empty()
    } else {
        frame_of(recs[0]) + frame_records(recs.drop_first())
    }
}

/// Every record is short enough for its length prefix.
pub open spec fn records_fit(recs: Seq<Seq<u8>>) -> bool {
    forall|i: int| 0 <= i < recs.len() ==> #[trigger] recs[i].len() <= u64::MAX
}

/// The records that a plaintext holds, if it splits into whole records.
pub open spec fn split_frames(bytes: Seq<u8>) -> Option<Seq<Seq<u8>>>
    decreases bytes.len(),
{
    if bytes.len() == 0 {
        Some(Seq::empty())
    } else if bytes.len() < 8 {
        None
    } else {
        let n = spec_u64_from_le_bytes(bytes.subrange(0, 8)) as int;
        if n > bytes.len() - 8 {
            None
        } else {
            match split_frames(bytes.subrange(8 + n, bytes.len() as int)) {
                Some(rest) => Some(seq![bytes.subrange(8, 8 + n)].add(rest)),
                None => None,
            }
        }
    }
}

/// The byte contents of a list of records.
pub open spec fn records_view(v: Seq<Vec<u8>>) -> Seq<Seq<u8>> {
    v.map_values(|r: Vec<u8>| r@)
}

proof fn lemma_frame_records_push(recs: Seq<Seq<u8>>, rec: Seq<u8>)
    ensures
        frame_records(recs.push(rec)) == frame_records(recs) + frame_of(rec),
    decreases recs.len(),
{
    if recs.len() == 0 {
        let one = recs.push(rec);
        assert(one.drop_first() =~= Seq::<Seq<u8>>::empty());
        assert(one[0] == rec);
        assert(frame_records(one.drop_first()) == Seq::<u8>::empty());
        assert(frame_records(one) =~= frame_of(rec));
        assert(frame_records(recs) == Seq::<u8>::empty());
    } else {
        assert(recs.push(rec).drop_first() =~= recs.drop_first().push(rec));
        lemma_frame_records_push(recs.drop_first(), rec);
        assert(frame_records(recs.push(rec)) =~= frame_records(recs) + frame_of(rec));
    }
}

/// Splitting the plaintext of a list of records gives that list back.
pub proof fn lemma_split_frame_records(recs: Seq<Seq<u8>>)
    requires
        records_fit(recs),
    ensures
        split_frames(frame_records(recs)) == Some(recs),
    decreases recs.len(),
{
    if recs.len() == 0 {
        assert(split_frames(frame_records(recs)) == Some(recs));
    } else {
        let r0 = recs[0];
        let rest = recs.drop_first();
        assert(records_fit(rest)) by {
            assert forall|i: int| 0 <= i < rest.len() implies #[trigger] rest[i].len()
                <= u64::MAX by {
                assert(rest[i] == recs[i + 1]);
            }
        }
        lemma_split_frame_records(rest);
        lemma_auto_spec_u64_to_from_le_bytes();
        let b = frame_records(recs);
        let len_bytes = spec_u64_to_le_bytes(r0.len() as u64);
        assert(r0.len() <= u64::MAX);
        assert(b =~= len_bytes + r0 + frame_records(rest));
        assert(b.subrange(0, 8) =~= len_bytes);
        let n = r0.len() as int;
        assert(spec_u64_from_le_bytes(b.subrange(0, 8)) as int == n);
        assert(b.subrange(8, 8 + n) =~= r0);
        assert(b.subrange(8 + n, b.len() as int) =~= frame_records(rest));
        assert(seq![r0].add(rest) =~= recs);
    }
}

/// An I/O failure met while reading or writing the store file.
#[verifier::external_type_specification]
#[verifier::external_body]
pub struct ExIoError(std::io::Error);

/// Why an operation on the store failed.
#[derive(Debug)]
pub enum DBError {
    /// No store file exists at the path.
    FileNotFound(String),
    /// The file does not start with a store header.
    IncorrectFileFormat,
    /// The records could not be sealed.
    EncodingError,
    /// The body could not be read, opened or split into records.
    DecodingError,
    /// The file system failed.
    IOError(std::io::Error),
}

/// A store: where its file lives and what its header says. Reading the
/// header never touches the sealed body.
pub struct Database {
    pub path: String,
    pub key_derivation_salt: [u8; 12],
    pub last_update: Timestamp,
    pub records_count: u32,
}

impl View for Database {
    type V = StoreHeader;

    open spec fn view(&self) -> StoreHeader {
        StoreHeader {
            salt: self.key_derivation_salt@,
            last_updated: self.last_update.unix_micros,
            record_count: self.records_count,
        }
    }
}

/// Appends `b` to `out`.
fn append_bytes(out: &mut Vec<u8>, b: &[u8])
    ensures
        final(out)@ == old(out)@ + b@,
{
    let ghost start = out@;
    let mut i: usize = 0;
    while i < b.len()
        invariant
            i <= b@.len(),
            out@ == start + b@.subrange(0, i as int),
        decreases b@.len() - i,
    {
        out.push(b[i]);
        i = i + 1;
        assert(out@ =~= start + b@.subrange(0, i as int));
    }
    assert(b@.subrange(0, b@.len() as int) =~= b@);
}

/// The `N` bytes of `b` from `start` on.
pub(crate) fn read_array<const N: usize>(b: &[u8], start: usize) -> (r: [u8; N])
    requires
        start + N <= b@.len(),
    ensures
        r@ == b@.subrange(start as int, start + N),
{
    let mut r = [0u8; N];
    let total = b.len();
    let mut i: usize = 0;
    while i < N
        invariant
            i <= N,
            total == b@.len(),
            start + N <= b@.len(),
            r@.len() == N,
            forall|k: int| 0 <= k < i ==> r@[k] == b@[start + k],
        decreases N - i,
    {
        r[i] = b[start + i];
        i = i + 1;
    }
    assert(r@ =~= b@.subrange(start as int, start + N));
    r
}

/// Nonce, tag and ciphertext of the body of a store file.
pub fn read_body(contents: &[u8]) -> (r: Option<([u8; 12], [u8; 16], Vec<u8>)>)
    ensures
        contents@.len() < HEADER_LEN ==> r is None,
        contents@.len() >= HEADER_LEN ==> match parse_body(body_of(contents@)) {
            Some(parts) => r matches Some(found) && found.0@ == parts.0 && found.1@ == parts.1
                && found.2@ == parts.2,
            None => r is None,
        },
{
    if contents.len() < HEADER_LEN + BODY_PREFIX_LEN {
        return None;
    }
    let body = slice_subrange(contents, HEADER_LEN, contents.len());
    assert(body@ == body_of(contents@));
    let len = u64_from_le_bytes(slice_subrange(body, 28, 36));
    if len != (body.len() - BODY_PREFIX_LEN) as u64 {
        return None;
    }
    let nonce: [u8; 12] = read_array(body, 0);
    let tag: [u8; 16] = read_array(body, 12);
    let ciphertext = slice_to_vec(slice_subrange(body, BODY_PREFIX_LEN, body.len()));
    Some((nonce, tag, ciphertext))
}

/// The body bytes for a nonce, a tag and a ciphertext.
pub fn encode_body(nonce: &[u8; 12], tag: &[u8; 16], ciphertext: &[u8]) -> (r: Vec<u8>)
    ensures
        r@ == body_image(nonce@, tag@, ciphertext@),
{
    let mut r: Vec<u8> = Vec::new();
    append_bytes(&mut r, nonce.as_slice());
    append_bytes(&mut r, tag.as_slice());
    let len_bytes = u64_to_le_bytes(ciphertext.len() as u64);
    append_bytes(&mut r, len_bytes.as_slice());
    append_bytes(&mut r, ciphertext);
    r
}

/// The plaintext that holds these records.
pub fn pack_records(records: &Vec<Vec<u8>>) -> (r: Vec<u8>)
    ensures
        r@ == frame_records(records_view(records@)),
{
    let mut out: Vec<u8> = Vec::new();
    let mut i: usize = 0;
    assert(records_view(records@).take(0) =~= Seq::<Seq<u8>>::empty());
    while i < records.len()
        invariant
            i <= records@.len(),
            out@ == frame_records(records_view(records@).take(i as int)),
        decreases records@.len() - i,
    {
        let rec = &records[i];
        let len_bytes = u64_to_le_bytes(rec.len() as u64);
        append_bytes(&mut out, len_bytes.as_slice());
        append_bytes(&mut out, rec.as_slice());
        proof {
            let rv = records_view(records@);
            assert(rv.take(i + 1) =~= rv.take(i as int).push(rv[i as int]));
            lemma_frame_records_push(rv.take(i as int), rv[i as int]);
            assert(out@ =~= frame_records(rv.take(i as int)) + frame_of(rv[i as int]));
        }
        i = i + 1;
    }
    assert(records_view(records@).take(records@.len() as int) =~= records_view(records@));
    out
}

/// Splits a plaintext into its records.
pub fn unpack_records(bytes: &[u8]) -> (r: Option<Vec<Vec<u8>>>)
    ensures
        match r {
            Some(v) => split_frames(bytes@) == Some(records_view(v@)),
            None => split_frames(bytes@) is None,
        },
{
    let mut out: Vec<Vec<u8>> = Vec::new();
    let mut pos: usize = 0;
    assert(bytes@.subrange(0, bytes@.len() as int) =~= bytes@);
    proof {
        match split_frames(bytes@) {
            Some(rest) => {
                assert(records_view(out@) + rest =~= rest);
            },
            None => {},
        }
    }
    while pos < bytes.len()
        invariant
            pos <= bytes@.len(),
            split_frames(bytes@) == match split_frames(bytes@.subrange(pos as int, bytes@.len() as int)) {
                Some(rest) => Some(records_view(out@) + rest),
                None => None::<Seq<Seq<u8>>>,
            },
        decreases bytes@.len() - pos,
    {
        let ghost tail = bytes@.subrange(pos as int, bytes@.len() as int);
        let left = bytes.len() - pos;
        if left < 8 {
            return None;
        }
        let n = u64_from_le_bytes(slice_subrange(bytes, pos, pos + 8));
        assert(tail.subrange(0, 8) =~= bytes@.subrange(pos as int, pos + 8));
        if n > (left - 8) as u64 {
            return None;
        }
        let n = n as usize;
        let rec = slice_to_vec(slice_subrange(bytes, pos + 8, pos + 8 + n));
        proof {
            assert(tail.subrange(8, 8 + n) =~= rec@);
            assert(tail.subrange(8 + n, tail.len() as int) =~= bytes@.subrange(
                pos + 8 + n,
                bytes@.len() as int,
            ));
            assert(records_view(out@.push(rec)) =~= records_view(out@).push(rec@));
            match split_frames(bytes@.subrange(pos + 8 + n, bytes@.len() as int)) {
                Some(rest) => {
                    assert(records_view(out@) + seq![rec@].add(rest) =~= records_view(
                        out@.push(rec),
                    ) + rest);
                },
                None => {},
            }
        }
        out.push(rec);
        pos = pos + 8 + n;
    }
    assert(bytes@.subrange(pos as int, bytes@.len() as int) =~= Seq::<u8>::empty());
    assert(records_view(out@) + Seq::<Seq<u8>>::empty() =~= records_view(out@));
    Some(out)
}

/// The header bytes for these fields.
fn header_bytes(salt: &[u8; 12], last_updated: Timestamp, record_count: u32) -> (r: Vec<u8>)
    ensures
        r@ == header_image(
            StoreHeader { salt: salt@, last_updated: last_updated.unix_micros, record_count },
        ),
{
    let mut r: Vec<u8> = Vec::new();
    append_bytes(&mut r, FILE_SIGNATURE.as_slice());
    append_bytes(&mut r, salt.as_slice());
    let ad = associated_data(last_updated, record_count);
    append_bytes(&mut r, ad.as_slice());
    assert(FILE_SIGNATURE@ =~= signature());
    r
}

/// The associated data for a header with these fields.
pub fn associated_data(last_updated: Timestamp, record_count: u32) -> (r: Vec<u8>)
    ensures
        r@ == associated_data_of(last_updated.unix_micros, record_count),
{
    let mut r = u64_to_le_bytes(last_updated.unix_micros as u64);
    let count = u32_to_le_bytes(record_count);
    append_bytes(&mut r, count.as_slice());
    r
}

impl Database {
    /// Opens a store from the contents of its file (`None` when there is no
    /// file): only the header is read and checked.
    pub fn init(path: String, contents: Option<&[u8]>) -> (r: Result<Database, DBError>)
        ensures
            contents is None ==> r == Err::<Database, DBError>(DBError::FileNotFound(path)),
            contents matches Some(b) ==> match parse_header(b@) {
                Some(h) => r matches Ok(db) && db@ == h && db.path == path,
                None => r == Err::<Database, DBError>(DBError::IncorrectFileFormat),
            },
    {
        let b = match contents {
            None => {
                return Err(DBError::FileNotFound(path));
            },
            Some(b) => b,
        };
        if b.len() < HEADER_LEN || b[0] != FILE_SIGNATURE[0] || b[1] != FILE_SIGNATURE[1]
            || b[2] != FILE_SIGNATURE[2] || b[3] != FILE_SIGNATURE[3] {
            proof {
                if b@.len() >= HEADER_LEN {
                    if b@.subrange(0, 4) == signature() {
                        assert(b@.subrange(0, 4)[0] == b@[0]);
                        assert(b@.subrange(0, 4)[1] == b@[1]);
                        assert(b@.subrange(0, 4)[2] == b@[2]);
                        assert(b@.subrange(0, 4)[3] == b@[3]);
                    }
                }
            }
            return Err(DBError::IncorrectFileFormat);
        }
        assert(b@.subrange(0, 4) =~= signature());
        let salt: [u8; 12] = read_array(b, 4);
        let updated = u64_from_le_bytes(slice_subrange(b, 16, 24));
        let count = u32_from_le_bytes(slice_subrange(b, 24, 28));
        Ok(
            Database {
                path,
                key_derivation_salt: salt,
                last_update: Timestamp { unix_micros: updated as i64 },
                records_count: count,
            },
        )
    }

    /// A store that has no file yet: holds no records until it is saved.
    pub fn new(path: String, salt: [u8; 12], now: Timestamp) -> (r: Database)
        ensures
            r.path == path,
            r.key_derivation_salt == salt,
            r.last_update == now,
            r.records_count == 0,
    {
        Database { path, key_derivation_salt: salt, last_update: now, records_count: 0 }
    }

    /// The header bytes that a file of this store starts with.
    pub fn encode_header(&self) -> (r: Vec<u8>)
        ensures
            r@ == header_image(self@),
    {
        header_bytes(&self.key_derivation_salt, self.last_update, self.records_count)
    }

    /// The records held by a plaintext, checked against the record count.
    pub fn records_from_plaintext(&self, plaintext: &[u8]) -> (r: Result<Vec<Vec<u8>>, DBError>)
        ensures
            match records_of_plaintext(self@, plaintext@) {
                Some(recs) => r matches Ok(v) && records_view(v@) == recs,
                None => r matches Err(DBError::DecodingError),
            },
    {
        match unpack_records(plaintext) {
            Some(v) => {
                if v.len() == self.records_count as usize {
                    Ok(v)
                } else {
                    Err(DBError::DecodingError)
                }
            },
            None => Err(DBError::DecodingError),
        }
    }

    /// Decrypts the records of this store from the contents of its file.
    /// A store that holds no records gives none without reading the body;
    /// otherwise the body is opened with the header fields as associated
    /// data, and any failure is a decoding error. A file that saving some
    /// records under `key` wrote, and whose header this store holds, gives
    /// those records back.
    pub fn load(&self, contents: &[u8], key: &AesKeyValue) -> (r: Result<Vec<Vec<u8>>, DBError>)
        ensures
            match load_spec(self@, contents@, key.value@) {
                Some(recs) => r matches Ok(v) && records_view(v@) == recs,
                None => r matches Err(DBError::DecodingError),
            },
            forall|recs: Seq<Seq<u8>>|
                #![trigger is_saved_file(contents@, self.key_derivation_salt@, recs, key.value@)]
                is_saved_file(contents@, self.key_derivation_salt@, recs, key.value@) && parse_header(
                    contents@,
                ) == Some(self@) && records_fit(recs) && records_storable(recs) ==> (r matches Ok(v)
                    && records_view(v@) == recs),
    {
        let r = self.load_sealed(contents, key);
        proof {
            assert forall|recs: Seq<Seq<u8>>|
                #![trigger is_saved_file(contents@, self.key_derivation_salt@, recs, key.value@)]
                is_saved_file(contents@, self.key_derivation_salt@, recs, key.value@) && parse_header(
                    contents@,
                ) == Some(self@) && records_fit(recs) && records_storable(recs) implies (r matches Ok(
                v,
            ) && records_view(v@) == recs) by {
                let nonce = lemma_saved_file_parts(contents@, self@, recs, key.value@);
                assert(sealed_image(self@, recs, key.value@, nonce) == contents@);
            }
        }
        r
    }

    /// Decrypts the records of this store from a file sealed for its header.
    fn load_sealed(&self, contents: &[u8], key: &AesKeyValue) -> (r: Result<Vec<Vec<u8>>, DBError>)
        ensures
            match load_spec(self@, contents@, key.value@) {
                Some(recs) => r matches Ok(v) && records_view(v@) == recs,
                None => r matches Err(DBError::DecodingError),
            },
            forall|recs: Seq<Seq<u8>>, nonce: Seq<u8>|
                #![trigger sealed_image(self@, recs, key.value@, nonce)]
                nonce.len() == 12 && recs.len() == self.records_count && records_fit(recs)
                    && frame_records(recs).len() <= PLAINTEXT_MAX && sealed_fits(
                    self@,
                    recs,
                    key.value@,
                    nonce,
                ) && contents@ == sealed_image(self@, recs, key.value@, nonce) ==> (r matches Ok(
                    v,
                ) && records_view(v@) == recs),
    {
        if self.records_count == 0 {
            let r: Result<Vec<Vec<u8>>, DBError> = Ok(Vec::new());
            proof {
                assert(records_view(r->Ok_0@) =~= Seq::<Seq<u8>>::empty());
                assert forall|recs: Seq<Seq<u8>>, nonce: Seq<u8>|
                    #[trigger] sealed_image(self@, recs, key.value@, nonce) == contents@
                        && recs.len() == self.records_count implies recs =~= records_view(
                    r->Ok_0@,
                ) by {}
            }
            return r;
        }
        let ghost h = self@;
        let ghost k = key.value@;
        let ghost ad_spec = associated_data_of(h.last_updated, h.record_count);
        let (nonce, tag, mut buffer) = match read_body(contents) {
            Some(parts) => parts,
            None => {
                let r: Result<Vec<Vec<u8>>, DBError> = Err(DBError::DecodingError);
                proof {
                    assert forall|recs: Seq<Seq<u8>>, nonce: Seq<u8>|
                        nonce.len() == 12 && frame_records(recs).len() <= PLAINTEXT_MAX
                            && sealed_fits(h, recs, k, nonce) && contents@ == sealed_image(
                            h,
                            recs,
                            k,
                            nonce,
                        ) implies false by {
                        lemma_sealed_image_parts(h, recs, k, nonce);
                    }
                }
                return r;
            },
        };
        let ad = associated_data(self.last_update, self.records_count);
        let ghost ciphertext = buffer@;
        match decrypt_in_place(key, &nonce, ad.as_slice(), buffer.as_mut_slice(), &tag) {
            Ok(()) => {},
            Err(_) => {
                let r: Result<Vec<Vec<u8>>, DBError> = Err(DBError::DecodingError);
                proof {
                    assert forall|recs: Seq<Seq<u8>>, nonce2: Seq<u8>|
                        nonce2.len() == 12 && frame_records(recs).len() <= PLAINTEXT_MAX
                            && sealed_fits(h, recs, k, nonce2) && contents@ == sealed_image(
                            h,
                            recs,
                            k,
                            nonce2,
                        ) implies false by {
                        lemma_sealed_image_parts(h, recs, k, nonce2);
                        assert(aes_gcm_sealed(k, nonce@, ad@, frame_records(recs)) == (
                            ciphertext,
                            tag@,
                        ));
                    }
                }
                return r;
            },
        }
        let r = self.records_from_plaintext(buffer.as_slice());
        proof {
            assert forall|recs: Seq<Seq<u8>>, nonce2: Seq<u8>|
                nonce2.len() == 12 && recs.len() == self.records_count && records_fit(recs)
                    && frame_records(recs).len() <= PLAINTEXT_MAX && sealed_fits(h, recs, k, nonce2)
                    && contents@ == sealed_image(h, recs, k, nonce2) implies (r matches Ok(v)
                && records_view(v@) == recs) by {
                lemma_sealed_image_parts(h, recs, k, nonce2);
                assert(aes_gcm_sealed(k, nonce@, ad@, frame_records(recs)) == (ciphertext, tag@));
                assert(buffer@ == frame_records(recs));
                lemma_split_frame_records(recs);
            }
        }
        r
    }

    /// The file that saving `records` at time `now` writes, sealed under
    /// `key` with `nonce`. It fails, with an encoding error, only when there
    /// are more records than a header can count or when their plaintext is too
    /// long to seal.
    pub fn file_image(&self, records: &Vec<Vec<u8>>, key: &AesKeyValue, now: Timestamp, nonce: &[u8; 12]) -> (r: Result<Vec<u8>, DBError>)
        ensures
            r is Ok <==> records_storable(records_view(records@)),
            r matches Err(e) ==> e is EncodingError,
            r matches Ok(bytes) ==> ({
                let h = saved_header(self.key_derivation_salt@, now.unix_micros, records@.len());
                &&& bytes@ == sealed_image(h, records_view(records@), key.value@, nonce@)
                &&& sealed_fits(h, records_view(records@), key.value@, nonce@)
            }),
    {
        if records.len() > 0xFFFF_FFFFusize {
            return Err(DBError::EncodingError);
        }
        let count = records.len() as u32;
        let mut plain = pack_records(records);
        let ad = associated_data(now, count);
        proof {
            lemma_auto_spec_u64_to_from_le_bytes();
            lemma_auto_spec_u32_to_from_le_bytes();
        }
        let tag = match aes_gcm_seal(&key.value, nonce, ad.as_slice(), plain.as_mut_slice()) {
            Ok(tag) => tag,
            Err(_) => {
                return Err(DBError::EncodingError);
            },
        };
        let mut out = header_bytes(&self.key_derivation_salt, now, count);
        let body = encode_body(nonce, &tag, plain.as_slice());
        append_bytes(&mut out, body.as_slice());
        Ok(out)
    }

    /// Seals `records` into the bytes of a new file for this store, with the
    /// current time as last update and a fresh random nonce. The salt is kept
    /// and the record count is the number of records.
    pub fn store(&self, records: &Vec<Vec<u8>>, key: &AesKeyValue) -> (r: Result<Vec<u8>, DBError>)
        ensures
            r is Ok <==> records_storable(records_view(records@)),
            r matches Err(e) ==> e is EncodingError,
            r matches Ok(bytes) ==> is_saved_file(
                bytes@,
                self.key_derivation_salt@,
                records_view(records@),
                key.value@,
            ),
    {
        let now = Timestamp::now();
        let nonce = random_nonce();
        self.file_image(records, key, now, &nonce)
    }
}

} // verus!

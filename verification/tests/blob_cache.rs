use echo_library::cache::{
    blob_path, content_hash_of, publication, put_blob, quarantine_corrupt, quarantine_path,
    read_bounded_step, read_verified, store_layout, store_root, verify_file, BlobRole, BlobStore,
    CacheError, CacheErrorKind, PutBlob, StreamDigest,
};
use echo_library::content_hash::ContentHash;

const EMPTY_DIGEST: &str = "af1349b9f5f9a1a6a0404dea36dcc9499bcb25c9adc112b7cc9a93cae41f3262";

fn store() -> BlobStore {
    BlobStore::rooted_at("/cache".to_owned())
}

#[test]
fn content_identity_is_the_blake3_digest() {
    assert_eq!(content_hash_of(b"").to_hex(), EMPTY_DIGEST);
    assert_ne!(content_hash_of(b"a").to_hex(), EMPTY_DIGEST);
}

#[test]
fn hex_text_round_trips_and_accepts_either_case() {
    let hash = content_hash_of(b"waveform pyramid bytes");
    let text = hash.to_hex();
    assert_eq!(text.len(), 64);
    assert_eq!(text, text.to_lowercase());
    assert_eq!(ContentHash::from_hex(&text), Some(hash));
    assert_eq!(ContentHash::from_hex(&text.to_uppercase()), Some(hash));
    assert_eq!(ContentHash::from_hex(&text[1..]), None);
    assert_eq!(ContentHash::from_hex(&"g".repeat(64)), None);
    let bytes = [0xab_u8; 32];
    assert_eq!(ContentHash::new(bytes).to_hex(), "ab".repeat(32));
}

fn streamed(payload: &[u8]) -> StreamDigest {
    let mut digest = StreamDigest::new();
    digest.update(payload);
    digest
}

#[test]
fn file_publication_streams_to_the_same_identity() {
    let payload = vec![0x5a_u8; 512 * 1024];
    let mut digest = StreamDigest::new();
    for chunk in payload.chunks(64 * 1024) {
        digest.update(chunk);
    }
    let (from_file, status) =
        publication(&store(), BlobRole::RenderProxy, &digest.finish(), 512 * 1024, None).expect("file put");
    assert_eq!(status, PutBlob::Stored);
    assert_eq!(from_file.size_bytes, 512 * 1024);
    let stored = streamed(&payload);
    let (from_bytes, again) =
        put_blob(&store(), BlobRole::RenderProxy, &payload, Some((512 * 1024, &stored))).expect("byte put");
    assert_eq!(from_bytes.content_hash, from_file.content_hash);
    assert_eq!(again, PutBlob::AlreadyPresent);
}

#[test]
fn put_read_round_trip_is_identity_stable() {
    let payload = b"waveform pyramid bytes";
    let (blob, status) = put_blob(&store(), BlobRole::WaveformPyramid, payload, None).expect("put");
    assert_eq!(status, PutBlob::Stored);
    assert_eq!(blob.size_bytes, payload.len() as u64);

    let existing = streamed(payload);
    let again = put_blob(&store(), BlobRole::WaveformPyramid, payload, Some((payload.len() as u64, &existing)))
        .expect("second put");
    assert_eq!(again.1, PutBlob::AlreadyPresent);

    let read = read_verified(&store(), &blob.content_hash, payload.to_vec(), 1024).expect("verified read");
    assert_eq!(read, payload);
}

#[test]
fn canonical_path_is_derived_from_digest() {
    let (blob, _) = put_blob(&store(), BlobRole::Embedding, b"x", None).expect("put");
    let text = blob.content_hash.to_hex();
    let (first, rest) = text.split_at(2);
    assert_eq!(blob_path("/cache", &blob.content_hash), format!("/cache/blobs/b3/{first}/{rest}"));
    let empty = content_hash_of(b"");
    assert_eq!(
        blob_path("/cache", &empty),
        format!("/cache/blobs/b3/{}/{}", &EMPTY_DIGEST[..2], &EMPTY_DIGEST[2..])
    );
    assert_eq!(
        quarantine_path("/cache", &empty),
        format!("/cache/quarantine/b3/{}/{}", &EMPTY_DIGEST[..2], &EMPTY_DIGEST[2..])
    );
}

#[test]
fn corrupt_blob_quarantines_instead_of_serving() {
    let (blob, _) = put_blob(&store(), BlobRole::RenderProxy, b"original", None).expect("put");
    let path = blob_path("/cache", &blob.content_hash);
    let tampered = b"tampered".to_vec();

    let read = read_verified(&store(), &blob.content_hash, tampered.clone(), 1024);
    let error = read.expect_err("tampered bytes must fail");
    assert_eq!(error.kind, CacheErrorKind::Corrupt);
    assert_eq!(error.message, format!("blob {path} failed verification"));

    let verified = verify_file(&path, tampered.len() as u64, &streamed(&tampered), &blob.content_hash, 8).is_ok();
    let (from, to) = quarantine_corrupt(&store(), &blob.content_hash, verified).expect("quarantine");
    assert_eq!(from, path);
    assert_ne!(to, path, "corrupt blob must leave the canonical tree");
    assert_eq!(to, quarantine_path("/cache", &blob.content_hash));
    assert!(quarantine_corrupt(&store(), &blob.content_hash, true).is_none());
}

#[test]
fn bounded_read_rejects_oversized_payload() {
    let (blob, _) = put_blob(&store(), BlobRole::Transcript, b"long payload", None).expect("put");
    let read = read_verified(&store(), &blob.content_hash, b"long payload".to_vec(), 4);
    let error = read.expect_err("oversized read must fail");
    assert_eq!(error.kind, CacheErrorKind::TooLarge);
    assert_eq!(
        error.message,
        format!("blob {} exceeds bounded read of 4 bytes", blob_path("/cache", &blob.content_hash))
    );
}

#[test]
fn bounded_read_steps_check_the_running_total() {
    assert_eq!(read_bounded_step("/b", 1000, 24, 1024).expect("fits"), 1024);
    let error = read_bounded_step("/b", 1000, 25, 1024).expect_err("oversized read must fail");
    assert_eq!(error.kind, CacheErrorKind::TooLarge);
    assert_eq!(error.message, "blob /b exceeds bounded read of 1024 bytes");
    let overflow = read_bounded_step("/b", u64::MAX, 1, u64::MAX).expect_err("overflow");
    assert_eq!(overflow.message, "size overflow");
}

#[test]
fn verification_checks_size_before_identity() {
    let payload = b"long payload".to_vec();
    let hash = content_hash_of(&payload);
    let mut streamed = StreamDigest::new();
    streamed.update(&payload);
    assert!(verify_file("/p", 12, &streamed, &hash, 12).is_ok());
    let wrong_size = verify_file("/p", 11, &streamed, &hash, 12).expect_err("size");
    assert_eq!(wrong_size.kind, CacheErrorKind::Corrupt);
    assert_eq!(wrong_size.message, "blob /p has size 11, expected 12");
    let other = content_hash_of(b"other");
    let wrong_hash = verify_file("/p", 12, &streamed, &other, 12).expect_err("identity");
    assert_eq!(wrong_hash.message, "blob /p failed verification");
}

#[test]
fn store_layout_and_root() {
    let store = store();
    assert_eq!(store_root(&store), "/cache");
    assert_eq!(
        store_layout("/cache"),
        vec![
            "/cache/blobs/b3".to_owned(),
            "/cache/blobs/staging".to_owned(),
            "/cache/quarantine/b3".to_owned()
        ]
    );
    let error = CacheError::new(CacheErrorKind::Other, "disk full");
    assert_eq!(error.kind, CacheErrorKind::Other);
    assert_eq!(error.message, "disk full");
}

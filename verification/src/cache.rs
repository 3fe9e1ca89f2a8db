//! Rebuildable, content-addressed blob storage: identity, layout and
//! verification.
//!
//! Identity is BLAKE3-256 over the exact payload bytes. Files carry no
//! source name or extension:
//!
//! ```text
//! <cache-root>/blobs/b3/<first-two-hex>/<remaining-hex>
//! ```
//!
//! Reads are re-hashed before bytes reach a consumer, and a corrupt blob is
//! moved under `quarantine/b3` with the same two-level layout.

use vstd::prelude::*;

use crate::content_hash::{hex_digit, hex_text, lemma_hash_text_round_trip, ContentHash};
use crate::text::{concat, decimal, decimal_text, join_path, owned, path_join};

verus! {

/// BLAKE3-256 digest of a byte sequence, as `blake3` computes it.
pub uninterp spec fn blake3_digest(payload: Seq<u8>) -> Seq<u8>;

/// Calls `blake3::hash`: the contract claims the named digest of the
/// payload.
#[verifier::external_body]
fn blake3_hash(payload: &[u8]) -> (r: [u8; 32])
    ensures
        r@ == blake3_digest(payload@),
{
    *blake3::hash(payload).as_bytes()
}

/// Declares `blake3::Hasher` to the verifier as an opaque type; what it has
/// absorbed is tracked by [`hasher_input`].
#[verifier::external_type_specification]
#[verifier::external_body]
pub struct ExHasher(blake3::Hasher);

/// Whether a hasher is a plain one: made by `blake3::Hasher::new` and
/// since then only updated, so neither keyed, nor deriving a key, nor given
/// an input offset through the crate's `hazmat` interface.
pub uninterp spec fn plain_hasher(hasher: blake3::Hasher) -> bool;

/// The bytes written into a plain hasher so far.
pub uninterp spec fn hasher_input(hasher: blake3::Hasher) -> Seq<u8>;

/// Calls `blake3::Hasher::new`: the contract claims a plain hasher that has
/// seen no input.
#[verifier::external_body]
fn hasher_new() -> (r: blake3::Hasher)
    ensures
        plain_hasher(r),
        hasher_input(r) == Seq::<u8>::empty(),
{
    blake3::Hasher::new()
}

/// Calls `blake3::Hasher::update` on a plain hasher: the contract claims
/// that it stays plain and that its input grows by `bytes`.
#[verifier::external_body]
fn hasher_update(hasher: &mut blake3::Hasher, bytes: &[u8])
    requires
        plain_hasher(*old(hasher)),
    ensures
        plain_hasher(*final(hasher)),
        hasher_input(*final(hasher)) == hasher_input(*old(hasher)) + bytes@,
{
    hasher.update(bytes);
}

/// Calls `blake3::Hasher::finalize` on a plain hasher: the contract claims
/// the digest of all input so far, the same as `blake3::hash` of that input
/// (as the crate documents for the default hasher).
#[verifier::external_body]
fn hasher_finalize(hasher: &blake3::Hasher) -> (r: [u8; 32])
    requires
        plain_hasher(*hasher),
    ensures
        r@ == blake3_digest(hasher_input(*hasher)),
{
    *hasher.finalize().as_bytes()
}

/// The content identity of a payload.
pub fn content_hash_of(payload: &[u8]) -> (r: ContentHash)
    ensures
        r.bytes@ == blake3_digest(payload@),
{
    ContentHash::new(blake3_hash(payload))
}

/// Incremental content identity over a payload streamed in chunks.
pub struct StreamDigest {
    hasher: blake3::Hasher,
}

impl StreamDigest {
    /// The hasher is a plain one.
    #[verifier::type_invariant]
    spec fn plain(self) -> bool {
        plain_hasher(self.hasher)
    }

    /// The bytes streamed so far.
    pub closed spec fn input(&self) -> Seq<u8> {
        hasher_input(self.hasher)
    }

    /// A digest that has seen nothing.
    pub fn new() -> (r: StreamDigest)
        ensures
            r.input() == Seq::<u8>::empty(),
    {
        StreamDigest { hasher: hasher_new() }
    }

    /// Streams one more chunk.
    pub fn update(&mut self, chunk: &[u8])
        ensures
            final(self).input() == old(self).input() + chunk@,
    {
        proof {
            use_type_invariant(&*self);
        }
        let mut hasher = hasher_new();
        std::mem::swap(&mut hasher, &mut self.hasher);
        hasher_update(&mut hasher, chunk);
        self.hasher = hasher;
    }

    /// The identity of everything streamed so far.
    pub fn finish(&self) -> (r: ContentHash)
        ensures
            r.bytes@ == blake3_digest(self.input()),
    {
        proof {
            use_type_invariant(self);
        }
        ContentHash::new(hasher_finalize(&self.hasher))
    }
}

/// What a cached blob represents. The cache never interprets payload bytes.
#[derive(Debug, Clone, Copy, PartialEq, Eq, Structural)]
pub enum BlobRole {
    /// Multi-level waveform peak pyramid.
    WaveformPyramid,
    /// Bounded STFT overview for the spectral repair workspace.
    SpectrogramOverview,
    /// Embedding payload reference.
    Embedding,
    /// Transcript cache.
    Transcript,
    /// Rendered proxy audio.
    RenderProxy,
    /// Canonical 48 kHz planar impulse-response preparation.
    ImpulseResponsePreparation,
}

/// Outcome of publishing a payload.
#[derive(Debug, Clone, Copy, PartialEq, Eq, Structural)]
pub enum PutBlob {
    /// The payload was newly stored.
    Stored,
    /// A blob with the identical digest already existed.
    AlreadyPresent,
}

/// Classification shared by cache failures.
#[derive(Debug, Clone, Copy, PartialEq, Eq, Structural)]
pub enum CacheErrorKind {
    /// The bytes on disk no longer match their content identity.
    Corrupt,
    /// A payload exceeded the explicit size bound of the operation.
    TooLarge,
    /// Another failure, with the underlying message preserved.
    Other,
}

/// The name a failure kind is displayed with.
pub open spec fn cache_error_kind_name(kind: CacheErrorKind) -> Seq<char> {
    match kind {
        CacheErrorKind::Corrupt => "Corrupt"@,
        CacheErrorKind::TooLarge => "TooLarge"@,
        CacheErrorKind::Other => "Other"@,
    }
}

/// All cache failures.
#[derive(Debug, Clone)]
pub struct CacheError {
    pub kind: CacheErrorKind,
    pub message: String,
}

impl CacheError {
    /// The displayed text of this failure: `<kind>: <message>`.
    pub fn to_text(&self) -> (r: String)
        ensures
            r@ == cache_error_kind_name(self.kind) + ": "@ + self.message@,
    {
        let name = match self.kind {
            CacheErrorKind::Corrupt => "Corrupt",
            CacheErrorKind::TooLarge => "TooLarge",
            CacheErrorKind::Other => "Other",
        };
        let mut r = crate::text::concat(name, ": ");
        r.append(self.message.as_str());
        r
    }

    /// Creates a cache error.
    pub fn new(kind: CacheErrorKind, message: &str) -> (r: CacheError)
        ensures
            r.kind == kind,
            r.message@ == message@,
    {
        CacheError { kind, message: owned(message) }
    }
}

/// `r` is a cache failure with exactly `message`.
pub open spec fn cache_fails_with<T>(r: Result<T, CacheError>, message: Seq<char>) -> bool {
    match r {
        Err(e) => e.message@ == message,
        Ok(_) => false,
    }
}

/// A blob stored in the cache.
#[derive(Debug, Clone, Copy, PartialEq, Eq)]
pub struct CachedBlob {
    pub role: BlobRole,
    pub content_hash: ContentHash,
    pub size_bytes: u64,
}

/// Handle to the blob store rooted at one directory.
#[derive(Debug, Clone)]
pub struct BlobStore {
    root: String,
}

impl BlobStore {
    /// The store's root directory.
    pub closed spec fn root(&self) -> Seq<char> {
        self.root@
    }

    /// A store rooted at `root` (whose layout directories exist).
    pub fn rooted_at(root: String) -> (r: BlobStore)
        ensures
            r.root() == root@,
    {
        BlobStore { root }
    }
}

/// Exposes the store root.
pub fn store_root(store: &BlobStore) -> (r: &str)
    ensures
        r@ == store.root(),
{
    store.root.as_str()
}

/// The directories a store needs under its root: the canonical tree, the
/// staging area and the quarantine tree.
pub fn store_layout(root: &str) -> (r: Vec<String>)
    ensures
        r@.len() == 3,
        r@[0]@ == join_path(join_path(root@, "blobs"@), "b3"@),
        r@[1]@ == join_path(join_path(root@, "blobs"@), "staging"@),
        r@[2]@ == join_path(join_path(root@, "quarantine"@), "b3"@),
{
    let blobs = path_join(root, "blobs");
    let quarantine = path_join(root, "quarantine");
    let mut r = Vec::new();
    r.push(path_join(blobs.as_str(), "b3"));
    r.push(path_join(blobs.as_str(), "staging"));
    r.push(path_join(quarantine.as_str(), "b3"));
    r
}

/// The path of a digest under `<root>/<tree>/b3`: the first two hex digits
/// name a directory, the remaining sixty-two the file.
pub open spec fn digest_path(root: Seq<char>, tree: Seq<char>, bytes: Seq<u8>) -> Seq<char> {
    join_path(
        join_path(join_path(join_path(root, tree), "b3"@), hex_text(bytes).subrange(0, 2)),
        hex_text(bytes).subrange(2, 64),
    )
}

fn digest_path_in(root: &str, tree: &str, content_hash: &ContentHash) -> (r: String)
    ensures
        r@ == digest_path(root@, tree@, content_hash.bytes@),
{
    let text = content_hash.to_hex();
    proof {
        assert(text@.len() == 64);
    }
    let first = text.as_str().substring_char(0, 2);
    let rest = text.as_str().substring_char(2, 64);
    let tree_dir = path_join(root, tree);
    let b3 = path_join(tree_dir.as_str(), "b3");
    let parent = path_join(b3.as_str(), first);
    path_join(parent.as_str(), rest)
}

/// Canonical on-disk path for a content hash.
pub fn blob_path(root: &str, content_hash: &ContentHash) -> (r: String)
    ensures
        r@ == digest_path(root@, "blobs"@, content_hash.bytes@),
{
    digest_path_in(root, "blobs", content_hash)
}

/// Where a corrupt blob is moved, outside the canonical tree.
pub fn quarantine_path(root: &str, content_hash: &ContentHash) -> (r: String)
    ensures
        r@ == digest_path(root@, "quarantine"@, content_hash.bytes@),
{
    digest_path_in(root, "quarantine", content_hash)
}

/// The publication outcome of content `content_hash` of `size_bytes`
/// bytes. `existing` is the stored size and streamed identity of the file
/// already at the content's canonical path, if one is there: such a file is
/// re-verified before reuse (`AlreadyPresent`); otherwise the content is
/// newly stored (`Stored`).
pub open spec fn publication_ok(
    content_hash: ContentHash,
    size_bytes: u64,
    existing: Option<(u64, Seq<u8>)>,
) -> bool {
    match existing {
        None => true,
        Some((actual, streamed)) => actual == size_bytes && blake3_digest(streamed)
            == content_hash.bytes@,
    }
}

/// Publishes content of known identity and size; see [`publication_ok`].
/// A failed re-verification is the failure of [`verify_file`] on the
/// existing file.
pub fn publication(
    store: &BlobStore,
    role: BlobRole,
    content_hash: &ContentHash,
    size_bytes: u64,
    existing: Option<(u64, &StreamDigest)>,
) -> (r: Result<(CachedBlob, PutBlob), CacheError>)
    ensures
        r is Ok <==> publication_ok(
            *content_hash,
            size_bytes,
            match existing {
                Some((actual, digest)) => Some((actual, digest.input())),
                None => None,
            },
        ),
        r matches Ok((blob, outcome)) ==> blob.role == role && blob.content_hash == *content_hash
            && blob.size_bytes == size_bytes && outcome == (if existing is None {
            PutBlob::Stored
        } else {
            PutBlob::AlreadyPresent
        }),
        r matches Err(e) ==> e.kind == CacheErrorKind::Corrupt,
{
    let blob = CachedBlob { role, content_hash: *content_hash, size_bytes };
    match existing {
        None => Ok((blob, PutBlob::Stored)),
        Some((actual, digest)) => {
            let path = blob_path(store.root.as_str(), content_hash);
            verify_file(path.as_str(), actual, digest, content_hash, size_bytes)?;
            Ok((blob, PutBlob::AlreadyPresent))
        },
    }
}

/// Publishes `payload` under its content identity at
/// [`digest_path`]; idempotent: an existing blob at that path is re-verified
/// and reported `AlreadyPresent`.
pub fn put_blob(
    store: &BlobStore,
    role: BlobRole,
    payload: &[u8],
    existing: Option<(u64, &StreamDigest)>,
) -> (r: Result<(CachedBlob, PutBlob), CacheError>)
    ensures
        r is Ok <==> match existing {
            None => true,
            Some((actual, digest)) => actual == payload@.len() && blake3_digest(digest.input())
                == blake3_digest(payload@),
        },
        r matches Ok((blob, outcome)) ==> blob.role == role && blob.content_hash.bytes@
            == blake3_digest(payload@) && blob.size_bytes == payload@.len() && outcome == (
        if existing is None {
            PutBlob::Stored
        } else {
            PutBlob::AlreadyPresent
        }),
        r matches Err(e) ==> e.kind == CacheErrorKind::Corrupt,
{
    let content_hash = content_hash_of(payload);
    publication(store, role, &content_hash, payload.len() as u64, existing)
}

/// A blob at `path` failed verification.
fn failed_verification(path: &str) -> (r: CacheError)
    ensures
        r.kind == CacheErrorKind::Corrupt,
        r.message@ == "blob "@ + path@ + " failed verification"@,
{
    let mut message = concat("blob ", path);
    message.append(" failed verification");
    CacheError { kind: CacheErrorKind::Corrupt, message }
}

/// Serves the bytes read from a blob, bounded by `max_bytes`, only if
/// they hash to the requested identity: a longer blob exceeds the bounded
/// read, and bytes with another identity are corrupt.
pub fn read_verified(store: &BlobStore, content_hash: &ContentHash, payload: Vec<u8>, max_bytes: u64) -> (r:
    Result<Vec<u8>, CacheError>)
    ensures
        r is Ok <==> payload@.len() <= max_bytes && blake3_digest(payload@) == content_hash.bytes@,
        r matches Ok(bytes) ==> bytes@ == payload@,
        payload@.len() > max_bytes ==> (r matches Err(e) && e.kind == CacheErrorKind::TooLarge
            && e.message@ == "blob "@ + digest_path(store.root(), "blobs"@, content_hash.bytes@)
            + " exceeds bounded read of "@ + decimal(max_bytes as nat) + " bytes"@),
        r matches Err(e) ==> payload@.len() <= max_bytes ==> e.kind == CacheErrorKind::Corrupt
            && e.message@ == "blob "@ + digest_path(store.root(), "blobs"@, content_hash.bytes@)
            + " failed verification"@,
{
    let path = blob_path(store.root.as_str(), content_hash);
    if payload.len() as u64 > max_bytes {
        let mut message = concat("blob ", path.as_str());
        message.append(" exceeds bounded read of ");
        message.append(decimal_text(max_bytes).as_str());
        message.append(" bytes");
        return Err(CacheError { kind: CacheErrorKind::TooLarge, message });
    }
    let actual = content_hash_of(payload.as_slice());
    if !actual.same_as(content_hash) {
        return Err(failed_verification(path.as_str()));
    }
    Ok(payload)
}

/// Re-verification outcome of a blob: when it failed, the blob moves from
/// its canonical path to its quarantine path (returned as `(from, to)`);
/// a blob that verifies stays.
pub fn quarantine_corrupt(store: &BlobStore, content_hash: &ContentHash, verified: bool) -> (r: Option<
    (String, String),
>)
    ensures
        verified ==> r is None,
        !verified ==> (r matches Some((from, to)) && from@ == digest_path(
            store.root(),
            "blobs"@,
            content_hash.bytes@,
        ) && to@ == digest_path(store.root(), "quarantine"@, content_hash.bytes@) && from@ != to@),
{
    if verified {
        return None;
    }
    let from = blob_path(store.root.as_str(), content_hash);
    let to = quarantine_path(store.root.as_str(), content_hash);
    proof {
        lemma_quarantine_leaves_canonical_tree(store.root(), content_hash.bytes@);
    }
    Some((from, to))
}

/// Checks a blob's stored size and then its streamed identity against the
/// expected identity and size.
pub fn verify_file(path: &str, actual_size: u64, streamed: &StreamDigest, content_hash: &ContentHash, expected_size: u64) -> (r: Result<
    (),
    CacheError,
>)
    ensures
        r is Ok <==> actual_size == expected_size && blake3_digest(streamed.input())
            == content_hash.bytes@,
        r matches Err(e) ==> e.kind == CacheErrorKind::Corrupt,
        actual_size != expected_size ==> cache_fails_with(
            r,
            "blob "@ + path@ + " has size "@ + decimal(actual_size as nat) + ", expected "@
                + decimal(expected_size as nat),
        ),
        r matches Err(e) ==> actual_size == expected_size ==> e.message@ == "blob "@ + path@
            + " failed verification"@,
{
    if actual_size != expected_size {
        let mut message = concat("blob ", path);
        message.append(" has size ");
        message.append(decimal_text(actual_size).as_str());
        message.append(", expected ");
        message.append(decimal_text(expected_size).as_str());
        return Err(CacheError { kind: CacheErrorKind::Corrupt, message });
    }
    let actual = streamed.finish();
    if !actual.same_as(content_hash) {
        return Err(failed_verification(path));
    }
    Ok(())
}

/// One step of a bounded read: `read` more bytes arrive after `total`. The
/// running total must not overflow (`size overflow`) nor exceed `max_bytes`.
pub fn read_bounded_step(path: &str, total: u64, read: u64, max_bytes: u64) -> (r: Result<
    u64,
    CacheError,
>)
    ensures
        r is Ok <==> total + read <= max_bytes,
        r matches Ok(t) ==> t == total + read,
        r matches Err(e) ==> e.kind == CacheErrorKind::TooLarge,
        total + read > u64::MAX ==> cache_fails_with(r, "size overflow"@),
        total + read <= u64::MAX && total + read > max_bytes ==> cache_fails_with(
            r,
            "blob "@ + path@ + " exceeds bounded read of "@ + decimal(max_bytes as nat)
                + " bytes"@,
        ),
{
    match total.checked_add(read) {
        None => Err(CacheError::new(CacheErrorKind::TooLarge, "size overflow")),
        Some(t) => {
            if t > max_bytes {
                let mut message = concat("blob ", path);
                message.append(" exceeds bounded read of ");
                message.append(decimal_text(max_bytes).as_str());
                message.append(" bytes");
                Err(CacheError { kind: CacheErrorKind::TooLarge, message })
            } else {
                Ok(t)
            }
        },
    }
}


proof fn lemma_join_keeps_base(base: Seq<char>, part: Seq<char>, i: int)
    requires
        0 <= i < base.len(),
    ensures
        join_path(base, part).len() >= base.len(),
        join_path(base, part)[i] == base[i],
{
}

/// The position of a tree's first character in paths under `root`.
spec fn tree_start(root: Seq<char>) -> int {
    if root.len() == 0 {
        0
    } else if root.last() == '/' {
        root.len() as int
    } else {
        root.len() + 1int
    }
}

proof fn lemma_digest_path_tree_char(root: Seq<char>, tree: Seq<char>, bytes: Seq<u8>)
    requires
        tree.len() > 0,
    ensures
        tree_start(root) < digest_path(root, tree, bytes).len(),
        digest_path(root, tree, bytes)[tree_start(root)] == tree[0],
{
    let k = tree_start(root);
    let a = join_path(root, tree);
    assert(a[k] == tree[0]);
    let b = join_path(a, "b3"@);
    lemma_join_keeps_base(a, "b3"@, k);
    let c = join_path(b, hex_text(bytes).subrange(0, 2));
    lemma_join_keeps_base(b, hex_text(bytes).subrange(0, 2), k);
    lemma_join_keeps_base(c, hex_text(bytes).subrange(2, 64), k);
}

/// A quarantined blob is outside the canonical tree: its path is never the
/// canonical path of the same digest.
pub proof fn lemma_quarantine_leaves_canonical_tree(root: Seq<char>, bytes: Seq<u8>)
    ensures
        digest_path(root, "quarantine"@, bytes) != digest_path(root, "blobs"@, bytes),
{
    reveal_strlit("quarantine");
    reveal_strlit("blobs");
    lemma_digest_path_tree_char(root, "quarantine"@, bytes);
    lemma_digest_path_tree_char(root, "blobs"@, bytes);
    assert("quarantine"@[0] != "blobs"@[0]);
}


/// The digest path under a tree is its shard directory, then `/`, the
/// first two hexadecimal digits, `/`, and the remaining sixty-two.
proof fn lemma_digest_path_shape(root: Seq<char>, tree: Seq<char>, bytes: Seq<u8>)
    requires
        bytes.len() == 32,
    ensures
        digest_path(root, tree, bytes) == join_path(join_path(root, tree), "b3"@) + seq!['/']
            + hex_text(bytes).subrange(0, 2) + seq!['/'] + hex_text(bytes).subrange(2, 64),
{
    reveal_strlit("b3");
    let a = join_path(join_path(root, tree), "b3"@);
    assert(a.len() > 0 && a.last() == '3');
    let h = hex_text(bytes);
    let first = h.subrange(0, 2);
    let b = join_path(a, first);
    assert(b == a + seq!['/'] + first);
    let d = bytes[0] as int % 16;
    assert(first.last() == hex_digit(d));
    assert(hex_digit(d) != '/');
    assert(join_path(b, h.subrange(2, 64)) == b + seq!['/'] + h.subrange(2, 64));
}

/// Distinct payload identities never share a blob path: a path names
/// exactly one digest.
pub proof fn lemma_digest_path_is_injective(root: Seq<char>, tree: Seq<char>, a: Seq<u8>, b: Seq<u8>)
    requires
        a.len() == 32,
        b.len() == 32,
        digest_path(root, tree, a) == digest_path(root, tree, b),
    ensures
        a == b,
{
    lemma_digest_path_shape(root, tree, a);
    lemma_digest_path_shape(root, tree, b);
    let prefix = join_path(join_path(root, tree), "b3"@);
    let n = prefix.len() as int;
    let pa = digest_path(root, tree, a);
    let ha = hex_text(a);
    let hb = hex_text(b);
    assert forall|i: int| 0 <= i < 64 implies ha[i] == hb[i] by {
        if i < 2 {
            assert(pa[n + 1 + i] == ha[i]);
            assert(digest_path(root, tree, b)[n + 1 + i] == hb[i]);
        } else {
            assert(pa[n + 2 + i] == ha[i]);
            assert(digest_path(root, tree, b)[n + 2 + i] == hb[i]);
        }
    }
    assert(ha =~= hb);
    lemma_hash_text_round_trip(a);
    lemma_hash_text_round_trip(b);
}

} // verus!

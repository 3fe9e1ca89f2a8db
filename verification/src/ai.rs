//! Capability routing and the model registry.
//!
//! A capability request maps to an inference backend through a declared
//! route table; the registry maps logical models to `HuggingFace` cache
//! layouts under a model root and decides, from a listing of that root,
//! whether a model is present or which download command the user needs.

use vstd::prelude::*;

use crate::text::{concat, join_path, owned, path_join, push_char, same_text, text_less, text_lt};

verus! {

/// An analysis capability Echo can request from an inference backend.
#[derive(Debug, Clone, Copy, PartialEq, Eq, Hash, Structural)]
pub enum Capability {
    /// Speech-to-text transcription.
    Transcribe,
    /// Word/sentence forced alignment.
    Align,
    /// Emotion and audio-event recognition.
    UnderstandAudio,
    /// Speaker diarization.
    Diarize,
    /// Text or audio embedding for semantic search.
    Embed,
}

/// A concrete inference backend family.
#[derive(Debug, Clone, Copy, PartialEq, Eq, Hash, Structural)]
pub enum InferenceBackend {
    /// Apple Silicon native runtime.
    Mlx,
    /// Apple Neural Engine / Core ML.
    CoreMl,
    /// NVIDIA CUDA.
    Cuda,
    /// Cross-hardware ONNX Runtime.
    OnnxRuntime,
    /// Stable baseline transcription engine.
    WhisperCpp,
    /// Remote model service.
    Cloud,
}

/// One supported mapping from capability to backend.
#[derive(Debug, Clone, Copy, PartialEq, Eq, Structural)]
pub struct CapabilityRoute {
    pub capability: Capability,
    pub backend: InferenceBackend,
    /// Higher means preferred; ties resolve to the first declared route.
    pub preference: u8,
}

/// The routes of a minimal install: transcription through whisper.cpp.
pub fn routes_minimal() -> (r: Vec<CapabilityRoute>)
    ensures
        r@ == seq![
            CapabilityRoute {
                capability: Capability::Transcribe,
                backend: InferenceBackend::WhisperCpp,
                preference: 1,
            },
        ],
{
    let mut r = Vec::new();
    r.push(
        CapabilityRoute {
            capability: Capability::Transcribe,
            backend: InferenceBackend::WhisperCpp,
            preference: 1,
        },
    );
    r
}

/// Route `i` is the first route for `capability` with the highest
/// preference among the routes for `capability`.
pub open spec fn is_preferred_route(
    capability: Capability,
    routes: Seq<CapabilityRoute>,
    i: int,
) -> bool {
    &&& 0 <= i < routes.len()
    &&& routes[i].capability == capability
    &&& forall|j: int|
        0 <= j < routes.len() && routes[j].capability == capability ==> routes[j].preference
            <= routes[i].preference
    &&& forall|j: int|
        0 <= j < i && routes[j].capability == capability ==> routes[j].preference
            < routes[i].preference
}

/// Resolves the preferred backend for a capability from an ordered route
/// list: the highest preference wins and ties go to the first declared
/// route; no route for the capability gives `None`.
pub fn resolve(capability: Capability, routes: &[CapabilityRoute]) -> (r: Option<InferenceBackend>)
    ensures
        r is None <==> forall|j: int| 0 <= j < routes@.len() ==> routes@[j].capability != capability,
        r matches Some(backend) ==> exists|i: int|
            is_preferred_route(capability, routes@, i) && routes@[i].backend == backend,
{
    let mut best: Option<usize> = None;
    let mut i: usize = 0;
    while i < routes.len()
        invariant
            i <= routes@.len(),
            best is None ==> forall|j: int| 0 <= j < i ==> routes@[j].capability != capability,
            best matches Some(b) ==> {
                &&& b < i
                &&& routes@[b as int].capability == capability
                &&& forall|j: int|
                    0 <= j < i && routes@[j].capability == capability ==> routes@[j].preference
                        <= routes@[b as int].preference
                &&& forall|j: int|
                    0 <= j < b && routes@[j].capability == capability ==> routes@[j].preference
                        < routes@[b as int].preference
            },
        decreases routes@.len() - i,
    {
        let route = routes[i];
        if route.capability == capability {
            match best {
                None => {
                    best = Some(i);
                },
                Some(b) => {
                    if route.preference > routes[b].preference {
                        best = Some(i);
                    }
                },
            }
        }
        i = i + 1;
    }
    match best {
        None => None,
        Some(b) => {
            assert(is_preferred_route(capability, routes@, b as int));
            Some(routes[b].backend)
        },
    }
}

/// One cataloged model.
#[derive(Debug, Clone, PartialEq, Eq)]
pub struct ModelSpec {
    /// Stable logical identity used by routing and the UI.
    pub id: String,
    /// `HuggingFace` repo id (`org/name`), also the cache directory identity.
    pub repo: String,
    /// Snapshot revision to prefer; `None` picks any available snapshot.
    pub revision: Option<String>,
    pub backend: InferenceBackend,
    pub capability: Capability,
    /// Files that must exist under the snapshot for the model to count as
    /// present.
    pub required_files: Vec<String>,
}

/// Resolution outcome for one model.
#[derive(Debug, Clone, PartialEq, Eq)]
pub enum ModelStatus {
    /// The model is usable at the given snapshot path.
    Present { snapshot: String },
    /// The model is absent; `download_command` is the exact `hf download`
    /// invocation the user can run.
    Missing { download_command: String },
}

fn model_spec(
    id: &str,
    repo: &str,
    backend: InferenceBackend,
    capability: Capability,
    first_file: &str,
    second_file: Option<&str>,
) -> (r: ModelSpec)
    ensures
        r.id@ == id@,
        r.repo@ == repo@,
        r.revision is None,
        r.backend == backend,
        r.capability == capability,
        second_file is None ==> r.required_files@.len() == 1,
        second_file is Some ==> r.required_files@.len() == 2,
        r.required_files@[0]@ == first_file@,
        second_file matches Some(f) ==> r.required_files@[1]@ == f@,
{
    let mut required_files = Vec::new();
    required_files.push(owned(first_file));
    match second_file {
        Some(f) => required_files.push(owned(f)),
        None => {},
    }
    ModelSpec { id: owned(id), repo: owned(repo), revision: None, backend, capability, required_files }
}

/// The fields of the catalog's entry at `index`.
pub open spec fn catalog_entry(index: int, m: ModelSpec) -> bool {
    &&& m.revision is None
    &&& if index == 0 {
        &&& m.id@ == "qwen3-asr-1.7b-mlx"@
        &&& m.repo@ == "mlx-community/Qwen3-ASR-1.7B"@
        &&& m.backend == InferenceBackend::Mlx
        &&& m.capability == Capability::Transcribe
        &&& m.required_files@.len() == 2
        &&& m.required_files@[0]@ == "config.json"@
        &&& m.required_files@[1]@ == "model.safetensors"@
    } else if index == 1 {
        &&& m.id@ == "qwen3-forced-aligner-0.6b-mlx"@
        &&& m.repo@ == "mlx-community/Qwen3-ForcedAligner-0.6B"@
        &&& m.backend == InferenceBackend::Mlx
        &&& m.capability == Capability::Align
        &&& m.required_files@.len() == 2
        &&& m.required_files@[0]@ == "config.json"@
        &&& m.required_files@[1]@ == "model.safetensors"@
    } else if index == 2 {
        &&& m.id@ == "sensevoice-small-mlx"@
        &&& m.repo@ == "mlx-community/SenseVoiceSmall"@
        &&& m.backend == InferenceBackend::Mlx
        &&& m.capability == Capability::UnderstandAudio
        &&& m.required_files@.len() == 2
        &&& m.required_files@[0]@ == "config.json"@
        &&& m.required_files@[1]@ == "model.safetensors"@
    } else {
        &&& index == 3
        &&& m.id@ == "whisper-small-ggml"@
        &&& m.repo@ == "ggerganov/whisper.cpp"@
        &&& m.backend == InferenceBackend::WhisperCpp
        &&& m.capability == Capability::Transcribe
        &&& m.required_files@.len() == 1
        &&& m.required_files@[0]@ == "ggml-small.bin"@
    }
}

/// Number of models in the catalog.
pub open spec fn catalog_len() -> nat {
    4
}

/// Every model Echo knows how to use.
pub fn model_catalog() -> (r: Vec<ModelSpec>)
    ensures
        r@.len() == catalog_len(),
        forall|i: int| 0 <= i < catalog_len() ==> catalog_entry(i, #[trigger] r@[i]),
{
    let mut r = Vec::new();
    r.push(
        model_spec(
            "qwen3-asr-1.7b-mlx",
            "mlx-community/Qwen3-ASR-1.7B",
            InferenceBackend::Mlx,
            Capability::Transcribe,
            "config.json",
            Some("model.safetensors"),
        ),
    );
    r.push(
        model_spec(
            "qwen3-forced-aligner-0.6b-mlx",
            "mlx-community/Qwen3-ForcedAligner-0.6B",
            InferenceBackend::Mlx,
            Capability::Align,
            "config.json",
            Some("model.safetensors"),
        ),
    );
    r.push(
        model_spec(
            "sensevoice-small-mlx",
            "mlx-community/SenseVoiceSmall",
            InferenceBackend::Mlx,
            Capability::UnderstandAudio,
            "config.json",
            Some("model.safetensors"),
        ),
    );
    r.push(
        model_spec(
            "whisper-small-ggml",
            "ggerganov/whisper.cpp",
            InferenceBackend::WhisperCpp,
            Capability::Transcribe,
            "ggml-small.bin",
            None,
        ),
    );
    r
}

/// `repo` with every `/` replaced by `--`.
pub open spec fn slashes_as_dashes(repo: Seq<char>) -> Seq<char>
    decreases repo.len(),
{
    if repo.len() == 0 {
        Seq::empty()
    } else {
        slashes_as_dashes(repo.drop_last()) + if repo.last() == '/' {
            seq!['-', '-']
        } else {
            seq![repo.last()]
        }
    }
}

/// The `HuggingFace` cache directory name of a repo.
pub open spec fn repo_cache_name(repo: Seq<char>) -> Seq<char> {
    seq!['m', 'o', 'd', 'e', 'l', 's', '-', '-'] + slashes_as_dashes(repo)
}

/// The HF cache directory for one repo: `models--<org>--<name>` under the
/// model root.
pub fn repo_cache_dir(model_root: &str, spec: &ModelSpec) -> (r: String)
    ensures
        r@ == join_path(model_root@, repo_cache_name(spec.repo@)),
{
    let repo = spec.repo.as_str();
    let n = repo.unicode_len();
    let mut name = owned("models--");
    proof {
        reveal_strlit("models--");
        assert(repo@.take(0) =~= Seq::<char>::empty());
    }
    let mut i: usize = 0;
    while i < n
        invariant
            n == repo@.len(),
            i <= n,
            name@ == seq!['m', 'o', 'd', 'e', 'l', 's', '-', '-'] + slashes_as_dashes(
                repo@.take(i as int),
            ),
        decreases n - i,
    {
        let c = repo.get_char(i);
        if c == '/' {
            push_char(&mut name, '-');
            push_char(&mut name, '-');
        } else {
            push_char(&mut name, c);
        }
        proof {
            assert(repo@.take(i + 1).drop_last() =~= repo@.take(i as int));
        }
        i = i + 1;
        proof {
            assert(name@ =~= seq!['m', 'o', 'd', 'e', 'l', 's', '-', '-'] + slashes_as_dashes(
                repo@.take(i as int),
            ));
        }
    }
    assert(repo@.take(n as int) =~= repo@);
    path_join(model_root, name.as_str())
}

/// One snapshot directory found under a repo's `snapshots` directory.
#[derive(Debug, Clone, PartialEq, Eq)]
pub struct SnapshotEntry {
    /// Directory name (the revision).
    pub name: String,
    /// Names of the regular files inside the directory.
    pub files: Vec<String>,
}

/// `name` is one of `files`.
pub open spec fn lists_file(files: Seq<String>, name: Seq<char>) -> bool {
    exists|m: int| 0 <= m < files.len() && #[trigger] files[m]@ == name
}

/// Every required file of `spec` is present in the snapshot.
pub open spec fn snapshot_complete(spec: ModelSpec, entry: SnapshotEntry) -> bool {
    forall|k: int|
        0 <= k < spec.required_files@.len() ==> lists_file(
            entry.files@,
            #[trigger] spec.required_files@[k]@,
        )
}

/// The snapshot the registry chooses: a complete snapshot named by the
/// preferred revision if there is one, otherwise the complete snapshot
/// whose name sorts first.
pub open spec fn is_chosen_snapshot(spec: ModelSpec, entries: Seq<SnapshotEntry>, i: int) -> bool {
    &&& 0 <= i < entries.len()
    &&& snapshot_complete(spec, entries[i])
    &&& (spec.revision matches Some(rev) && entries[i].name@ == rev@) || ({
        &&& (spec.revision matches Some(rev) ==> forall|j: int|
            0 <= j < entries.len() && snapshot_complete(spec, entries[j]) ==> entries[j].name@
                != rev@)
        &&& forall|j: int|
            0 <= j < entries.len() && snapshot_complete(spec, entries[j]) ==> !text_lt(
                entries[j].name@,
                entries[i].name@,
            )
    })
}

/// The command that downloads a missing model: `hf download <repo>`.
pub open spec fn download_command(repo: Seq<char>) -> Seq<char> {
    seq!['h', 'f', ' ', 'd', 'o', 'w', 'n', 'l', 'o', 'a', 'd', ' '] + repo
}

fn contains_text(items: &Vec<String>, item: &str) -> (r: bool)
    ensures
        r == lists_file(items@, item@),
{
    let mut i: usize = 0;
    while i < items.len()
        invariant
            i <= items@.len(),
            forall|m: int| 0 <= m < i ==> (#[trigger] items@[m])@ != item@,
        decreases items@.len() - i,
    {
        if same_text(items[i].as_str(), item) {
            return true;
        }
        i = i + 1;
    }
    false
}

fn is_complete(spec: &ModelSpec, entry: &SnapshotEntry) -> (r: bool)
    ensures
        r == snapshot_complete(*spec, *entry),
{
    let mut k: usize = 0;
    while k < spec.required_files.len()
        invariant
            k <= spec.required_files@.len(),
            forall|q: int|
                0 <= q < k ==> lists_file(entry.files@, #[trigger] spec.required_files@[q]@),
        decreases spec.required_files@.len() - k,
    {
        if !contains_text(&entry.files, spec.required_files[k].as_str()) {
            return false;
        }
        k = k + 1;
    }
    true
}

/// The `snapshots` directory of a repo's cache directory.
pub open spec fn snapshots_dir(model_root: Seq<char>, repo: Seq<char>) -> Seq<char> {
    join_path(
        join_path(model_root, repo_cache_name(repo)),
        seq!['s', 'n', 'a', 'p', 's', 'h', 'o', 't', 's'],
    )
}

/// `status` is the registry's verdict for `spec` under `model_root` whose
/// `snapshots` directory lists `entries`.
pub open spec fn model_resolution(
    model_root: Seq<char>,
    spec: ModelSpec,
    entries: Seq<SnapshotEntry>,
    status: ModelStatus,
) -> bool {
    match status {
        ModelStatus::Present { snapshot } => exists|i: int|
            is_chosen_snapshot(spec, entries, i) && snapshot@ == join_path(
                snapshots_dir(model_root, spec.repo@),
                entries[i].name@,
            ),
        ModelStatus::Missing { download_command: command } => {
            &&& forall|j: int| 0 <= j < entries.len() ==> !snapshot_complete(spec, entries[j])
            &&& command@ == download_command(spec.repo@)
        },
    }
}

/// Resolves `spec` against `model_root`, given the listing of the repo's
/// `snapshots` directory: a complete snapshot named by the preferred
/// revision wins, otherwise the complete snapshot whose name sorts first;
/// a partial or absent download reports the exact download command.
pub fn resolve_model(model_root: &str, spec: &ModelSpec, entries: &[SnapshotEntry]) -> (r:
    ModelStatus)
    ensures
        model_resolution(model_root@, *spec, entries@, r),
{
    let repo_dir = repo_cache_dir(model_root, spec);
    let snapshots = path_join(repo_dir.as_str(), "snapshots");
    proof {
        reveal_strlit("snapshots");
        assert("snapshots"@ =~= seq!['s', 'n', 'a', 'p', 's', 'h', 'o', 't', 's']);
        assert(snapshots@ == snapshots_dir(model_root@, spec.repo@));
    }
    let dir = snapshots.as_str();
    let mut best: Option<usize> = None;
    let mut i: usize = 0;
    while i < entries.len()
        invariant
            dir@ == snapshots_dir(model_root@, spec.repo@),
            i <= entries@.len(),
            best is None ==> forall|j: int|
                0 <= j < i ==> !snapshot_complete(*spec, entries@[j]),
            spec.revision matches Some(rev) ==> forall|j: int|
                0 <= j < i && snapshot_complete(*spec, entries@[j]) ==> entries@[j].name@ != rev@,
            best matches Some(b) ==> {
                &&& b < i
                &&& snapshot_complete(*spec, entries@[b as int])
                &&& forall|j: int|
                    0 <= j < i && snapshot_complete(*spec, entries@[j]) ==> !text_lt(
                        entries@[j].name@,
                        entries@[b as int].name@,
                    )
            },
        decreases entries@.len() - i,
    {
        if is_complete(spec, &entries[i]) {
            match spec.revision {
                Some(ref rev) => {
                    if same_text(entries[i].name.as_str(), rev.as_str()) {
                        assert(is_chosen_snapshot(*spec, entries@, i as int));
                        return ModelStatus::Present {
                            snapshot: path_join(dir, entries[i].name.as_str()),
                        };
                    }
                },
                None => {},
            }
            match best {
                None => {
                    proof {
                        crate::text::lemma_text_lt_irreflexive(entries@[i as int].name@);
                    }
                    best = Some(i);
                },
                Some(b) => {
                    if text_less(entries[i].name.as_str(), entries[b].name.as_str()) {
                        proof {
                            assert forall|j: int|
                                0 <= j < i && snapshot_complete(*spec, entries@[j]) implies !text_lt(
                                entries@[j].name@,
                                entries@[i as int].name@,
                            ) by {
                                if text_lt(entries@[j].name@, entries@[i as int].name@) {
                                    crate::text::lemma_text_lt_transitive(
                                        entries@[j].name@,
                                        entries@[i as int].name@,
                                        entries@[b as int].name@,
                                    );
                                }
                            }
                            crate::text::lemma_text_lt_irreflexive(entries@[i as int].name@);
                        }
                        best = Some(i);
                    }
                },
            }
        }
        i = i + 1;
    }
    match best {
        None => {
            let command = concat("hf download ", spec.repo.as_str());
            proof {
                reveal_strlit("hf download ");
                assert(command@ =~= download_command(spec.repo@));
            }
            ModelStatus::Missing { download_command: command }
        },
        Some(b) => {
            assert(is_chosen_snapshot(*spec, entries@, b as int));
            ModelStatus::Present { snapshot: path_join(dir, entries[b].name.as_str()) }
        },
    }
}

/// Resolves every cataloged model in catalog order; `listings[i]` is the
/// listing of the `snapshots` directory of the catalog's `i`-th model.
pub fn resolve_all(model_root: &str, listings: &[Vec<SnapshotEntry>]) -> (r: Vec<(ModelSpec, ModelStatus)>)
    requires
        listings@.len() == catalog_len(),
    ensures
        r@.len() == catalog_len(),
        forall|i: int|
            0 <= i < catalog_len() ==> catalog_entry(i, (#[trigger] r@[i]).0) && model_resolution(
                model_root@,
                r@[i].0,
                listings@[i]@,
                r@[i].1,
            ),
{
    let mut catalog = model_catalog();
    let ghost cataloged = catalog@;
    let mut r: Vec<(ModelSpec, ModelStatus)> = Vec::new();
    let mut i: usize = 0;
    while i < listings.len()
        invariant
            cataloged.len() == catalog_len(),
            listings@.len() == catalog_len(),
            forall|k: int| 0 <= k < catalog_len() ==> catalog_entry(k, #[trigger] cataloged[k]),
            i <= listings@.len(),
            catalog@ == cataloged.skip(i as int),
            r@.len() == i,
            forall|k: int|
                0 <= k < i ==> catalog_entry(k, (#[trigger] r@[k]).0) && model_resolution(
                    model_root@,
                    r@[k].0,
                    listings@[k]@,
                    r@[k].1,
                ),
        decreases listings@.len() - i,
    {
        let spec = catalog.remove(0);
        assert(spec == cataloged[i as int]);
        assert(catalog@ =~= cataloged.skip(i + 1));
        let status = resolve_model(model_root, &spec, listings[i].as_slice());
        r.push((spec, status));
        i = i + 1;
    }
    r
}

/// A status by what it reports: present at a snapshot path, or missing
/// with a download command.
pub open spec fn status_report(status: ModelStatus) -> (bool, Seq<char>) {
    match status {
        ModelStatus::Present { snapshot } => (true, snapshot@),
        ModelStatus::Missing { download_command } => (false, download_command@),
    }
}

/// What a model resolves to is determined by the model root, the spec and
/// the listing: any two resolutions of the same inputs report the same
/// status. So each entry [`resolve_all`] returns is what [`resolve_model`]
/// returns for that catalog model and its listing.
pub proof fn lemma_resolution_is_determined(
    model_root: Seq<char>,
    spec: ModelSpec,
    entries: Seq<SnapshotEntry>,
    a: ModelStatus,
    b: ModelStatus,
)
    requires
        model_resolution(model_root, spec, entries, a),
        model_resolution(model_root, spec, entries, b),
    ensures
        status_report(a) == status_report(b),
{
    match (a, b) {
        (ModelStatus::Present { snapshot: sa }, ModelStatus::Present { snapshot: sb }) => {
            let i = choose|i: int|
                is_chosen_snapshot(spec, entries, i) && sa@ == join_path(
                    snapshots_dir(model_root, spec.repo@),
                    entries[i].name@,
                );
            let j = choose|j: int|
                is_chosen_snapshot(spec, entries, j) && sb@ == join_path(
                    snapshots_dir(model_root, spec.repo@),
                    entries[j].name@,
                );
            if entries[i].name@ != entries[j].name@ {
                crate::text::lemma_text_lt_total(entries[i].name@, entries[j].name@);
            }
        },
        (ModelStatus::Present { snapshot: sa }, ModelStatus::Missing { .. }) => {
            let i = choose|i: int|
                is_chosen_snapshot(spec, entries, i) && sa@ == join_path(
                    snapshots_dir(model_root, spec.repo@),
                    entries[i].name@,
                );
            assert(!snapshot_complete(spec, entries[i]));
        },
        (ModelStatus::Missing { .. }, ModelStatus::Present { snapshot: sb }) => {
            let j = choose|j: int|
                is_chosen_snapshot(spec, entries, j) && sb@ == join_path(
                    snapshots_dir(model_root, spec.repo@),
                    entries[j].name@,
                );
            assert(!snapshot_complete(spec, entries[j]));
        },
        (ModelStatus::Missing { .. }, ModelStatus::Missing { .. }) => {},
    }
}

} // verus!

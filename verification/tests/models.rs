use std::collections::HashSet;

use echo_library::ai::{
    model_catalog, repo_cache_dir, resolve, resolve_all, resolve_model, routes_minimal,
    Capability, CapabilityRoute, InferenceBackend, ModelStatus, SnapshotEntry,
};

fn complete_snapshot(name: &str, files: &[String]) -> SnapshotEntry {
    SnapshotEntry { name: name.to_owned(), files: files.to_vec() }
}

#[test]
fn catalog_identities_are_unique_and_consistent() {
    let mut ids = HashSet::new();
    for spec in model_catalog() {
        assert!(ids.insert(spec.id.clone()), "duplicate model id {}", spec.id);
        assert!(spec.repo.contains('/'), "repo must be org/name: {}", spec.repo);
        assert!(!spec.required_files.is_empty());
        assert!(matches!(spec.backend, InferenceBackend::Mlx | InferenceBackend::WhisperCpp));
        assert!(
            matches!(
                spec.capability,
                Capability::Transcribe | Capability::Align | Capability::UnderstandAudio
            ),
            "M1 catalog must only declare M1 capabilities"
        );
    }
}

#[test]
fn missing_model_reports_the_download_command() {
    let catalog = model_catalog();
    let spec = &catalog[0];
    let status = resolve_model("/models", spec, &[]);
    assert_eq!(
        status,
        ModelStatus::Missing { download_command: format!("hf download {}", spec.repo) }
    );
}

#[test]
fn present_model_resolves_to_its_snapshot() {
    let catalog = model_catalog();
    let spec = &catalog[0];
    let snapshot = format!("{}/snapshots/abc123", repo_cache_dir("/models", spec));
    let entries = vec![complete_snapshot("abc123", &spec.required_files)];
    assert_eq!(resolve_model("/models", spec, &entries), ModelStatus::Present { snapshot });

    // A partial download (missing a required file) still reports missing.
    let partial = vec![complete_snapshot("abc123", &spec.required_files[1..])];
    assert!(matches!(resolve_model("/models", spec, &partial), ModelStatus::Missing { .. }));
}

#[test]
fn revision_preference_wins_over_other_snapshots() {
    let mut spec = model_catalog()[0].clone();
    spec.revision = Some("pinned-rev".to_owned());
    let entries = vec![
        complete_snapshot("other-rev", &spec.required_files),
        complete_snapshot("pinned-rev", &spec.required_files),
    ];
    assert_eq!(
        resolve_model("/models", &spec, &entries),
        ModelStatus::Present {
            snapshot: format!("{}/snapshots/pinned-rev", repo_cache_dir("/models", &spec))
        }
    );
}

#[test]
fn without_a_pinned_revision_the_first_sorted_complete_snapshot_wins() {
    let spec = model_catalog()[3].clone();
    let entries = vec![
        complete_snapshot("zeta", &spec.required_files),
        SnapshotEntry { name: "alpha".to_owned(), files: vec![] },
        complete_snapshot("beta", &spec.required_files),
    ];
    assert_eq!(
        resolve_model("/models/", &spec, &entries),
        ModelStatus::Present {
            snapshot: "/models/models--ggerganov--whisper.cpp/snapshots/beta".to_owned()
        }
    );
}

#[test]
fn repo_cache_dir_replaces_every_slash() {
    let catalog = model_catalog();
    assert_eq!(
        repo_cache_dir("/models", &catalog[0]),
        "/models/models--mlx-community--Qwen3-ASR-1.7B"
    );
    assert_eq!(repo_cache_dir("", &catalog[3]), "models--ggerganov--whisper.cpp");
}

#[test]
fn resolve_all_follows_catalog_order() {
    let catalog = model_catalog();
    let mut listings = vec![Vec::new(); catalog.len()];
    listings[1] = vec![complete_snapshot("r1", &catalog[1].required_files)];
    let statuses = resolve_all("/m", &listings);
    assert_eq!(statuses.len(), 4);
    for (index, (spec, status)) in statuses.iter().enumerate() {
        assert_eq!(spec.id, catalog[index].id);
        if index == 1 {
            assert_eq!(
                *status,
                ModelStatus::Present {
                    snapshot: "/m/models--mlx-community--Qwen3-ForcedAligner-0.6B/snapshots/r1"
                        .to_owned()
                }
            );
        } else {
            assert!(matches!(status, ModelStatus::Missing { .. }));
        }
    }
}

#[test]
fn resolve_prefers_the_highest_preference_and_first_declared_tie() {
    let routes = [
        CapabilityRoute {
            capability: Capability::Transcribe,
            backend: InferenceBackend::WhisperCpp,
            preference: 1,
        },
        CapabilityRoute {
            capability: Capability::Transcribe,
            backend: InferenceBackend::Mlx,
            preference: 5,
        },
        CapabilityRoute {
            capability: Capability::Transcribe,
            backend: InferenceBackend::Cuda,
            preference: 5,
        },
        CapabilityRoute {
            capability: Capability::Embed,
            backend: InferenceBackend::OnnxRuntime,
            preference: 9,
        },
    ];
    assert_eq!(resolve(Capability::Transcribe, &routes), Some(InferenceBackend::Mlx));
    assert_eq!(resolve(Capability::Embed, &routes), Some(InferenceBackend::OnnxRuntime));
    assert_eq!(resolve(Capability::Diarize, &routes), None);
}

#[test]
fn minimal_install_transcribes_with_whisper_cpp() {
    let routes = routes_minimal();
    assert_eq!(resolve(Capability::Transcribe, &routes), Some(InferenceBackend::WhisperCpp));
    assert_eq!(resolve(Capability::Align, &routes), None);
}

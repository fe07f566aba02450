use binstaller::asset::AssetCandidate;
use binstaller::install::{ArchiveKind, InstallAction, InstallError, Event};
use binstaller::pipeline::{run, Pipeline, PipelineAction, PipelineError};
use std::cell::RefCell;

fn candidate(name: &str, content_type: &str) -> AssetCandidate {
    AssetCandidate {
        download_url: format!("https://example.com/download/{}", name),
        file_name: name.to_string(),
        content_type: content_type.to_string(),
    }
}

fn two_candidates() -> Vec<AssetCandidate> {
    vec![
        candidate("tool-darwin-arm64", "application/zip"),
        candidate("tool-linux-x86_64-gnu.tar.gz", "application/gzip"),
    ]
}

#[test]
fn end_to_end_selects_and_installs_the_linux_asset() {
    let seen: RefCell<Vec<PipelineAction>> = RefCell::new(Vec::new());
    let outcome = run(&two_candidates(), "/home/user/.local/bin", "tool", |action| {
        let event = match &action {
            PipelineAction::Install(InstallAction::ListWorkspace) => {
                Event::Listed(vec!["tool".to_string(), "LICENSE".to_string()])
            }
            _ => Event::Completed,
        };
        seen.borrow_mut().push(action);
        event
    });
    assert_eq!(outcome, Ok(()));
    assert_eq!(
        *seen.borrow(),
        vec![
            PipelineAction::Fetch {
                url: "https://example.com/download/tool-linux-x86_64-gnu.tar.gz".to_string(),
            },
            PipelineAction::Install(InstallAction::CreateWorkspace),
            PipelineAction::Install(InstallAction::Extract {
                kind: ArchiveKind::Gzip,
                strip_top_level: true,
            }),
            PipelineAction::Install(InstallAction::ListWorkspace),
            PipelineAction::Install(InstallAction::MoveIntoPlace {
                member: "tool".to_string(),
                destination: "/home/user/.local/bin/tool".to_string(),
            }),
            PipelineAction::Install(InstallAction::SetMode {
                path: "/home/user/.local/bin/tool".to_string(),
                mode: 0o755,
            }),
            PipelineAction::Install(InstallAction::RemoveWorkspace),
        ]
    );
}

#[test]
fn start_chooses_the_asset_with_the_highest_score() {
    let pipeline = Pipeline::start(&two_candidates(), "/usr/local/bin", "tool").unwrap();
    assert_eq!(pipeline.asset().file_name(), "tool-linux-x86_64-gnu.tar.gz");
    assert_eq!(pipeline.asset().matches(), 3);
    assert_eq!(pipeline.asset().content_type(), "application/gzip");
    assert_eq!(pipeline.outcome(), None);
    assert_eq!(
        pipeline.pending(),
        PipelineAction::Fetch {
            url: "https://example.com/download/tool-linux-x86_64-gnu.tar.gz".to_string(),
        }
    );
}

#[test]
fn no_eligible_asset_ends_the_run_before_any_action() {
    let list = vec![candidate("tool-darwin-arm64", "application/zip")];
    assert_eq!(Pipeline::start(&list, "/bin", "tool").err(), Some(PipelineError::NoEligibleAsset));
    let calls = RefCell::new(0);
    let outcome = run(&list, "/bin", "tool", |_action| {
        *calls.borrow_mut() += 1;
        Event::Completed
    });
    assert_eq!(outcome, Err(PipelineError::NoEligibleAsset));
    assert_eq!(*calls.borrow(), 0);
    let outcome = run(&Vec::new(), "/bin", "tool", |_action| Event::Completed);
    assert_eq!(outcome, Err(PipelineError::NoEligibleAsset));
}

#[test]
fn failed_download_ends_the_run() {
    let pipeline = Pipeline::start(&two_candidates(), "/bin", "tool").unwrap();
    let pipeline = pipeline.advance(&Event::Failed);
    assert_eq!(pipeline.outcome(), Some(Err(PipelineError::DownloadFailed)));
    assert_eq!(pipeline.pending(), PipelineAction::Finish(Err(PipelineError::DownloadFailed)));
    let pipeline = pipeline.advance(&Event::Completed);
    assert_eq!(pipeline.outcome(), Some(Err(PipelineError::DownloadFailed)));
}

#[test]
fn unsupported_content_type_ends_the_run_after_the_download() {
    let list = vec![candidate("tool-linux-x86_64-gnu.tar.bz2", "application/x-bzip2")];
    let seen: RefCell<Vec<PipelineAction>> = RefCell::new(Vec::new());
    let outcome = run(&list, "/bin", "tool", |action| {
        seen.borrow_mut().push(action);
        Event::Completed
    });
    assert_eq!(outcome, Err(PipelineError::Install(InstallError::UnsupportedContentType)));
    assert_eq!(
        *seen.borrow(),
        vec![PipelineAction::Fetch {
            url: "https://example.com/download/tool-linux-x86_64-gnu.tar.bz2".to_string(),
        }]
    );
}

#[test]
fn install_errors_are_passed_on_unchanged() {
    let outcome = run(&two_candidates(), "/bin", "tool", |action| match action {
        PipelineAction::Install(InstallAction::Extract { .. }) => Event::Failed,
        _ => Event::Completed,
    });
    assert_eq!(outcome, Err(PipelineError::Install(InstallError::ArchiveExtractionFailed)));
    let outcome = run(&two_candidates(), "/bin", "tool", |action| match action {
        PipelineAction::Install(InstallAction::ListWorkspace) => {
            Event::Listed(vec!["tool-linux".to_string()])
        }
        _ => Event::Completed,
    });
    assert_eq!(outcome, Err(PipelineError::Install(InstallError::MissingExpectedMember)));
    let outcome = run(&two_candidates(), "/bin", "tool", |action| match action {
        PipelineAction::Install(InstallAction::ListWorkspace) => {
            Event::Listed(vec!["tool".to_string()])
        }
        PipelineAction::Install(InstallAction::MoveIntoPlace { .. }) => Event::Failed,
        _ => Event::Completed,
    });
    assert_eq!(outcome, Err(PipelineError::Install(InstallError::InstallWriteFailed)));
}

#[test]
fn pipeline_steps_through_the_installation() {
    let mut pipeline = Pipeline::start(&two_candidates(), "/bin/", "tool").unwrap();
    pipeline = pipeline.advance(&Event::Completed);
    assert_eq!(pipeline.pending(), PipelineAction::Install(InstallAction::CreateWorkspace));
    pipeline = pipeline.advance(&Event::Completed);
    pipeline = pipeline.advance(&Event::Completed);
    assert_eq!(pipeline.pending(), PipelineAction::Install(InstallAction::ListWorkspace));
    pipeline = pipeline.advance(&Event::Listed(vec!["tool".to_string()]));
    assert_eq!(
        pipeline.pending(),
        PipelineAction::Install(InstallAction::MoveIntoPlace {
            member: "tool".to_string(),
            destination: "/bin/tool".to_string(),
        })
    );
    pipeline = pipeline.advance(&Event::Completed);
    pipeline = pipeline.advance(&Event::Completed);
    assert_eq!(pipeline.outcome(), None);
    pipeline = pipeline.advance(&Event::Completed);
    assert_eq!(pipeline.outcome(), Some(Ok(())));
    assert_eq!(pipeline.pending(), PipelineAction::Finish(Ok(())));
}

#[test]
fn every_failure_has_its_own_message() {
    let errors = [
        PipelineError::NoEligibleAsset,
        PipelineError::DownloadFailed,
        PipelineError::Install(InstallError::ArchiveExtractionFailed),
        PipelineError::Install(InstallError::MissingExpectedMember),
        PipelineError::Install(InstallError::UnsupportedContentType),
        PipelineError::Install(InstallError::InstallWriteFailed),
    ];
    for (i, a) in errors.iter().enumerate() {
        assert!(!a.message().is_empty());
        for b in errors.iter().skip(i + 1) {
            assert_ne!(a.message(), b.message());
        }
    }
    assert_eq!(
        PipelineError::NoEligibleAsset.message(),
        "there were no matching binaries to download"
    );
    assert_eq!(
        PipelineError::Install(InstallError::MissingExpectedMember).message(),
        InstallError::MissingExpectedMember.message()
    );
    assert_eq!(
        InstallError::UnsupportedContentType.message(),
        "the asset is neither a zip nor a gzip archive"
    );
}

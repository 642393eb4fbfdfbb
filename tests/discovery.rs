use worker_bridge::layout::{layout_candidates, resolve_layout, DevLayout, LayoutCandidates, WorkerLaunch};
use worker_bridge::runtime::{first_existing, lookup_path, runtime_candidates, version_from_output, NodeInfo};
use worker_bridge::supervisor::StartError;

#[test]
fn candidates_in_order() {
    assert_eq!(
        runtime_candidates("/home/ana"),
        vec![
            "/home/ana/.local/bin/node",
            "/opt/homebrew/bin/node",
            "/usr/local/bin/node",
            "/home/ana/.nvm/current/bin/node",
            "/home/ana/.volta/bin/node",
            "/home/ana/.fnm/aliases/default/bin/node",
            "/home/ana/.bun/bin/node",
            "/usr/bin/node",
        ]
    );
}

#[test]
fn first_existing_candidate_wins() {
    let c = runtime_candidates("/h");
    let mut exists = vec![false; 8];
    assert_eq!(first_existing(&c, &exists), None);
    exists[7] = true;
    assert_eq!(first_existing(&c, &exists), Some("/usr/bin/node".to_string()));
    exists[2] = true;
    assert_eq!(first_existing(&c, &exists), Some("/usr/local/bin/node".to_string()));
    assert_eq!(first_existing(&c, &vec![false, true]), Some("/opt/homebrew/bin/node".to_string()));
    assert_eq!(first_existing(&c, &Vec::new()), None);
}

#[test]
fn lookup_output_is_trimmed() {
    assert_eq!(lookup_path(true, "  /usr/bin/node\n"), Some("/usr/bin/node".to_string()));
    assert_eq!(lookup_path(true, " \n"), None);
    assert_eq!(lookup_path(false, "/usr/bin/node\n"), None);
}

#[test]
fn version_output_is_trimmed() {
    assert_eq!(version_from_output(true, "v20.11.1\n"), Some("v20.11.1".to_string()));
    assert_eq!(version_from_output(false, "v20.11.1\n"), None);
}

#[test]
fn detection_reports() {
    let found = NodeInfo::detected(Some("/usr/bin/node".to_string()), Some("v20.11.1".to_string()));
    assert!(found.found);
    assert_eq!(found.path.as_deref(), Some("/usr/bin/node"));
    assert_eq!(found.version.as_deref(), Some("v20.11.1"));
    assert_eq!(found.error, None);
    let missing = NodeInfo::detected(None, Some("v1".to_string()));
    assert!(!missing.found);
    assert_eq!(missing.path, None);
    assert_eq!(missing.version, None);
    assert_eq!(missing.error.as_deref(), Some("Node.js not found. Please install Node.js 18+"));
}

#[test]
fn layout_from_executable() {
    let c = layout_candidates(Some("/work/app/src-tauri/target/debug/app".to_string()), "/opt/app/resources");
    assert_eq!(c.packaged, "/opt/app/resources/sidecar/index.cjs");
    assert_eq!(
        c.development,
        Some(DevLayout {
            script: "/work/app/sidecar/dist/index.cjs".to_string(),
            working_dir: "/work/app/sidecar".to_string(),
        })
    );
    let none = layout_candidates(None, "/r");
    assert_eq!(none.development, None);
    assert_eq!(none.packaged, "/r/sidecar/index.cjs");
}

fn candidates() -> LayoutCandidates {
    LayoutCandidates {
        development: Some(DevLayout { script: "/p/sidecar/dist/index.cjs".to_string(), working_dir: "/p/sidecar".to_string() }),
        packaged: "/r/sidecar/index.cjs".to_string(),
    }
}

#[test]
fn development_layout_preferred() {
    assert_eq!(
        resolve_layout(candidates(), true, true),
        Ok(WorkerLaunch { script: "/p/sidecar/dist/index.cjs".to_string(), working_dir: Some("/p/sidecar".to_string()) })
    );
    assert_eq!(
        resolve_layout(candidates(), false, true),
        Ok(WorkerLaunch { script: "/r/sidecar/index.cjs".to_string(), working_dir: None })
    );
}

#[test]
fn missing_layout_names_both_places() {
    let err = resolve_layout(candidates(), false, false).unwrap_err();
    assert_eq!(
        err,
        StartError::WorkerNotFound {
            development: Some("/p/sidecar/dist/index.cjs".to_string()),
            packaged: "/r/sidecar/index.cjs".to_string(),
        }
    );
    let mut c = candidates();
    c.development = None;
    assert_eq!(
        resolve_layout(c, true, false).unwrap_err().message(),
        "Sidecar not found at \"/r/sidecar/index.cjs\""
    );
}

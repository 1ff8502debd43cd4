use anolisa::packaged::{packaged_candidates, packaged_datadir_root, DATA_DIR_ENV};

fn s(text: &str) -> Option<String> {
    Some(text.to_string())
}

/// The data directory where only the given directories exist.
fn root(env_dir: Option<String>, exe: Option<String>, datadir: &str, dirs: &[&str]) -> Option<String> {
    let candidates = packaged_candidates(env_dir, exe, datadir);
    let is_dir: Vec<bool> = candidates.iter().map(|c| dirs.contains(&c.as_str())).collect();
    packaged_datadir_root(&candidates, &is_dir)
}

#[test]
fn env_override_wins() {
    let got = root(
        s("/tmp/data"),
        s("/build/target/debug/test"),
        "/nonexistent-anolisa-prefix/usr/local/share/anolisa",
        &["/tmp/data"],
    );
    assert_eq!(got.as_deref(), Some("/tmp/data"));
}

#[test]
fn env_override_falls_through_when_missing() {
    let got = root(
        s("/definitely/does/not/exist/anolisa"),
        s("/build/target/debug/test"),
        "/nonexistent-anolisa-prefix/usr/local/share/anolisa",
        &[],
    );
    assert!(got.is_none(), "expected fallthrough, got {got:?}");
}

#[test]
fn layout_datadir_used_when_it_exists() {
    let datadir = "/prefix/usr/local/share/anolisa";
    let got = root(None, s("/build/target/debug/test"), datadir, &[datadir]);
    assert_eq!(got.as_deref(), Some(datadir));
}

#[test]
fn the_directory_beside_the_executable_comes_second() {
    let datadir = "/usr/local/share/anolisa";
    let beside = "/opt/anolisa/share/anolisa";
    let exe = || s("/opt/anolisa/bin/anolisa");
    assert_eq!(
        root(None, exe(), datadir, &[beside, datadir]).as_deref(),
        Some(beside)
    );
    assert_eq!(
        root(s("/env"), exe(), datadir, &["/env", beside, datadir]).as_deref(),
        Some("/env")
    );
    assert_eq!(
        packaged_candidates(None, s("anolisa"), datadir),
        vec![datadir]
    );
    assert_eq!(DATA_DIR_ENV, "ANOLISA_DATA_DIR");
}

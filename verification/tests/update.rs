use codemcp::error::Error;
use codemcp::installer::{check_digest, url_of_release, Stage, Update, UpdateAction, UpdateEvent};
use codemcp::update::{
    asset_arch, asset_os, hex_text, is_outdated, latest_release, sha256, user_agent,
    version_parts, ReleaseInfo, ReleaseReply,
};

const ABC: &str = "ba7816bf8f01cfea414140de5dae2223b00361a396177a9cb410ff61f20015ad";

#[test]
fn versions_are_compared_number_by_number() {
    assert!(is_outdated("0.5.0", "0.5.1"));
    assert!(is_outdated("0.5", "0.5.1"));
    assert!(is_outdated("0.9.9", "0.10.0"));
    assert!(!is_outdated("0.5.1", "0.5.1"));
    assert!(!is_outdated("0.5.1", "0.5"));
    assert!(!is_outdated("1.0.0", "0.99.99"));
    assert!(!is_outdated("0.5.1", "nonsense"));
    assert!(is_outdated("nonsense", "0"));
}

#[test]
fn versions_are_in_a_total_order() {
    let versions = ["0.5", "0.5.1", "0.10", "1", "1.0", "2.0.0.1"];
    for (i, a) in versions.iter().enumerate() {
        for (j, b) in versions.iter().enumerate() {
            assert_eq!(is_outdated(a, b), i < j);
        }
    }
}

#[test]
fn parts_that_are_no_numbers_are_skipped() {
    assert_eq!(version_parts("1.2.3"), vec![1, 2, 3]);
    assert_eq!(version_parts("v1.02.x.+3.-4..5-rc"), vec![2, 3]);
    assert_eq!(version_parts(""), Vec::<u64>::new());
    assert_eq!(version_parts("18446744073709551615.18446744073709551616"), vec![u64::MAX]);
}

#[test]
fn latest_release_drops_the_leading_v() {
    let reply = |tag: &str| ReleaseReply::Release {
        tag_name: tag.to_string(),
        html_url: Some("page".to_string()),
    };
    let info = latest_release(reply("v0.5.1")).unwrap();
    assert_eq!(info.version, "0.5.1");
    assert_eq!(info.html_url, Some("page".to_string()));
    assert_eq!(latest_release(reply("vv1")).unwrap().version, "v1");
    assert_eq!(latest_release(reply("1.0")).unwrap().version, "1.0");
}

#[test]
fn latest_release_reports_what_is_wrong() {
    let message = |reply| latest_release(reply).unwrap_err().message().to_string();
    assert_eq!(
        message(ReleaseReply::Unreachable("dns".to_string())),
        "failed to query GitHub API: dns"
    );
    assert_eq!(
        message(ReleaseReply::Status("403 Forbidden".to_string())),
        "GitHub API returned status 403 Forbidden"
    );
    assert_eq!(
        message(ReleaseReply::Invalid("eof".to_string())),
        "invalid API response: eof"
    );
    assert_eq!(user_agent("0.5.0"), "codemcp/0.5.0");
}

#[test]
fn platforms_have_names_in_releases() {
    assert_eq!(asset_os("macos").unwrap(), "darwin");
    assert_eq!(asset_os("linux").unwrap(), "linux");
    assert_eq!(
        asset_os("windows").unwrap_err().message(),
        "unsupported OS for self-update: windows (supported: macOS, Linux)"
    );
    assert_eq!(asset_arch("aarch64").unwrap(), "arm64");
    assert_eq!(asset_arch("x86_64").unwrap(), "x86_64");
    assert_eq!(
        asset_arch("riscv64").unwrap_err().message(),
        "unsupported architecture for self-update: riscv64 (supported: arm64, x86_64)"
    );
    assert_eq!(
        url_of_release("linux", "arm64", "0.5.1"),
        "https://github.com/skymoore/codemcp/releases/download/v0.5.1/codemcp-linux-arm64.tar.gz"
    );
}

#[test]
fn digests_are_the_standard_ones() {
    assert_eq!(sha256(b"abc"), ABC);
    assert_eq!(
        sha256(b""),
        "e3b0c44298fc1c149afbf4c8996fb92427ae41e4649b934ca495991b7852b855"
    );
    assert_eq!(hex_text(&vec![0, 1, 15, 16, 171, 255]), "00010f10abff");
}

#[test]
fn first_word_of_a_checksum_counts() {
    let sum = |s: &str| Some(s.to_string());
    assert_eq!(check_digest(&None, "aa"), None);
    assert_eq!(check_digest(&sum(" \n"), "aa"), None);
    assert_eq!(check_digest(&sum("aa  file.tar.gz\n"), "aa"), None);
    assert_eq!(check_digest(&sum("\tbb file"), "aa"), Some("bb".to_string()));
    assert_eq!(check_digest(&sum("AA"), "aa"), Some("AA".to_string()));
}

fn release(version: &str) -> UpdateEvent {
    UpdateEvent::Latest(Ok(ReleaseInfo { version: version.to_string(), html_url: None }))
}

fn begin() -> Update {
    Update::begin("linux", "x86_64", "0.5.0").unwrap()
}

fn failure(action: UpdateAction) -> String {
    match action {
        UpdateAction::Finish { result: Err(e), clean: false } => e.message().to_string(),
        other => panic!("{other:?}"),
    }
}

#[test]
fn update_runs_to_the_end() {
    let step = begin().step(release("0.6.0"));
    assert_eq!(
        step.lines,
        vec!["Updating codemcp from 0.5.0 to 0.6.0…".to_string(), String::new()]
    );
    let url =
        "https://github.com/skymoore/codemcp/releases/download/v0.6.0/codemcp-linux-x86_64.tar.gz";
    assert!(matches!(&step.action, UpdateAction::Download(u) if u == url));
    let step = step.update.step(UpdateEvent::Bytes(b"abc".to_vec()));
    assert!(matches!(&step.action, UpdateAction::FetchSum(u) if *u == format!("{url}.sha256")));
    let step = step.update.step(UpdateEvent::Sum(Some(format!("{ABC}  x\n"))));
    assert_eq!(step.lines, vec!["checksum ok".to_string()]);
    assert!(matches!(step.action, UpdateAction::Locate));
    let step = step.update.step(UpdateEvent::Located {
        path: "/bin/codemcp".to_string(),
        parent: Some("/bin".to_string()),
    });
    assert!(matches!(&step.action, UpdateAction::Unpack(data) if data == b"abc"));
    let step = step.update.step(UpdateEvent::Done);
    assert!(matches!(&step.action, UpdateAction::Probe(n) if n == "codemcp-linux-x86_64"));
    let step = step.update.step(UpdateEvent::Probed { named: true, plain: false });
    assert!(matches!(&step.action, UpdateAction::MakeExecutable(n) if n == "codemcp-linux-x86_64"));
    let step = step.update.step(UpdateEvent::Done);
    assert!(matches!(
        &step.action,
        UpdateAction::Copy { name, to } if name == "codemcp-linux-x86_64" && to == "/bin/codemcp.new"
    ));
    let step = step.update.step(UpdateEvent::Done);
    assert!(matches!(
        &step.action,
        UpdateAction::Replace { from, to } if from == "/bin/codemcp.new" && to == "/bin/codemcp"
    ));
    let step = step.update.step(UpdateEvent::Done);
    assert_eq!(step.lines, vec!["Updated codemcp 0.5.0 -> 0.6.0".to_string()]);
    assert!(matches!(step.action, UpdateAction::Finish { result: Ok(()), clean: true }));
    assert_eq!(step.update.stage(), Stage::Over);
}

#[test]
fn wrong_checksum_stops_the_update() {
    let step = begin().step(release("0.6.0"));
    let step = step.update.step(UpdateEvent::Bytes(b"abc".to_vec()));
    let step = step.update.step(UpdateEvent::Sum(Some("1234 x".to_string())));
    assert_eq!(
        step.lines,
        vec![format!(
            "warning: checksum mismatch (expected 1234, got {ABC}); update aborted for safety"
        )]
    );
    assert_eq!(failure(step.action), "checksum verification failed");
}

#[test]
fn missing_checksum_lets_the_update_pass() {
    let step = begin().step(release("0.6.0"));
    let step = step.update.step(UpdateEvent::Bytes(Vec::new()));
    let step = step.update.step(UpdateEvent::Sum(None));
    assert_eq!(step.lines, vec!["checksum ok".to_string()]);
}

#[test]
fn current_version_is_left_alone() {
    let step = begin().step(release("0.5.0"));
    assert_eq!(step.lines, vec!["codemcp is already up to date (0.5.0).".to_string()]);
    assert!(matches!(step.action, UpdateAction::Finish { result: Ok(()), clean: false }));
}

#[test]
fn update_reports_what_is_wrong() {
    assert_eq!(
        Update::begin("plan9", "x86_64", "1").unwrap_err().message(),
        "unsupported OS for self-update: plan9 (supported: macOS, Linux)"
    );
    assert_eq!(
        Update::begin("macos", "vax", "1").unwrap_err().message(),
        "unsupported architecture for self-update: vax (supported: arm64, x86_64)"
    );
    let step = begin().step(UpdateEvent::Latest(Err(Error::Other("off".to_string()))));
    assert_eq!(failure(step.action), "off");
    let downloading = || begin().step(release("1.0")).update;
    let step = downloading().step(UpdateEvent::NotSent("tls".to_string()));
    assert_eq!(
        failure(step.action),
        "failed to download: https://github.com/skymoore/codemcp/releases/download/v1.0/codemcp-linux-x86_64.tar.gz: tls"
    );
    let step = downloading().step(UpdateEvent::NotRead("cut".to_string()));
    assert_eq!(failure(step.action), "failed reading response: cut");
    let locating = || {
        let step = downloading().step(UpdateEvent::Bytes(Vec::new()));
        step.update.step(UpdateEvent::Sum(None)).update
    };
    let step = locating().step(UpdateEvent::NotLocated("proc".to_string()));
    assert_eq!(failure(step.action), "cannot determine current binary path: proc");
    let located = |parent: Option<&str>| {
        let parent = parent.map(|p| p.to_string());
        locating().step(UpdateEvent::Located { path: "/b/codemcp".to_string(), parent }).update
    };
    let step = located(Some("/b")).step(UpdateEvent::Failed("bad gzip".to_string()));
    assert_eq!(failure(step.action), "bad gzip");
    let step = located(Some("/b")).step(UpdateEvent::Done);
    let step = step.update.step(UpdateEvent::Probed { named: false, plain: false });
    assert_eq!(failure(step.action), "binary not found inside tarball");
    let step = located(None).step(UpdateEvent::Done);
    let step = step.update.step(UpdateEvent::Probed { named: false, plain: true });
    assert!(matches!(&step.action, UpdateAction::MakeExecutable(n) if n == "codemcp"));
    let step = step.update.step(UpdateEvent::Done);
    assert_eq!(failure(step.action), "no parent directory");
    let step = located(Some("/b")).step(UpdateEvent::Done);
    let step = step.update.step(UpdateEvent::Probed { named: true, plain: true });
    let step = step.update.step(UpdateEvent::Done);
    let step = step.update.step(UpdateEvent::Done);
    let step = step.update.step(UpdateEvent::Failed("denied".to_string()));
    assert_eq!(
        failure(step.action),
        "failed to replace binary – is '/b/codemcp' writable? Try: sudo codemcp update"
    );
}

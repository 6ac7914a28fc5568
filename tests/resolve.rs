use dragalia_cdn::grammar::{validate, FileRef, Kind};
use dragalia_cdn::search::{after_check, begin_search, candidate_path, join_path, Action};
use dragalia_cdn::service::{after_read, info, peer_fallback, Reply};

const HASH: &str = "ABCDEFGHIJKLMNOPQRSTUVWXYZ234567ABCDEFGHIJKLMNOPQRST";

/// Runs the search with `present` standing for the file system; returns the
/// paths tested and the final action.
fn run(roots: &Vec<String>, f: &FileRef, present: &[bool]) -> (Vec<String>, Action) {
    let mut tested = Vec::new();
    let mut action = begin_search(roots, f);
    loop {
        match action {
            Action::Check { root, path } => {
                tested.push(path);
                action = after_check(roots, f, root, present[root]);
            }
            other => return (tested, other),
        }
    }
}

fn roots(names: &[&str]) -> Vec<String> {
    names.iter().map(|s| s.to_string()).collect()
}

/// The whole pipeline for one request, with `files` standing for the disk.
fn respond(
    kind: Kind,
    tail: &str,
    request_path: &str,
    dirs: &Vec<String>,
    files: &[(&str, &[u8])],
    peer: &str,
) -> Reply {
    let f = match validate(kind, tail) {
        None => return Reply::Forbidden,
        Some(f) => f,
    };
    let mut action = begin_search(dirs, &f);
    loop {
        match action {
            Action::Check { root, path } => {
                let exists = files.iter().any(|(p, _)| *p == path);
                action = after_check(dirs, &f, root, exists);
            }
            Action::Read { path } => {
                let content = files.iter().find(|(p, _)| *p == path).map(|(_, b)| b.to_vec());
                return after_read(content);
            }
            Action::Unresolved => return peer_fallback(peer, request_path),
        }
    }
}

#[test]
fn join_adds_one_separator() {
    assert_eq!(join_path("root", "AA"), "root/AA");
    assert_eq!(join_path("root/", "AA"), "root/AA");
    assert_eq!(join_path("", "AA"), "AA");
    let f = FileRef { dir: "AA".to_string(), file: HASH.to_string() };
    assert_eq!(candidate_path("/srv/assets", &f), format!("/srv/assets/AA/{}", HASH));
}

#[test]
fn search_stops_at_first_root_holding_the_file() {
    let r = roots(&["r1", "r2", "r3", "r4"]);
    let f = FileRef { dir: "AA".to_string(), file: "H".to_string() };
    for k in 1..=4usize {
        let mut present = vec![false; 4];
        present[k - 1] = true;
        for later in present.iter_mut().skip(k) {
            *later = true;
        }
        let (tested, last) = run(&r, &f, &present);
        let expected: Vec<String> = (1..=k).map(|i| format!("r{}/AA/H", i)).collect();
        assert_eq!(tested, expected);
        match last {
            Action::Read { path } => assert_eq!(path, format!("r{}/AA/H", k)),
            _ => panic!("expected a read"),
        }
    }
}

#[test]
fn search_with_no_hit_tests_every_root() {
    let r = roots(&["a", "b"]);
    let f = FileRef { dir: "x".to_string(), file: "y".to_string() };
    let (tested, last) = run(&r, &f, &[false, false]);
    assert_eq!(tested, vec!["a/x/y".to_string(), "b/x/y".to_string()]);
    assert!(matches!(last, Action::Unresolved));
}

#[test]
fn search_with_no_roots_is_unresolved() {
    let f = FileRef { dir: "x".to_string(), file: "y".to_string() };
    assert!(matches!(begin_search(&Vec::new(), &f), Action::Unresolved));
}

#[test]
fn missing_file_with_peer_header_redirects() {
    let tail = format!("Android/x/AA{}", HASH);
    let request = format!("/dl/assetbundles/{}", tail);
    let r = respond(Kind::Asset, &tail, &request, &roots(&["r1", "r2"]), &[], "https://peer.example");
    assert_eq!(r.status(), 308);
    match r {
        Reply::Redirect(to) => {
            assert_eq!(to, format!("https://peer.example/dl/assetbundles/Android/x/AA{}", HASH))
        }
        _ => panic!("expected a redirect"),
    }
}

#[test]
fn missing_file_without_peer_header_is_not_found() {
    let tail = format!("Android/x/AA{}", HASH);
    let request = format!("/dl/assetbundles/{}", tail);
    let r = respond(Kind::Asset, &tail, &request, &roots(&["r1", "r2"]), &[], "");
    assert_eq!(r.status(), 404);
    assert!(matches!(r, Reply::NotResolved));
}

#[test]
fn bad_path_is_forbidden_before_any_search() {
    let r = respond(Kind::Asset, "Windows/x/AA", "/dl/assetbundles/Windows/x/AA", &roots(&["r"]), &[], "");
    assert_eq!(r.status(), 403);
    let m = respond(Kind::Manifest, "Android/abc/assetbundle.xx_yy.manifest", "/p", &roots(&["r"]), &[], "https://peer.example");
    assert_eq!(m.status(), 403);
}

#[test]
fn file_under_sole_root_is_served_byte_for_byte() {
    let tail = format!("iOS/anything/AA{}", HASH);
    let stored = format!("root/AA/{}", HASH);
    let bytes: &[u8] = &[0, 1, 2, 255, 128, 7];
    let r = respond(Kind::Asset, &tail, "/unused", &roots(&["root"]), &[(&stored, bytes)], "https://peer.example");
    assert_eq!(r.status(), 200);
    match r {
        Reply::Served(b) => assert_eq!(b, bytes.to_vec()),
        _ => panic!("expected the file"),
    }
}

#[test]
fn manifest_is_served_from_second_root() {
    let bytes: &[u8] = b"list";
    let r = respond(
        Kind::Manifest,
        "Android/abc/assetbundle.en_us.manifest",
        "/dl/manifests/Android/abc/assetbundle.en_us.manifest",
        &roots(&["m1", "m2/"]),
        &[("m2/abc/assetbundle.en_us.manifest", bytes)],
        "",
    );
    match r {
        Reply::Served(b) => assert_eq!(b, b"list".to_vec()),
        _ => panic!("expected the manifest"),
    }
}

#[test]
fn failed_read_is_reported_as_not_found() {
    let r = after_read(None);
    assert!(matches!(r, Reply::ReadFailed));
    assert_eq!(r.status(), 404);
    let ok = after_read(Some(vec![9, 8]));
    assert_eq!(ok.status(), 200);
}

#[test]
fn info_is_always_ok() {
    let r = info();
    assert_eq!(r.status(), 200);
    match r {
        Reply::Text(t) => assert_eq!(t, "omg cross-platform rust"),
        _ => panic!("expected text"),
    }
}

#[test]
fn every_reply_has_its_status() {
    assert_eq!(Reply::Text(String::new()).status(), 200);
    assert_eq!(Reply::Served(Vec::new()).status(), 200);
    assert_eq!(Reply::Redirect("x".to_string()).status(), 308);
    assert_eq!(Reply::Forbidden.status(), 403);
    assert_eq!(Reply::NotResolved.status(), 404);
    assert_eq!(Reply::ReadFailed.status(), 404);
}

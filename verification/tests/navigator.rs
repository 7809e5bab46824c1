use chimera_ruffle::navigator::{
    name_in_vfs, read_whole, run_tasks, url_to_vfs_path, FetchStep, GuestNavigator, GuestResponse,
    ReadError, ReadStep, ReadWhole,
};

fn navigator() -> GuestNavigator<u32> {
    GuestNavigator::new()
}

fn path_of(url: &str) -> String {
    url_to_vfs_path(&navigator().resolve_url(url).unwrap())
}

/// The names a load tries when no file is there, and how it ends.
fn names_tried(url: &str) -> (Vec<String>, FetchStep) {
    let mut names = Vec::new();
    let mut step = navigator().fetch(url);
    loop {
        match step {
            FetchStep::Read { fetch, name } => {
                names.push(name);
                step = fetch.settle(Err("No such file or directory".to_string()));
            }
            end => return (names, end),
        }
    }
}

#[test]
fn file_url_is_its_path() {
    assert_eq!(path_of("file:///foo/bar.swf"), "foo/bar.swf");
}

#[test]
fn other_url_is_host_and_path() {
    assert_eq!(path_of("http://host/foo"), "host/foo");
    assert_eq!(path_of("http://host/"), "host");
    assert_eq!(path_of("http://host"), "host");
}

#[test]
fn relative_url_is_under_the_root() {
    assert_eq!(path_of("levels.xml"), "levels.xml");
    assert_eq!(path_of("assets/levels.xml"), "assets/levels.xml");
    assert_eq!(path_of("../../up.xml"), "up.xml");
    assert_eq!(path_of("a/./b.xml?x=1#y"), "a/b.xml");
}

#[test]
fn plain_name_is_itself_at_the_root() {
    let l = navigator().resolve_url("A-b_9.swf").unwrap();
    assert_eq!(l.href, "file:///A-b_9.swf");
    assert_eq!(l.scheme, "file");
    assert_eq!(l.host, None);
    assert_eq!(l.path, "/A-b_9.swf");
    for name in ["...", "a", "-", "con.txt", "C"] {
        assert_eq!(navigator().resolve_url(name).unwrap().href, format!("file:///{}", name));
    }
}

#[test]
fn plain_path_is_itself_under_the_root() {
    for path in ["assets/levels.xml", "a/b/c/d.e", "C/x", "z/.../-_"] {
        let l = navigator().resolve_url(path).unwrap();
        assert_eq!(l.href, format!("file:///{}", path));
        assert_eq!(l.path, format!("/{}", path));
        assert_eq!(l.host, None);
        assert_eq!(path_of(path), path);
    }
}

#[test]
fn escapes_are_decoded() {
    assert_eq!(path_of("my file.xml"), "my file.xml");
    assert_eq!(path_of("my%20file.xml"), "my file.xml");
    assert_eq!(path_of("%4a%4B%c3%b6"), "JK\u{f6}");
    assert_eq!(path_of("100%25%2"), "100%%2");
    assert_eq!(path_of("%ff.xml"), "\u{fffd}.xml");
    assert_eq!(path_of("%zz.xml"), "%zz.xml");
}

#[test]
fn leading_slashes_are_dropped() {
    assert_eq!(path_of("/abs.xml"), "abs.xml");
    assert_eq!(path_of("file:////twice.xml"), "twice.xml");
}

#[test]
fn host_and_name_are_joined_by_a_slash() {
    let host = Some("h".to_string());
    assert_eq!(name_in_vfs("http", &host, "f"), "h/f");
    assert_eq!(name_in_vfs("http", &host, ""), "h");
    assert_eq!(name_in_vfs("http", &None, "f"), "f");
    assert_eq!(name_in_vfs("file", &host, "f"), "f");
}

#[test]
fn no_url_is_refused() {
    match navigator().fetch("http://[") {
        FetchStep::Invalid { url, error } => {
            assert_eq!(url, "http://[");
            assert_eq!(error, "invalid IPv6 address");
        }
        _ => panic!("a URL was read"),
    }
    assert_eq!(navigator().resolve_url("http://a b/").err(), Some("invalid international domain name".to_string()));
}

#[test]
fn asked_for_then_called() {
    let (names, end) = names_tried("http://host/dir/levels.xml");
    assert_eq!(names, vec!["host/dir/levels.xml".to_string(), "levels.xml".to_string()]);
    match end {
        FetchStep::Missing { url, path, error } => {
            assert_eq!(url, "http://host/dir/levels.xml");
            assert_eq!(path, "host/dir/levels.xml");
            assert_eq!(error, "No such file or directory");
        }
        _ => panic!("something was found"),
    }
}

#[test]
fn bare_name_is_tried_once() {
    assert_eq!(names_tried("levels.xml").0, vec!["levels.xml".to_string()]);
}

#[test]
fn directory_has_no_other_name() {
    assert_eq!(names_tried("dir/").0, vec!["dir/".to_string()]);
}

#[test]
fn found_file_is_handed_over() {
    match navigator().fetch("dir/a.xml") {
        FetchStep::Read { fetch, .. } => match fetch.settle(Ok(vec![1, 2, 3])) {
            FetchStep::Found(r) => {
                assert_eq!(r.url(), "file:///dir/a.xml");
                assert_eq!(r.expected_length(), Some(3));
                assert_eq!(r.status(), 0);
                assert!(!r.redirected());
                assert_eq!(r.body(), vec![1, 2, 3]);
            }
            _ => panic!("not found"),
        },
        _ => panic!("not read"),
    }
}

#[test]
fn body_streams_once() {
    let mut r = GuestResponse { url: "u".to_string(), body: vec![7, 8], chunk_gotten: false };
    assert_eq!(r.next_chunk(), Some(vec![7, 8]));
    assert_eq!(r.next_chunk(), None);
    assert_eq!(r.next_chunk(), None);
    r.set_url("v".to_string());
    assert_eq!(r.url(), "v");
    assert_eq!(r.body(), vec![7, 8]);
}

#[test]
fn empty_body_is_still_a_chunk() {
    let mut r = GuestResponse { url: String::new(), body: Vec::new(), chunk_gotten: false };
    assert_eq!(r.next_chunk(), Some(Vec::new()));
    assert_eq!(r.next_chunk(), None);
}

#[test]
fn pending_loads_wait_for_the_next_frame() {
    let mut n = navigator();
    n.spawn_future(1);
    n.spawn_future(2);
    n.spawn_future(3);
    let batch = n.take_batch();
    assert_eq!(batch, vec![1, 2, 3]);
    assert!(n.tasks.is_empty());
    n.spawn_future(9);
    run_tasks(&mut n, batch, &vec![true, false, true]);
    assert_eq!(n.tasks, vec![9, 1, 3]);
}

#[test]
fn path_to_open_ends_in_a_zero() {
    assert!(matches!(read_whole("game"), ReadStep::Open(p) if p == b"game\0"));
}

#[test]
fn missing_file_is_told_from_other_errors() {
    let (_, step) = ReadWhole::opened(-1, 2);
    assert!(matches!(step, ReadStep::Failed(ReadError::NotFound)));
    let (_, step) = ReadWhole::opened(-1, 13);
    assert!(matches!(step, ReadStep::Failed(ReadError::Os(13))));
}

#[test]
fn file_is_read_to_its_end() {
    let (mut file, step) = ReadWhole::opened(3, 0);
    assert!(matches!(step, ReadStep::Read { fd: 3 }));
    assert!(matches!(file.took(&[1, 2, 0, 0], 2, 0), ReadStep::Read { fd: 3 }));
    assert!(matches!(file.took(&[3, 4, 5, 6], 4, 0), ReadStep::Read { fd: 3 }));
    match file.took(&[9, 9], 0, 0) {
        ReadStep::Close { fd: 3, outcome: Ok(bytes) } => assert_eq!(bytes, vec![1, 2, 3, 4, 5, 6]),
        _ => panic!("not closed"),
    }
}

#[test]
fn failing_read_closes_the_file() {
    let (mut file, _) = ReadWhole::opened(0, 0);
    match file.took(&[], -1, 5) {
        ReadStep::Close { fd: 0, outcome: Err(e) } => assert_eq!(e, ReadError::Os(5)),
        _ => panic!("not closed"),
    }
}

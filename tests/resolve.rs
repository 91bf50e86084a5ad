use dynamic_reload::{ancestors, find_library, get_search_paths, resolve, search_candidates, Error};

#[test]
fn test_search_paths_none() {
    assert_eq!(get_search_paths(None, &vec![]).len(), 0);
}

#[test]
fn test_search_paths_some() {
    assert_eq!(
        get_search_paths(Some(vec!["test".to_string(), "test".to_string()]), &vec![]).len(),
        2
    );
}

#[test]
fn search_paths_prefer_canonical_forms() {
    let paths = get_search_paths(
        Some(vec!["a".to_string(), "b".to_string(), "c".to_string()]),
        &vec![Some("/abs/a".to_string()), None],
    );
    assert_eq!(paths, vec!["/abs/a".to_string(), "b".to_string(), "c".to_string()]);
}

#[test]
fn ancestors_walk_up_to_the_root() {
    assert_eq!(ancestors("/a/b/app"), vec!["/a/b", "/a", "/"]);
    assert_eq!(ancestors("x/y"), vec!["x", ""]);
    assert!(ancestors("").is_empty());
    assert!(ancestors("/").is_empty());
}

#[test]
fn candidates_follow_the_search_order() {
    let search_paths = vec!["plugins".to_string(), "/opt/libs".to_string()];
    let candidates = search_candidates("libalpha.so", &search_paths, "/home/u/bin/host");
    assert_eq!(
        candidates,
        vec![
            "libalpha.so",
            "plugins/libalpha.so",
            "/opt/libs/libalpha.so",
            "/home/u/bin/libalpha.so",
            "/home/u/libalpha.so",
            "/home/libalpha.so",
            "/libalpha.so",
        ]
    );
}

#[test]
fn candidates_without_search_paths_or_executable() {
    assert_eq!(search_candidates("libalpha.so", &vec![], ""), vec!["libalpha.so"]);
}

#[test]
fn working_directory_wins_over_search_paths() {
    let search_paths = vec!["plugins".to_string()];
    let candidates = search_candidates("libalpha.so", &search_paths, "/bin/host");
    let mut found = vec![false; candidates.len()];
    found[0] = true;
    found[1] = true;
    assert_eq!(resolve(&candidates, &found), Some("libalpha.so".to_string()));
}

#[test]
fn first_found_candidate_wins() {
    let candidates: Vec<String> = vec!["a".into(), "b".into(), "c".into(), "d".into()];
    assert_eq!(resolve(&candidates, &vec![false, false, true, true]), Some("c".to_string()));
    assert_eq!(resolve(&candidates, &vec![false, false, false, true]), Some("d".to_string()));
}

#[test]
fn nothing_found_is_a_find_error() {
    let candidates = search_candidates("libwont_find_this_lib.so", &vec!["x".to_string()], "/bin/h");
    let found = vec![false; candidates.len()];
    assert_eq!(resolve(&candidates, &found), None);
    match find_library("wont_find_this_lib", &candidates, &found) {
        Err(Error::Find(name)) => assert_eq!(name, "wont_find_this_lib"),
        _ => panic!("expected a find error"),
    }
}

#[test]
fn found_library_is_located() {
    let candidates: Vec<String> = vec!["libalpha.so".into(), "plugins/libalpha.so".into()];
    match find_library("alpha", &candidates, &vec![false, true]) {
        Ok(path) => assert_eq!(path, "plugins/libalpha.so"),
        Err(_) => panic!("expected the library to be found"),
    }
}

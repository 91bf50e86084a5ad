use dynamic_reload::{should_reload, Lib, Registry};
use std::sync::Arc;

fn handle() -> libloading::Library {
    libloading::Library::from(libloading::os::unix::Library::this())
}

fn lib(loaded: &str, original: Option<&str>) -> Lib {
    Lib {
        lib: handle(),
        loaded_path: loaded.to_string(),
        original_path: original.map(|o| o.to_string()),
    }
}

#[test]
fn test_lib_equals_true() {
    let lib = Arc::new(lib("shadow/1_libtest_shared.so", Some("target/debug/libtest_shared.so")));
    let lib2 = lib.clone();
    assert!(lib == lib2);
}

#[test]
fn test_lib_equals_false() {
    let lib0 = lib("shadow/1_test_file_2", Some("target/debug/test_file_2"));
    let lib1 = lib("shadow/2_libtest_shared.so", Some("target/debug/libtest_shared.so"));
    assert!(lib0 != lib1);
}

#[test]
fn identity_ignores_loaded_path_and_handle() {
    let a = lib("shadow/1_libalpha.so", Some("plugins/libalpha.so"));
    let b = lib("shadow/2_libalpha.so", Some("plugins/libalpha.so"));
    assert!(a == b);
    let c = lib("plugins/libalpha.so", None);
    let d = lib("other/libalpha.so", None);
    assert!(c == d);
    assert!(a != c);
}

#[test]
fn change_matches_by_file_name() {
    let watched = lib("shadow/1_libalpha.so", Some("/work/plugins/libalpha.so"));
    assert!(should_reload("/work/plugins/libalpha.so", &watched));
    assert!(should_reload("/elsewhere/libalpha.so", &watched));
    assert!(!should_reload("/work/plugins/libbeta.so", &watched));
    assert!(!should_reload("/tmp/shadow/1_libalpha.so", &watched));
    let in_place = lib("/work/plugins/libalpha.so", None);
    assert!(!should_reload("/work/plugins/libalpha.so", &in_place));
}

#[test]
fn adding_registers_and_asks_for_one_watch_per_directory() {
    let mut reg = Registry::new(true, false);
    let (a, watch_a) = reg.add(lib("s/1_liba.so", Some("/p/liba.so")));
    assert_eq!(a.loaded_path, "s/1_liba.so");
    assert_eq!(watch_a, Some("/p".to_string()));
    let (_, watch_b) = reg.add(lib("s/2_libb.so", Some("/p/libb.so")));
    assert_eq!(watch_b, None);
    let (_, watch_c) = reg.add(lib("s/3_libc.so", Some("/q/libc.so")));
    assert_eq!(watch_c, Some("/q".to_string()));
    let (_, watch_d) = reg.add(lib("/r/libd.so", None));
    assert_eq!(watch_d, None);
    assert_eq!(reg.len(), 4);
    assert_eq!(reg.watched_dirs(), &vec!["/p".to_string(), "/q".to_string()]);
}

#[test]
fn nothing_is_watched_without_a_watcher() {
    let mut reg = Registry::new(false, false);
    let (_, watch) = reg.add(lib("s/1_liba.so", Some("/p/liba.so")));
    assert_eq!(watch, None);
    assert!(reg.watched_dirs().is_empty());
    assert!(!reg.is_watching());
}

#[test]
fn adding_the_same_source_replaces_it() {
    let mut reg = Registry::new(true, false);
    reg.add(lib("s/1_liba.so", Some("/p/liba.so")));
    reg.add(lib("s/1_libb.so", Some("/p/libb.so")));
    reg.add(lib("s/2_liba.so", Some("/p/liba.so")));
    assert_eq!(reg.len(), 2);
    assert_eq!(reg.get(0).loaded_path, "s/1_libb.so");
    assert_eq!(reg.get(1).loaded_path, "s/2_liba.so");
}

#[test]
fn removing_moves_the_last_into_place() {
    let mut reg = Registry::new(true, false);
    reg.add(lib("s/1_liba.so", Some("/p/liba.so")));
    reg.add(lib("s/1_libb.so", Some("/p/libb.so")));
    reg.add(lib("s/1_libc.so", Some("/p/libc.so")));
    reg.remove_lib(0);
    assert_eq!(reg.len(), 2);
    assert_eq!(reg.get(0).loaded_path, "s/1_libc.so");
    assert_eq!(reg.get(1).loaded_path, "s/1_libb.so");
}

#[test]
fn removing_with_never_unload_keeps_handles_alive() {
    let mut reg = Registry::new(true, true);
    let (a, _) = reg.add(lib("s/1_liba.so", Some("/p/liba.so")));
    reg.remove_lib(0);
    assert_eq!(reg.len(), 0);
    assert_eq!(Arc::strong_count(&a), 2);
}

use dynamic_reload::{decimal, format_filename, load_plan, shadow_file_name, Error};

#[test]
fn decimal_digits() {
    assert_eq!(decimal(0), "0");
    assert_eq!(decimal(7), "7");
    assert_eq!(decimal(10), "10");
    assert_eq!(decimal(1234), "1234");
    assert_eq!(decimal(u64::MAX), "18446744073709551615");
}

#[test]
fn shadow_names_carry_the_time_stamp() {
    assert_eq!(shadow_file_name(1700000000123, "libalpha.so"), "1700000000123_libalpha.so");
    assert_ne!(shadow_file_name(1, "libalpha.so"), shadow_file_name(2, "libalpha.so"));
}

#[test]
fn shadow_path_lies_in_the_shadow_directory() {
    assert_eq!(
        format_filename("/tmp/shadow", "plugins/libalpha.so", 42),
        Some("/tmp/shadow/42_libalpha.so".to_string())
    );
    assert_eq!(format_filename("/tmp/shadow", "/", 42), None);
}

#[test]
fn staging_with_shadow_never_loads_the_source() {
    let shadow = Some("/tmp/shadow".to_string());
    let plan = match load_plan(&shadow, "plugins/libalpha.so", 5) {
        Ok(plan) => plan,
        Err(_) => panic!("expected a plan"),
    };
    assert_eq!(plan.loaded_path, "/tmp/shadow/5_libalpha.so");
    assert_ne!(plan.loaded_path, "plugins/libalpha.so");
    assert_eq!(plan.original_path, Some("plugins/libalpha.so".to_string()));
}

#[test]
fn staging_in_the_source_directory_still_differs() {
    let shadow = Some("plugins".to_string());
    let plan = match load_plan(&shadow, "plugins/libalpha.so", 0) {
        Ok(plan) => plan,
        Err(_) => panic!("expected a plan"),
    };
    assert_eq!(plan.loaded_path, "plugins/0_libalpha.so");
    assert_ne!(plan.loaded_path, "plugins/libalpha.so");
}

#[test]
fn staging_without_shadow_loads_in_place() {
    let plan = match load_plan(&None, "plugins/libalpha.so", 5) {
        Ok(plan) => plan,
        Err(_) => panic!("expected a plan"),
    };
    assert_eq!(plan.loaded_path, "plugins/libalpha.so");
    assert_eq!(plan.original_path, None);
}

#[test]
fn staging_a_path_without_file_name_fails() {
    match load_plan(&Some("/tmp/shadow".to_string()), "/", 5) {
        Err(Error::Find(p)) => assert_eq!(p, "/"),
        _ => panic!("expected a find error"),
    }
}

#[test]
fn later_copies_are_staged_apart() {
    let shadow = Some("/tmp/shadow".to_string());
    let first = match load_plan(&shadow, "plugins/libalpha.so", 1000) {
        Ok(plan) => plan.loaded_path,
        Err(_) => panic!("expected a plan"),
    };
    let second = match load_plan(&shadow, "plugins/libalpha.so", 1001) {
        Ok(plan) => plan.loaded_path,
        Err(_) => panic!("expected a plan"),
    };
    assert_ne!(first, second);
    assert_ne!(shadow_file_name(1, "1_a.so"), shadow_file_name(11, "a.so"));
}

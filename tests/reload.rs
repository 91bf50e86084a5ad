use dynamic_reload::{
    find_library, get_library_name, load_plan, search_candidates, Error, Lib, Platform,
    PlatformName, Registry, ReloadAction, ReloadPass, UpdateState,
};
use std::sync::Arc;

fn handle() -> libloading::Library {
    libloading::Library::from(libloading::os::unix::Library::this())
}

fn lib(loaded: &str, original: Option<&str>) -> Lib {
    Lib {
        lib: handle(),
        loaded_path: loaded.to_string(),
        original_path: original.map(|o| o.to_string()),
    }
}

/// Adds "alpha" from the search path "plugins" with shadowing into "/tmp/shadow".
fn scenario_a(reg: &mut Registry) -> Arc<Lib> {
    let name = get_library_name("alpha", PlatformName::Yes, Platform::Unix);
    let search_paths = vec!["plugins".to_string()];
    let candidates = search_candidates(&name, &search_paths, "/usr/bin/host");
    let mut found = vec![false; candidates.len()];
    found[1] = true;
    let path = match find_library("alpha", &candidates, &found) {
        Ok(path) => path,
        Err(_) => panic!("expected alpha to be found"),
    };
    assert_eq!(path, "plugins/libalpha.so");
    let plan = match load_plan(&Some("/tmp/shadow".to_string()), &path, 1000) {
        Ok(plan) => plan,
        Err(_) => panic!("expected a plan"),
    };
    let (handle, watch) = reg.add(Lib {
        lib: handle(),
        loaded_path: plan.loaded_path,
        original_path: plan.original_path,
    });
    assert_eq!(watch, Some("plugins".to_string()));
    handle
}

#[test]
fn scenario_add_with_shadowing() {
    let mut reg = Registry::new(true, false);
    let alpha = scenario_a(&mut reg);
    assert_eq!(alpha.original_path, Some("plugins/libalpha.so".to_string()));
    assert!(alpha.loaded_path.starts_with("/tmp/shadow/"));
    assert_eq!(alpha.loaded_path, "/tmp/shadow/1000_libalpha.so");
    assert_eq!(reg.len(), 1);
}

#[test]
fn scenario_reload_succeeds() {
    let mut reg = Registry::new(true, false);
    let old = scenario_a(&mut reg);
    let mut pass = ReloadPass::new("/work/plugins/libalpha.so".to_string(), &reg);
    match pass.next(&mut reg) {
        ReloadAction::Notify(UpdateState::Before, Some(l)) => assert!(Arc::ptr_eq(&l, &old)),
        _ => panic!("expected Before"),
    }
    assert_eq!(reg.len(), 1);
    let source = match pass.next(&mut reg) {
        ReloadAction::Load(source) => source,
        _ => panic!("expected a load"),
    };
    assert_eq!(source, "plugins/libalpha.so");
    assert_eq!(reg.len(), 0);
    assert!(pass.is_loading());
    let plan = match load_plan(&Some("/tmp/shadow".to_string()), &source, 2000) {
        Ok(plan) => plan,
        Err(_) => panic!("expected a plan"),
    };
    let new = match pass.loaded(&mut reg, Ok((handle(), plan.loaded_path))) {
        ReloadAction::Notify(UpdateState::After, Some(l)) => l,
        _ => panic!("expected After"),
    };
    assert_ne!(new.loaded_path, old.loaded_path);
    assert_eq!(new.loaded_path, "/tmp/shadow/2000_libalpha.so");
    assert!(*new == *old);
    assert!(matches!(pass.next(&mut reg), ReloadAction::Done));
    assert_eq!(reg.len(), 1);
    assert!(Arc::ptr_eq(reg.get(0), &new));
    assert_eq!(reg.watched_dirs(), &vec!["plugins".to_string()]);
}

#[test]
fn scenario_reload_fails_to_load() {
    let mut reg = Registry::new(true, false);
    scenario_a(&mut reg);
    let mut pass = ReloadPass::new("plugins/libalpha.so".to_string(), &reg);
    assert!(matches!(pass.next(&mut reg), ReloadAction::Notify(UpdateState::Before, Some(_))));
    assert!(matches!(pass.next(&mut reg), ReloadAction::Load(_)));
    match pass.loaded(&mut reg, Err(Error::Load("invalid ELF header".to_string()))) {
        ReloadAction::Notify(UpdateState::ReloadFailed(Error::Load(cause)), None) => {
            assert_eq!(cause, "invalid ELF header")
        }
        _ => panic!("expected ReloadFailed"),
    }
    assert!(matches!(pass.next(&mut reg), ReloadAction::Done));
    assert_eq!(reg.len(), 0);
}

#[test]
fn each_reload_is_before_load_then_one_outcome() {
    let mut reg = Registry::new(true, false);
    reg.add(lib("s/1_liba.so", Some("/x/liba.so")));
    reg.add(lib("s/1_libb.so", Some("/y/libb.so")));
    reg.add(lib("s/2_liba.so", Some("/z/liba.so")));
    let mut pass = ReloadPass::new("/x/liba.so".to_string(), &reg);
    let mut trace: Vec<String> = Vec::new();
    let mut failed_once = false;
    let mut action = pass.next(&mut reg);
    loop {
        action = match action {
            ReloadAction::Notify(state, lib) => {
                let tag = match state {
                    UpdateState::Before => "before",
                    UpdateState::After => "after",
                    UpdateState::ReloadFailed(_) => "failed",
                };
                let what = lib.map(|l| l.loaded_path.clone()).unwrap_or_default();
                trace.push(format!("{} {}", tag, what));
                pass.next(&mut reg)
            }
            ReloadAction::Load(source) => {
                trace.push(format!("load {}", source));
                if failed_once {
                    pass.loaded(&mut reg, Ok((handle(), format!("s/3_{}", &source[3..]))))
                } else {
                    failed_once = true;
                    pass.loaded(&mut reg, Err(Error::Load("busy".to_string())))
                }
            }
            ReloadAction::Done => break,
        };
    }
    assert_eq!(
        trace,
        vec![
            "before s/2_liba.so",
            "load /z/liba.so",
            "failed ",
            "before s/1_liba.so",
            "load /x/liba.so",
            "after s/3_liba.so",
        ]
    );
    assert_eq!(reg.len(), 2);
}

#[test]
fn unrelated_change_reloads_nothing() {
    let mut reg = Registry::new(true, false);
    reg.add(lib("s/1_liba.so", Some("/x/liba.so")));
    reg.add(lib("/y/libb.so", None));
    let mut pass = ReloadPass::new("/y/libb.so".to_string(), &reg);
    assert!(matches!(pass.next(&mut reg), ReloadAction::Done));
    assert_eq!(reg.len(), 2);
}

#[test]
fn empty_registry_pass_is_done() {
    let mut reg = Registry::new(true, false);
    let mut pass = ReloadPass::new("/x/liba.so".to_string(), &reg);
    assert!(matches!(pass.next(&mut reg), ReloadAction::Done));
}

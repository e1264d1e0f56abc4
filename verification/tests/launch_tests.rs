use wine_launcher::launch::plan_launch;
use wine_launcher::launch::prepare_launch;
use wine_launcher::launch::resolve_launch_paths;
use wine_launcher::launch::LaunchError;
use wine_launcher::launch::ResolvedLaunchPaths;
use wine_launcher::launch::WineConfig;
use wine_launcher::storage::loaded_instances;
use wine_launcher::supervise::completion_event;

fn resolved(game: &str, runtime: &str, bottle: &str) -> ResolvedLaunchPaths {
    ResolvedLaunchPaths {
        game_path: String::from(game),
        runtime_bin: String::from(runtime),
        bottle_path: String::from(bottle),
    }
}

#[test]
fn missing_executable_is_refused_before_anything_else() {
    let rp = resolved("/games/a.exe", "/apps/CrossOver.app/wine", "/bottles/Main");
    match plan_launch(&rp, false, true) {
        Err(LaunchError::PathNotFound(p)) => assert_eq!(p, "/games/a.exe"),
        _ => panic!("expected the executable to be reported missing"),
    }
    match plan_launch(&rp, false, false) {
        Err(LaunchError::PathNotFound(p)) => assert_eq!(p, "/games/a.exe"),
        _ => panic!("expected the executable to be reported missing"),
    }
}

#[test]
fn missing_runtime_is_reported_with_the_runtime_path() {
    let rp = resolved("/games/a.exe", "/apps/CrossOver.app/wine", "/bottles/Main");
    match plan_launch(&rp, true, false) {
        Err(LaunchError::PathNotFound(p)) => {
            assert_eq!(p, "/apps/CrossOver.app/wine");
            assert_ne!(p, "/games/a.exe");
        }
        _ => panic!("expected the runtime to be reported missing"),
    }
}

#[test]
fn bottle_path_without_name_is_refused() {
    let rp = resolved("/g.exe", "/wine", "/");
    match plan_launch(&rp, true, true) {
        Err(LaunchError::InvalidContainerName) => {}
        _ => panic!("expected the bottle name to be refused"),
    }
}

#[test]
fn successful_plan_carries_program_argument_name_and_environment() {
    let rp = resolved("/games/a.exe", "/apps/wine", "/bottles/MyBottle/");
    match plan_launch(&rp, true, true) {
        Ok(plan) => {
            assert_eq!(plan.program, "/apps/wine");
            assert_eq!(plan.arg, "/games/a.exe");
            assert_eq!(plan.container_name, "MyBottle");
            assert_eq!(plan.env.len(), 4);
            assert_eq!(plan.env[0].name, "CX_BOTTLE");
            assert_eq!(plan.env[0].value, "MyBottle");
            assert_eq!(plan.env[1].name, "WINEPREFIX");
            assert_eq!(plan.env[1].value, "/bottles/MyBottle/");
            assert_eq!(plan.env[2].name, "LC_ALL");
            assert_eq!(plan.env[2].value, "zh_CN.UTF-8");
            assert_eq!(plan.env[3].name, "WINEDEBUG");
            assert_eq!(plan.env[3].value, "-all");
        }
        _ => panic!("expected a full plan"),
    }
}

#[test]
fn launch_paths_resolve_shorthand_and_derive_the_wine_binary() {
    let config = WineConfig {
        bottle_path: String::from("~/bottles/B"),
        game_exe: String::from("~/games/a.exe"),
        crossover_app_path: String::from("~/apps/CrossOver.app"),
    };
    let home = String::from("/home/u");
    let rp = resolve_launch_paths(&config, Some(&home));
    assert_eq!(rp.game_path, "/home/u/games/a.exe");
    assert_eq!(
        rp.runtime_bin,
        "/home/u/apps/CrossOver.app/Contents/SharedSupport/CrossOver/bin/wine"
    );
    assert_eq!(rp.bottle_path, "/home/u/bottles/B");
}

#[test]
fn preparing_a_launch_for_a_missing_game_fails_without_a_plan() {
    let config = WineConfig {
        bottle_path: String::from("/bottles/B"),
        game_exe: String::from("/surely_missing_dir_for_tests_1234/a.exe"),
        crossover_app_path: String::from("/surely_missing_dir_for_tests_1234/CrossOver.app"),
    };
    match prepare_launch(&config) {
        Err(LaunchError::PathNotFound(p)) => {
            assert_eq!(p, "/surely_missing_dir_for_tests_1234/a.exe");
        }
        _ => panic!("expected the launch to be refused"),
    }
}

#[test]
fn launch_error_messages_describe_the_failure() {
    let e = LaunchError::PathNotFound(String::from("/a"));
    assert_eq!(e.message(), "path not found: /a");
    let e = LaunchError::InvalidContainerName;
    assert_eq!(e.message(), "bottle path has no final segment");
    let e = LaunchError::SpawnFailed(String::from("denied"));
    assert_eq!(e.message(), "failed to spawn process: denied");
}

#[test]
fn successful_wait_yields_exactly_one_event_with_the_same_identifier() {
    match completion_event(String::from("instance-7"), true, 42) {
        Some(e) => {
            assert_eq!(e.instance_id, "instance-7");
            assert_eq!(e.duration_sec, 42);
        }
        None => panic!("expected an event"),
    }
}

#[test]
fn failed_wait_yields_no_event() {
    assert!(completion_event(String::from("instance-7"), false, 42).is_none());
}

#[test]
fn absent_instances_load_as_the_empty_list() {
    assert_eq!(loaded_instances(None), "[]");
    assert_eq!(loaded_instances(Some(String::from("[{\"id\":1}]"))), "[{\"id\":1}]");
}

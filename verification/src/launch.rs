//! Validation and planning of a game launch: the three input paths are
//! resolved, the executable and the runtime's Wine binary are required to
//! exist, the bottle name is derived from the bottle path, and the exact
//! child-process environment is laid down. Spawning the planned process and
//! watching it run belong to the surrounding application.

use vstd::prelude::*;

use crate::fs_model::path_exists;
use crate::paths::file_name_of;
use crate::paths::opt_str_view;
use crate::paths::join_path;
use crate::paths::resolve_with_home;
use crate::paths::spec_file_name;
use crate::paths::spec_join;
use crate::paths::spec_resolve;

verus! {

/// One launch request: where the game's executable, its Wine bottle and
/// the CrossOver application sit. Paths may carry the `~/` home shorthand.
pub struct WineConfig {
    pub bottle_path: String,
    pub game_exe: String,
    pub crossover_app_path: String,
}

/// Why a launch was refused or failed.
pub enum LaunchError {
    /// A required filesystem component is missing; carries the resolved
    /// path that was checked.
    PathNotFound(String),
    /// The bottle path has no final segment to serve as the bottle's name.
    InvalidContainerName,
    /// The operating system refused to spawn the process; carries its
    /// description of the refusal.
    SpawnFailed(String),
}

impl LaunchError {
    /// A description of the failure, naming the checked path where one is
    /// involved.
    pub fn message(&self) -> (r: String)
        ensures
            self matches LaunchError::PathNotFound(p) ==> r@ == "path not found: "@ + p@,
            self matches LaunchError::InvalidContainerName ==> r@
                == "bottle path has no final segment"@,
            self matches LaunchError::SpawnFailed(p) ==> r@ == "failed to spawn process: "@ + p@,
    {
        match self {
            LaunchError::PathNotFound(p) => {
                let mut m = "path not found: ".to_owned();
                m.append(p.as_str());
                m
            },
            LaunchError::InvalidContainerName => "bottle path has no final segment".to_owned(),
            LaunchError::SpawnFailed(p) => {
                let mut m = "failed to spawn process: ".to_owned();
                m.append(p.as_str());
                m
            },
        }
    }
}

/// One environment variable of the planned child process.
pub struct EnvVar {
    pub name: String,
    pub value: String,
}

/// Everything the application needs to spawn the game: the Wine binary to
/// run, the executable handed to it as its sole argument, the four
/// mandatory environment variables in order, and the derived bottle name.
pub struct LaunchPlan {
    pub program: String,
    pub arg: String,
    pub env: Vec<EnvVar>,
    pub container_name: String,
}

/// The three paths of a request after home-shorthand expansion, with the
/// runtime's Wine binary derived below the CrossOver application.
pub struct ResolvedLaunchPaths {
    pub game_path: String,
    pub runtime_bin: String,
    pub bottle_path: String,
}

/// Where the Wine binary sits inside the CrossOver application bundle.
pub open spec fn wine_bin_rel() -> Seq<char> {
    "Contents/SharedSupport/CrossOver/bin/wine"@
}

/// The runtime's Wine binary for a request: the fixed relative location
/// joined under the resolved CrossOver application path.
pub open spec fn spec_runtime_bin(cx_app: Seq<char>, home: Option<Seq<char>>) -> Seq<char> {
    spec_join(spec_resolve(cx_app, home), wine_bin_rel())
}

/// A produced plan, spelled out field by field: the Wine binary as the
/// program, the game as its sole argument, the bottle's name, and exactly
/// the four mandatory environment variables.
pub open spec fn plan_matches(
    plan: LaunchPlan,
    game: Seq<char>,
    runtime: Seq<char>,
    bottle: Seq<char>,
    bottle_name: Seq<char>,
) -> bool {
    &&& plan.program@ == runtime
    &&& plan.arg@ == game
    &&& plan.container_name@ == bottle_name
    &&& plan.env@.len() == 4
    &&& plan.env@[0].name@ == "CX_BOTTLE"@ && plan.env@[0].value@ == bottle_name
    &&& plan.env@[1].name@ == "WINEPREFIX"@ && plan.env@[1].value@ == bottle
    &&& plan.env@[2].name@ == "LC_ALL"@ && plan.env@[2].value@ == "zh_CN.UTF-8"@
    &&& plan.env@[3].name@ == "WINEDEBUG"@ && plan.env@[3].value@ == "-all"@
}

/// Expands the request's three paths and derives the Wine binary path.
pub fn resolve_launch_paths(config: &WineConfig, home: Option<&String>) -> (r: ResolvedLaunchPaths)
    ensures
        r.game_path@ == spec_resolve(config.game_exe@, opt_str_view(home)),
        r.runtime_bin@ == spec_runtime_bin(config.crossover_app_path@, opt_str_view(home)),
        r.bottle_path@ == spec_resolve(config.bottle_path@, opt_str_view(home)),
{
    let game_path = resolve_with_home(config.game_exe.as_str(), home);
    let cx_app = resolve_with_home(config.crossover_app_path.as_str(), home);
    let runtime_bin = join_path(cx_app.as_str(), "Contents/SharedSupport/CrossOver/bin/wine");
    let bottle_path = resolve_with_home(config.bottle_path.as_str(), home);
    ResolvedLaunchPaths { game_path, runtime_bin, bottle_path }
}

/// Decides a launch from the resolved paths and the two existence checks:
/// a missing executable is reported first, then a missing runtime binary,
/// then a bottle path without a name; only when nothing is missing is the
/// full plan produced. No plan — and hence no process — ever comes out of
/// a failed validation.
pub fn plan_launch(rp: &ResolvedLaunchPaths, game_exists: bool, runtime_exists: bool) -> (r:
    Result<LaunchPlan, LaunchError>)
    ensures
        !game_exists ==> (r matches Err(LaunchError::PathNotFound(p)) && p@ == rp.game_path@),
        game_exists && !runtime_exists ==> (r matches Err(LaunchError::PathNotFound(p)) && p@
            == rp.runtime_bin@),
        game_exists && runtime_exists && spec_file_name(rp.bottle_path@) is None ==> r matches Err(
            LaunchError::InvalidContainerName,
        ),
        game_exists && runtime_exists ==> (spec_file_name(rp.bottle_path@) matches Some(bn) ==> (
        r matches Ok(plan) && plan_matches(plan, rp.game_path@, rp.runtime_bin@, rp.bottle_path@, bn))),
{
    if !game_exists {
        return Err(LaunchError::PathNotFound(clone_string(&rp.game_path)));
    }
    if !runtime_exists {
        return Err(LaunchError::PathNotFound(clone_string(&rp.runtime_bin)));
    }
    let bottle_name = match file_name_of(rp.bottle_path.as_str()) {
        None => {
            return Err(LaunchError::InvalidContainerName);
        },
        Some(n) => n,
    };
    let mut env: Vec<EnvVar> = Vec::new();
    env.push(EnvVar { name: "CX_BOTTLE".to_owned(), value: clone_string(&bottle_name) });
    env.push(EnvVar { name: "WINEPREFIX".to_owned(), value: clone_string(&rp.bottle_path) });
    env.push(EnvVar { name: "LC_ALL".to_owned(), value: "zh_CN.UTF-8".to_owned() });
    env.push(EnvVar { name: "WINEDEBUG".to_owned(), value: "-all".to_owned() });
    let plan = LaunchPlan {
        program: clone_string(&rp.runtime_bin),
        arg: clone_string(&rp.game_path),
        env,
        container_name: bottle_name,
    };
    Ok(plan)
}

/// A clone of a string with its view preserved.
fn clone_string(s: &String) -> (r: String)
    ensures
        r@ == s@,
{
    s.clone()
}

/// What validating and planning a launch may produce, for the home lookup
/// `home` and the outcomes `game_exists` and `runtime_exists` of the two
/// existence checks.
pub open spec fn launch_outcome(
    game_exe: Seq<char>,
    bottle: Seq<char>,
    cx_app: Seq<char>,
    home: Option<Seq<char>>,
    game_exists: bool,
    runtime_exists: bool,
    r: Result<LaunchPlan, LaunchError>,
) -> bool {
    let game = spec_resolve(game_exe, home);
    let runtime = spec_runtime_bin(cx_app, home);
    let bottle_r = spec_resolve(bottle, home);
    if !game_exists {
        r matches Err(LaunchError::PathNotFound(p)) && p@ == game
    } else if !runtime_exists {
        r matches Err(LaunchError::PathNotFound(p)) && p@ == runtime
    } else {
        match spec_file_name(bottle_r) {
            None => r matches Err(LaunchError::InvalidContainerName),
            Some(bn) => r matches Ok(plan) && plan_matches(plan, game, runtime, bottle_r, bn),
        }
    }
}

/// Validates a request against the real filesystem and plans the launch:
/// for the home directory the system reported and the two existence checks
/// the disk answered, the result is exactly the planned decision. The
/// runtime binary is only checked once the executable was found, so a
/// failure names the first missing piece.
pub fn prepare_launch(config: &WineConfig) -> (r: Result<LaunchPlan, LaunchError>)
    ensures
        exists|home: Option<Seq<char>>, game_exists: bool, runtime_exists: bool|
            launch_outcome(
                config.game_exe@,
                config.bottle_path@,
                config.crossover_app_path@,
                home,
                game_exists,
                runtime_exists,
                r,
            ),
{
    let home = crate::paths::home_dir_string();
    let home_ref = home.as_ref();
    let rp = resolve_launch_paths(config, home_ref);
    let game_exists = path_exists(rp.game_path.as_str());
    let runtime_exists = if game_exists {
        path_exists(rp.runtime_bin.as_str())
    } else {
        false
    };
    let r = plan_launch(&rp, game_exists, runtime_exists);
    proof {
        assert(launch_outcome(
            config.game_exe@,
            config.bottle_path@,
            config.crossover_app_path@,
            opt_str_view(home_ref),
            game_exists,
            runtime_exists,
            r,
        ));
    }
    r
}

/// Law: a request whose executable is missing is refused with the resolved
/// executable path, whatever the other checks would have said; no plan is
/// produced, so no process can have been spawned.
pub proof fn law_missing_executable_refused(
    game_exe: Seq<char>,
    bottle: Seq<char>,
    cx_app: Seq<char>,
    home: Option<Seq<char>>,
    runtime_exists: bool,
    r: Result<LaunchPlan, LaunchError>,
)
    requires
        launch_outcome(game_exe, bottle, cx_app, home, false, runtime_exists, r),
    ensures
        r matches Err(LaunchError::PathNotFound(p)) && p@ == spec_resolve(game_exe, home),
        !(r is Ok),
{
}

/// Law: a request whose executable exists but whose runtime binary is
/// missing is refused with the runtime binary's path — the derived location
/// under the CrossOver application — not the executable's.
pub proof fn law_missing_runtime_refused(
    game_exe: Seq<char>,
    bottle: Seq<char>,
    cx_app: Seq<char>,
    home: Option<Seq<char>>,
    r: Result<LaunchPlan, LaunchError>,
)
    requires
        launch_outcome(game_exe, bottle, cx_app, home, true, false, r),
    ensures
        r matches Err(LaunchError::PathNotFound(p)) && p@ == spec_runtime_bin(cx_app, home),
        !(r is Ok),
{
}

} // verus!

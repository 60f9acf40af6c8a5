//! The Playwright environment that the browser authorization runs in: the
//! check of the installed browsers, the report of where they are, the check
//! of Node.js, and the steps that install the Playwright package and
//! Chromium. The file system and the installer processes are the caller's.

use vstd::prelude::*;
use crate::chars::{string_of, push_str};
use crate::json::{JsonValue, JsonTree, json_text, empty_object, obj_set, jstr, object_of, trees};
use crate::model::{opt_str, path_join};
use crate::browser::{playwright_dir, get_playwright_dir, get_browsers_dir};

verus! {

// ---------------------------------------------------------------------------
// Checks
// ---------------------------------------------------------------------------

/// The number of directories among the entries (each: is it a directory).
pub open spec fn dir_count(entries: Seq<bool>) -> nat
    decreases entries.len(),
{
    if entries.len() == 0 { 0 } else { dir_count(entries.drop_last()) + if entries.last() { 1nat } else { 0nat } }
}

fn count_dirs(entries: &Vec<bool>) -> (r: usize)
    ensures
        r == dir_count(entries@),
{
    let mut n: usize = 0;
    let mut i: usize = 0;
    while i < entries.len()
        invariant
            i <= entries.len(),
            n == dir_count(entries@.subrange(0, i as int)),
            n <= i,
        decreases entries.len() - i,
    {
        assert(entries@.subrange(0, i + 1).drop_last() == entries@.subrange(0, i as int));
        if entries[i] {
            n = n + 1;
        }
        i = i + 1;
    }
    assert(entries@.subrange(0, entries.len() as int) == entries@);
    n
}

/// Checks that browsers are installed, from the listing of the browsers
/// directory (`None` when the directory does not exist; else the entries,
/// each whether it is a directory, or why they could not be read): it
/// fails when the directory is missing, cannot be read, or holds no
/// directory.
pub fn check_playwright_env(listing: Option<Result<Vec<bool>, String>>) -> (r: Result<(), String>)
    ensures
        match listing {
            None => r matches Err(m) && m@ == "Playwright browsers directory not found"@,
            Some(Err(e)) => r matches Err(m) && m@ == "Failed to read browsers directory: "@ + e@,
            Some(Ok(es)) => if dir_count(es@) == 0 {
                r matches Err(m) && m@ == "No browsers installed for Playwright"@
            } else {
                r is Ok
            },
        },
{
    match listing {
        None => Err(String::from_str("Playwright browsers directory not found")),
        Some(Err(e)) => Err(String::from_str("Failed to read browsers directory: ").concat(e.as_str())),
        Some(Ok(es)) => {
            if count_dirs(&es) == 0 {
                Err(String::from_str("No browsers installed for Playwright"))
            } else {
                Ok(())
            }
        },
    }
}

/// Ensures the environment from the check's result and, after a passing
/// check, how creating the Playwright directory went (not looked at after
/// a failing check).
pub fn ensure_playwright_env(check: Result<(), String>, created: Result<(), String>) -> (r: Result<(), String>)
    ensures
        match check {
            Err(e) => r matches Err(m) && m@ == "Playwright environment check failed: "@ + e@,
            Ok(()) => match created {
                Err(e) => r matches Err(m) && m@ == "Failed to create Playwright directory: "@ + e@,
                Ok(()) => r is Ok,
            },
        },
{
    match check {
        Err(e) => Err(String::from_str("Playwright environment check failed: ").concat(e.as_str())),
        Ok(()) => match created {
            Err(e) => Err(String::from_str("Failed to create Playwright directory: ").concat(e.as_str())),
            Ok(()) => Ok(()),
        },
    }
}

/// Whether Node.js is available, from running `node --version`: whether
/// it exited successfully, or why it could not run.
pub fn check_node_available(ran: Result<bool, String>) -> (r: Result<(), String>)
    ensures
        match ran {
            Err(e) => r matches Err(m) && m@ == "Failed to run node: "@ + e@,
            Ok(false) => r matches Err(m) && m@ == "Node.js not available"@,
            Ok(true) => r is Ok,
        },
{
    match ran {
        Err(e) => Err(String::from_str("Failed to run node: ").concat(e.as_str())),
        Ok(false) => Err(String::from_str("Node.js not available")),
        Ok(true) => Ok(()),
    }
}

// ---------------------------------------------------------------------------
// The report
// ---------------------------------------------------------------------------

/// The names of the entries that are directories, in order.
pub open spec fn dir_names(entries: Seq<(bool, String)>) -> Seq<Seq<char>>
    decreases entries.len(),
{
    if entries.len() == 0 {
        Seq::empty()
    } else if entries.last().0 {
        dir_names(entries.drop_last()).push(entries.last().1@)
    } else {
        dir_names(entries.drop_last())
    }
}

/// The texts as a JSON array of strings.
pub open spec fn str_array(names: Seq<Seq<char>>) -> JsonTree {
    JsonTree::Array(names.map_values(|n: Seq<char>| JsonTree::Str(n)))
}

/// The report of the environment: the Playwright directory, the browsers
/// directory, and the installed browsers (the directories in it).
pub open spec fn info_json(home: Option<Seq<char>>, browsers: Seq<Seq<char>>) -> JsonTree {
    object_of(seq![
        ("playwright_dir"@, JsonTree::Str(playwright_dir(home))),
        ("browsers_dir"@, JsonTree::Str(path_join(playwright_dir(home), "browsers"@))),
        ("browsers"@, str_array(browsers)),
    ])
}

/// Reports where Playwright is and which browsers it has, from `HOME` and
/// the listing of the browsers directory (`None` when it does not exist,
/// so no browser is listed; else the entries, each whether it is a
/// directory and its name, or why they could not be read).
pub fn get_playwright_info(home: Option<String>, listing: Option<Result<Vec<(bool, String)>, String>>)
    -> (r: Result<JsonValue, String>)
    ensures
        match listing {
            None => r matches Ok(v) && v@ == info_json(opt_str(home), Seq::empty()),
            Some(Err(e)) => r matches Err(m) && m@ == "Failed to read browsers directory: "@ + e@,
            Some(Ok(es)) => r matches Ok(v) && v@ == info_json(opt_str(home), dir_names(es@)),
        },
{
    let names: Vec<JsonValue> = match listing {
        None => {
            let v: Vec<JsonValue> = Vec::new();
            assert(trees(v@) =~= Seq::<Seq<char>>::empty().map_values(|n: Seq<char>| JsonTree::Str(n)));
            v
        },
        Some(Err(e)) => { return Err(String::from_str("Failed to read browsers directory: ").concat(e.as_str())); },
        Some(Ok(es)) => {
            let mut out: Vec<JsonValue> = Vec::new();
            let mut i: usize = 0;
            while i < es.len()
                invariant
                    i <= es.len(),
                    trees(out@) == dir_names(es@.subrange(0, i as int)).map_values(|n: Seq<char>| JsonTree::Str(n)),
                    listing == Some(Ok::<Vec<(bool, String)>, String>(es)),
                decreases es.len() - i,
            {
                assert(es@.subrange(0, i + 1).drop_last() == es@.subrange(0, i as int));
                assert(es@.subrange(0, i + 1).last() == es@[i as int]);
                if es[i].0 {
                    let ghost before = out@;
                    out.push(jstr(es[i].1.as_str()));
                    proof {
                        assert(out@.drop_last() == before);
                        assert(trees(out@) =~= trees(before).push(JsonTree::Str(es@[i as int].1@)));
                    }
                }
                i = i + 1;
            }
            assert(es@.subrange(0, es.len() as int) == es@);
            out
        },
    };
    let ghost home_v = opt_str(home);
    let pd = get_playwright_dir(crate::model::copy_opt(&home));
    let bd = get_browsers_dir(home);
    let ghost list = trees(names@);
    let mut info = empty_object();
    obj_set(&mut info, "playwright_dir", jstr(pd.as_str()));
    obj_set(&mut info, "browsers_dir", jstr(bd.as_str()));
    obj_set(&mut info, "browsers", JsonValue::Array(names));
    proof {
        crate::publish_strategy::lemma_object_of_steps(seq![
            ("playwright_dir"@, JsonTree::Str(playwright_dir(home_v))),
            ("browsers_dir"@, JsonTree::Str(path_join(playwright_dir(home_v), "browsers"@))),
            ("browsers"@, JsonTree::Array(list)),
        ]);
    }
    Ok(info)
}

// ---------------------------------------------------------------------------
// Installing the package and Chromium
// ---------------------------------------------------------------------------

/// What the setup asks the caller to do next.
#[derive(PartialEq, Eq, Structural)]
pub enum SetupAction {
    /// Create `node_modules` in the Playwright directory.
    CreateModulesDir,
    /// Write `package_json()` to `package.json` in the Playwright directory.
    WritePackageJson,
    /// Run `npm install` in the Playwright directory.
    RunNpmInstall,
    /// Run `npx playwright install chromium` with the browsers directory.
    InstallChromium,
    /// Nothing is left to do.
    Done,
}

/// The action the setup is waiting on.
#[derive(PartialEq, Eq, Structural)]
pub enum SetupStage {
    CreatingDir,
    WritingPackage,
    InstallingPackage,
    InstallingChromium,
    Finished,
}

/// The setup of the environment: the action it waits on, and whether
/// Chromium was found installed.
pub struct PlaywrightSetup {
    pub stage: SetupStage,
    pub chromium_installed: bool,
}

/// Once the package is there: install Chromium unless it is installed.
pub open spec fn after_package(chromium_installed: bool) -> (SetupStage, SetupAction) {
    if chromium_installed {
        (SetupStage::Finished, SetupAction::Done)
    } else {
        (SetupStage::InstallingChromium, SetupAction::InstallChromium)
    }
}

/// The first stage and action, from what the check found.
pub open spec fn first_step(package_installed: bool, chromium_installed: bool) -> (SetupStage, SetupAction) {
    if !package_installed {
        (SetupStage::CreatingDir, SetupAction::CreateModulesDir)
    } else {
        after_package(chromium_installed)
    }
}

/// The error that ends the setup when the action of `stage` ended with
/// `outcome` (why it could not be performed, or whether it exited
/// successfully), if any.
pub open spec fn setup_failure(stage: SetupStage, outcome: Result<bool, Seq<char>>) -> Option<Seq<char>> {
    match (stage, outcome) {
        (SetupStage::CreatingDir, Err(e)) => Some("创建目录失败: "@ + e),
        (SetupStage::WritingPackage, Err(e)) => Some("写入 package.json 失败: "@ + e),
        (SetupStage::InstallingPackage, Err(e)) => Some("执行 npm install 失败: "@ + e),
        (SetupStage::InstallingPackage, Ok(false)) => Some("安装 Playwright 失败"@),
        (SetupStage::InstallingChromium, Err(e)) => Some("安装 Chromium 失败: "@ + e),
        (SetupStage::InstallingChromium, Ok(false)) => Some("安装 Chromium 失败"@),
        _ => None,
    }
}

/// The stage and action after the action of `stage` succeeded.
pub open spec fn next_step(stage: SetupStage, chromium_installed: bool) -> (SetupStage, SetupAction) {
    match stage {
        SetupStage::CreatingDir => (SetupStage::WritingPackage, SetupAction::WritePackageJson),
        SetupStage::WritingPackage => (SetupStage::InstallingPackage, SetupAction::RunNpmInstall),
        SetupStage::InstallingPackage => after_package(chromium_installed),
        _ => (SetupStage::Finished, SetupAction::Done),
    }
}

/// The view of an outcome.
pub open spec fn outcome_view(o: Result<bool, String>) -> Result<bool, Seq<char>> {
    match o {
        Ok(b) => Ok(b),
        Err(e) => Err(e@),
    }
}

/// The package file written before `npm install`.
pub fn package_json() -> (r: String)
    ensures
        r@ == "{\n  \"name\": \"auto-matrix-manager-playwright\",\n  \"version\": \"1.0.0\",\n  \"description\": \"Playwright for Auto Matrix Manager\",\n  \"main\": \"index.js\",\n  \"type\": \"commonjs\",\n  \"dependencies\": {\n    \"playwright\": \"^1.50.0\"\n  }\n}"@,
{
    String::from_str("{\n  \"name\": \"auto-matrix-manager-playwright\",\n  \"version\": \"1.0.0\",\n  \"description\": \"Playwright for Auto Matrix Manager\",\n  \"main\": \"index.js\",\n  \"type\": \"commonjs\",\n  \"dependencies\": {\n    \"playwright\": \"^1.50.0\"\n  }\n}")
}

impl PlaywrightSetup {
    /// Starts the setup from what the check found (whether the package and
    /// Chromium are installed), with its first action.
    pub fn start(package_installed: bool, chromium_installed: bool) -> (r: (Self, SetupAction))
        ensures
            (r.0.stage, r.1) == first_step(package_installed, chromium_installed),
            r.0.chromium_installed == chromium_installed,
    {
        if !package_installed {
            (PlaywrightSetup { stage: SetupStage::CreatingDir, chromium_installed }, SetupAction::CreateModulesDir)
        } else if chromium_installed {
            (PlaywrightSetup { stage: SetupStage::Finished, chromium_installed }, SetupAction::Done)
        } else {
            (PlaywrightSetup { stage: SetupStage::InstallingChromium, chromium_installed }, SetupAction::InstallChromium)
        }
    }

    /// Takes how the awaited action ended (why it could not be performed,
    /// or whether it exited successfully; a file action that was performed
    /// succeeded) and gives the next action, or the error that ends the
    /// setup.
    pub fn advance(&mut self, outcome: Result<bool, String>) -> (r: Result<SetupAction, String>)
        ensures
            final(self).chromium_installed == old(self).chromium_installed,
            match setup_failure(old(self).stage, outcome_view(outcome)) {
                Some(m) => (r matches Err(e) && e@ == m) && final(self).stage == SetupStage::Finished,
                None => r == Ok::<SetupAction, String>(next_step(old(self).stage, old(self).chromium_installed).1)
                    && final(self).stage == next_step(old(self).stage, old(self).chromium_installed).0,
            },
    {
        let failure: Option<String> = match (&self.stage, &outcome) {
            (SetupStage::CreatingDir, Err(e)) => Some(String::from_str("创建目录失败: ").concat(e.as_str())),
            (SetupStage::WritingPackage, Err(e)) => Some(String::from_str("写入 package.json 失败: ").concat(e.as_str())),
            (SetupStage::InstallingPackage, Err(e)) => Some(String::from_str("执行 npm install 失败: ").concat(e.as_str())),
            (SetupStage::InstallingPackage, Ok(false)) => Some(String::from_str("安装 Playwright 失败")),
            (SetupStage::InstallingChromium, Err(e)) => Some(String::from_str("安装 Chromium 失败: ").concat(e.as_str())),
            (SetupStage::InstallingChromium, Ok(false)) => Some(String::from_str("安装 Chromium 失败")),
            _ => None,
        };
        match failure {
            Some(m) => {
                self.stage = SetupStage::Finished;
                Err(m)
            },
            None => {
                let (stage, action) = match self.stage {
                    SetupStage::CreatingDir => (SetupStage::WritingPackage, SetupAction::WritePackageJson),
                    SetupStage::WritingPackage => (SetupStage::InstallingPackage, SetupAction::RunNpmInstall),
                    SetupStage::InstallingPackage => if self.chromium_installed {
                        (SetupStage::Finished, SetupAction::Done)
                    } else {
                        (SetupStage::InstallingChromium, SetupAction::InstallChromium)
                    },
                    _ => (SetupStage::Finished, SetupAction::Done),
                };
                self.stage = stage;
                Ok(action)
            },
        }
    }
}

/// How many actions at most are left from `stage`.
pub open spec fn stage_rank(stage: SetupStage) -> nat {
    match stage {
        SetupStage::CreatingDir => 4,
        SetupStage::WritingPackage => 3,
        SetupStage::InstallingPackage => 2,
        SetupStage::InstallingChromium => 1,
        SetupStage::Finished => 0,
    }
}

/// The stage after the action of `stage` ended with `outcome`.
pub open spec fn stage_after(stage: SetupStage, chromium_installed: bool, outcome: Result<bool, Seq<char>>) -> SetupStage {
    match setup_failure(stage, outcome) {
        Some(_) => SetupStage::Finished,
        None => next_step(stage, chromium_installed).0,
    }
}

/// Whatever an action's outcome, the setup moves closer to its end, so it
/// ends after at most four actions; it asks for nothing more once
/// finished, and installs Chromium only when it was not found.
pub proof fn law_setup_progresses(stage: SetupStage, chromium_installed: bool, outcome: Result<bool, Seq<char>>)
    ensures
        stage != SetupStage::Finished ==> stage_rank(stage_after(stage, chromium_installed, outcome)) < stage_rank(stage),
        stage == SetupStage::Finished ==> next_step(stage, chromium_installed).1 == SetupAction::Done,
        chromium_installed ==> next_step(stage, chromium_installed).1 != SetupAction::InstallChromium,
        chromium_installed ==> first_step(false, chromium_installed).1 != SetupAction::InstallChromium
            && first_step(true, chromium_installed).1 == SetupAction::Done,
{
}

} // verus!

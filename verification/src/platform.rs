//! Where the integration keeps its files on each platform.
use vstd::prelude::*;

verus! {

/// The family of systems that Devin runs on.
#[derive(Clone, Copy, Debug, PartialEq, Eq, Structural)]
pub enum Platform {
    /// Everything but Windows.
    Unix,
    Windows,
}

/// The texts of a list, as sequences of characters.
pub open spec fn texts(list: Seq<&'static str>) -> Seq<Seq<char>> {
    Seq::new(list.len(), |i: int| list[i]@)
}

/// The file name of the hook script.
pub open spec fn script_name_of(platform: Platform) -> Seq<char> {
    match platform {
        Platform::Unix => "luvus-agent-hook.sh"@,
        Platform::Windows => "luvus-agent-hook.ps1"@,
    }
}

/// The names that lead from the home directory to Devin's user configuration.
pub open spec fn config_dir_of(platform: Platform) -> Seq<Seq<char>> {
    match platform {
        Platform::Unix => seq![".config"@, "devin"@],
        Platform::Windows => seq!["AppData"@, "Roaming"@, "devin"@],
    }
}

/// The file name of the hook script.
pub fn script_name(platform: Platform) -> (name: &'static str)
    ensures
        name@ == script_name_of(platform),
{
    match platform {
        Platform::Unix => "luvus-agent-hook.sh",
        Platform::Windows => "luvus-agent-hook.ps1",
    }
}

/// The directory of Devin's user configuration, as the names to follow from the
/// home directory, the outermost first.
///
/// Devin derives it from the profile directory, not from `APPDATA`, so this
/// follows the same home that Luvus uses for every agent.
pub fn config_dir(platform: Platform) -> (names: Vec<&'static str>)
    ensures
        texts(names@) == config_dir_of(platform),
{
    let mut names: Vec<&'static str> = Vec::new();
    match platform {
        Platform::Unix => {
            names.push(".config");
        },
        Platform::Windows => {
            names.push("AppData");
            names.push("Roaming");
        },
    }
    names.push("devin");
    assert(texts(names@) =~= config_dir_of(platform));
    names
}

/// The path of Devin's user configuration, as [`config_dir`] gives it.
pub fn config_path(platform: Platform) -> (names: Vec<&'static str>)
    ensures
        texts(names@) == config_dir_of(platform).push("config.json"@),
{
    let mut names = config_dir(platform);
    let ghost dir = names@;
    names.push("config.json");
    assert(texts(names@) =~= texts(dir).push("config.json"@));
    names
}

/// The path of the hook script, as [`config_dir`] gives it.
pub fn script_path(platform: Platform) -> (names: Vec<&'static str>)
    ensures
        texts(names@) == config_dir_of(platform).push(script_name_of(platform)),
{
    let mut names = config_dir(platform);
    let ghost dir = names@;
    names.push(script_name(platform));
    assert(texts(names@) =~= texts(dir).push(script_name_of(platform)));
    names
}

} // verus!

//! Where the game is usually installed.

use vstd::prelude::*;

verus! {

/// The operating system that the application runs on.
#[derive(Clone, Copy, Debug, PartialEq, Eq, Structural)]
pub enum Platform {
    Windows,
    MacOs,
    Linux,
    Other,
}

/// The directories in which the game is looked for on `platform`, in the
/// order in which they are tried.
pub open spec fn usual_directories(platform: Platform) -> Seq<Seq<char>> {
    match platform {
        Platform::Windows => seq![
            "C:\\Program Files (x86)\\Steam\\steamapps\\common\\War Thunder"@,
            "C:\\Program Files\\WarThunder"@,
        ],
        Platform::MacOs => seq![
            "/Users/Shared/War Thunder"@,
            "/Users/[YourUsername]/Library/Application Support/Steam/steamapps/common/War Thunder"@,
        ],
        Platform::Linux => seq![
            "~/.local/share/Steam/steamapps/common/War Thunder"@,
            "~/WarThunder"@,
        ],
        Platform::Other => seq![],
    }
}

/// The directories in which the game is looked for on `platform`.
pub fn paths_to_check(platform: Platform) -> (paths: Vec<String>)
    ensures
        paths.deep_view() == usual_directories(platform),
{
    let mut paths: Vec<String> = Vec::new();
    match platform {
        Platform::Windows => {
            paths.push(
                String::from_str("C:\\Program Files (x86)\\Steam\\steamapps\\common\\War Thunder"),
            );
            paths.push(String::from_str("C:\\Program Files\\WarThunder"));
        },
        Platform::MacOs => {
            paths.push(String::from_str("/Users/Shared/War Thunder"));
            paths.push(
                String::from_str(
                    "/Users/[YourUsername]/Library/Application Support/Steam/steamapps/common/War Thunder",
                ),
            );
        },
        Platform::Linux => {
            paths.push(String::from_str("~/.local/share/Steam/steamapps/common/War Thunder"));
            paths.push(String::from_str("~/WarThunder"));
        },
        Platform::Other => {},
    }
    assert(paths.deep_view() =~= usual_directories(platform));
    paths
}

/// Whether one of the `count` directories exists, where `present[i]` says
/// whether the `i`-th does.
pub open spec fn exists_some(count: nat, present: Seq<bool>) -> bool {
    exists|i: int| 0 <= i < count && i < present.len() && present[i]
}

/// Whether the `i`-th directory exists and none before it does.
pub open spec fn is_first_existing(count: nat, present: Seq<bool>, i: int) -> bool {
    &&& 0 <= i < count
    &&& i < present.len()
    &&& present[i]
    &&& forall|j: int| 0 <= j < i ==> !present[j]
}

/// The game's directory: the first of the directories usual on `platform`
/// that exists. `present[i]` says whether the `i`-th of them does; one that
/// `present` does not reach counts as missing.
pub fn find_war_thunder_directory(platform: Platform, present: &Vec<bool>) -> (found: Option<
    String,
>)
    ensures
        match found {
            Some(dir) => exists|i: int|
                is_first_existing(usual_directories(platform).len(), present@, i) && dir@
                    == usual_directories(platform)[i],
            None => !exists_some(usual_directories(platform).len(), present@),
        },
{
    let paths = paths_to_check(platform);
    let mut i: usize = 0;
    while i < paths.len() && i < present.len()
        invariant
            i <= paths.len(),
            i <= present.len(),
            paths.deep_view() == usual_directories(platform),
            forall|j: int| 0 <= j < i ==> !present@[j],
        decreases paths.len() - i,
    {
        if present[i] {
            assert(is_first_existing(usual_directories(platform).len(), present@, i as int));
            assert(paths[i as int]@ == paths.deep_view()[i as int]);
            return Some(paths[i].clone());
        }
        i += 1;
    }
    None
}

/// The separator between the components of a path on `platform`.
pub open spec fn separator_on(platform: Platform) -> char {
    if platform == Platform::Windows {
        '\\'
    } else {
        '/'
    }
}

/// The directory for user skins: `UserSkins` directly in the game's
/// directory, if that was found.
pub fn find_user_skins_directory(platform: Platform, present: &Vec<bool>) -> (found: Option<
    String,
>)
    ensures
        match found {
            Some(dir) => exists|i: int|
                is_first_existing(usual_directories(platform).len(), present@, i) && dir@
                    == usual_directories(platform)[i].push(separator_on(platform))
                    + "UserSkins"@,
            None => !exists_some(usual_directories(platform).len(), present@),
        },
{
    match find_war_thunder_directory(platform, present) {
        Some(mut dir) => {
            match platform {
                Platform::Windows => dir.push('\\'),
                _ => dir.push('/'),
            }
            Some(dir.concat("UserSkins"))
        },
        None => None,
    }
}

} // verus!

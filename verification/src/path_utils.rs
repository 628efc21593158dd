//! The directory that a camouflage is installed into, from a pattern.

use crate::data::{Camouflage, CamouflageView};
use crate::text::{chars_of, replace_all, replaced, string_from};
use vstd::prelude::*;

verus! {

/// The path that `custom_structure` stands for: `%USERSKINS` gives way to
/// the base directory, `%NICKNAME` to the author's nickname, `%SKIN_NAME` and
/// `%VEHICLE` to the vehicle's name, one after the other, and at last every
/// `'/'` to `separator`.
pub open spec fn custom_path(
    base_dir: Seq<char>,
    custom_structure: Seq<char>,
    camo: CamouflageView,
    separator: char,
) -> Seq<char> {
    let with_base = replaced(custom_structure, "%USERSKINS"@, base_dir);
    let with_nickname = replaced(with_base, "%NICKNAME"@, camo.nickname);
    let with_skin = replaced(with_nickname, "%SKIN_NAME"@, camo.vehicle_name);
    let with_vehicle = replaced(with_skin, "%VEHICLE"@, camo.vehicle_name);
    replaced(with_vehicle, seq!['/'], seq![separator])
}

/// Whether `path` is what `custom_structure` stands for with a slash or with
/// a backslash between the components.
pub open spec fn is_custom_path(
    path: Seq<char>,
    base_dir: Seq<char>,
    custom_structure: Seq<char>,
    camo: CamouflageView,
) -> bool {
    ||| path == custom_path(base_dir, custom_structure, camo, '/')
    ||| path == custom_path(base_dir, custom_structure, camo, '\\')
}

/// `std::path::MAIN_SEPARATOR` of std: the character that separates the
/// components of a path on the platform the program is built for. Trusted:
/// it is a slash or a backslash.
#[verifier::external_body]
fn main_separator() -> (separator: char)
    ensures
        separator == '/' || separator == '\\',
{
    std::path::MAIN_SEPARATOR
}

/// Fills the pattern `custom_structure` in for `camo` below `base_dir`, with
/// `separator` between the path's components.
pub fn generate_custom_path_with(
    base_dir: &str,
    custom_structure: &str,
    camo: &Camouflage,
    separator: char,
) -> (path: String)
    ensures
        path@ == custom_path(base_dir@, custom_structure@, camo@, separator),
{
    let pattern = chars_of(custom_structure);
    let with_base = replace_all(&pattern, &chars_of("%USERSKINS"), &chars_of(base_dir));
    let with_nickname = replace_all(
        &with_base,
        &chars_of("%NICKNAME"),
        &chars_of(camo.nickname.as_str()),
    );
    let vehicle = chars_of(camo.vehicle_name.as_str());
    let with_skin = replace_all(&with_nickname, &chars_of("%SKIN_NAME"), &vehicle);
    let with_vehicle = replace_all(&with_skin, &chars_of("%VEHICLE"), &vehicle);
    let mut slash: Vec<char> = Vec::new();
    slash.push('/');
    let mut mark: Vec<char> = Vec::new();
    mark.push(separator);
    assert(slash@ =~= seq!['/']);
    assert(mark@ =~= seq![separator]);
    let path = replace_all(&with_vehicle, &slash, &mark);
    string_from(&path)
}

/// Fills the pattern `custom_structure` in for `camo` below `base_dir`, with
/// the platform's separator between the path's components.
pub fn generate_custom_path(base_dir: &str, custom_structure: &str, camo: &Camouflage) -> (path:
    String)
    ensures
        is_custom_path(path@, base_dir@, custom_structure@, camo@),
{
    generate_custom_path_with(base_dir, custom_structure, camo, main_separator())
}

} // verus!

//! Deciding where a camouflage is installed.

use crate::path_utils::{generate_custom_path, is_custom_path};
use crate::ui::app::{says, InstallPlan, InstallTarget, WarThunderCamoInstaller};
use vstd::prelude::*;

verus! {

/// Whether `plan` is the installation of the selected camouflage of `app`
/// from the archive at `zip_url`: into the directory that the pattern gives
/// while the pattern is in use, else into the directory named after the
/// vehicle, directly below the directory for user skins.
pub open spec fn planned_for(
    app: WarThunderCamoInstaller,
    zip_url: Seq<char>,
    plan: InstallPlan,
) -> bool {
    &&& plan.zip_url@ == zip_url
    &&& app.wt_skins_dir matches Some(dir) && app.current_camo matches Some(camo)
        && if app.use_custom_structure {
        plan.target matches InstallTarget::Path(path) && is_custom_path(
            path@,
            dir@,
            app.custom_structure@,
            camo@,
        )
    } else {
        plan.target matches InstallTarget::Below { directory, name } && directory@ == dir@
            && name@ == camo.vehicle_name@
    }
}

/// Plans the installation of the selected camouflage from the archive at
/// `zip_url`, and says that it has started. Where no directory for user
/// skins is set, nothing is planned and a message says so.
pub fn install_skin(app: &mut WarThunderCamoInstaller, zip_url: &str) -> (plan: Option<
    InstallPlan,
>)
    requires
        old(app).wt_skins_dir is Some ==> old(app).current_camo is Some,
    ensures
        plan is Some <==> old(app).wt_skins_dir is Some,
        plan matches Some(p) ==> planned_for(*old(app), zip_url@, p),
        says(
            final(app).error_message,
            if old(app).wt_skins_dir is Some {
                "Skin installation started. Please wait..."@
            } else {
                "War Thunder skins directory not selected"@
            },
        ),
        *final(app) == (WarThunderCamoInstaller {
            error_message: final(app).error_message,
            ..*old(app)
        }),
{
    let plan = match (&app.wt_skins_dir, &app.current_camo) {
        (Some(dir), Some(camo)) => {
            let target = if app.use_custom_structure {
                InstallTarget::Path(
                    generate_custom_path(dir.as_str(), app.custom_structure.as_str(), camo),
                )
            } else {
                InstallTarget::Below { directory: dir.clone(), name: camo.vehicle_name.clone() }
            };
            Some(InstallPlan { zip_url: String::from_str(zip_url), target })
        },
        _ => None,
    };
    if plan.is_some() {
        app.error_message = Some(String::from_str("Skin installation started. Please wait..."));
    } else {
        app.error_message = Some(String::from_str("War Thunder skins directory not selected"));
    }
    plan
}

/// While the pattern for the installation directory is in use, shows the
/// path that it gives for the selected camouflage, or says what is missing
/// for it. While the pattern is not in use, nothing changes.
pub fn apply_custom_structure(app: &mut WarThunderCamoInstaller)
    ensures
        !old(app).use_custom_structure ==> *final(app) == *old(app),
        old(app).use_custom_structure ==> {
            &&& *final(app) == (WarThunderCamoInstaller {
                error_message: final(app).error_message,
                ..*old(app)
            })
            &&& match (old(app).current_camo, old(app).wt_skins_dir) {
                (Some(camo), Some(dir)) => exists|path: Seq<char>|
                    is_custom_path(path, dir@, old(app).custom_structure@, camo@) && says(
                        final(app).error_message,
                        "Custom path: "@ + path,
                    ),
                (Some(_), None) => says(
                    final(app).error_message,
                    "War Thunder skins directory not set."@,
                ),
                (None, _) => says(final(app).error_message, "No camouflage selected."@),
            }
        },
{
    if app.use_custom_structure {
        let message = match &app.current_camo {
            Some(camo) => match &app.wt_skins_dir {
                Some(dir) => {
                    let path = generate_custom_path(
                        dir.as_str(),
                        app.custom_structure.as_str(),
                        camo,
                    );
                    String::from_str("Custom path: ").concat(path.as_str())
                },
                None => String::from_str("War Thunder skins directory not set."),
            },
            None => String::from_str("No camouflage selected."),
        };
        app.error_message = Some(message);
    }
}

} // verus!

//! Taking over what the database says of the catalogue.

use crate::ui::app::{says, WarThunderCamoInstaller};
use vstd::prelude::*;

verus! {

/// Takes the number of camouflages that the database counted, or reports why
/// it could not count them.
pub fn update_total_camos(app: &mut WarThunderCamoInstaller, counted: Result<usize, String>)
    ensures
        match counted {
            Ok(count) => *final(app) == (WarThunderCamoInstaller {
                total_camos: count,
                ..*old(app)
            }),
            Err(cause) => {
                &&& says(final(app).error_message, "Failed to update total camos: "@ + cause@)
                &&& *final(app) == (WarThunderCamoInstaller {
                    error_message: final(app).error_message,
                    ..*old(app)
                })
            },
        },
{
    match counted {
        Ok(count) => {
            app.total_camos = count;
        },
        Err(cause) => {
            app.error_message = Some(
                String::from_str("Failed to update total camos: ").concat(cause.as_str()),
            );
        },
    }
}

/// Takes the tags that the database lists, or reports why it could not list
/// them.
pub fn refresh_available_tags(
    app: &mut WarThunderCamoInstaller,
    listed: Result<Vec<String>, String>,
)
    ensures
        match listed {
            Ok(tags) => *final(app) == (WarThunderCamoInstaller {
                available_tags: tags,
                ..*old(app)
            }),
            Err(cause) => {
                &&& says(
                    final(app).error_message,
                    "Failed to refresh available tags: "@ + cause@,
                )
                &&& *final(app) == (WarThunderCamoInstaller {
                    error_message: final(app).error_message,
                    ..*old(app)
                })
            },
        },
{
    match listed {
        Ok(tags) => {
            app.available_tags = tags;
        },
        Err(cause) => {
            app.error_message = Some(
                String::from_str("Failed to refresh available tags: ").concat(cause.as_str()),
            );
        },
    }
}

/// Reports how the export of the tags to a file went.
pub fn export_tags(app: &mut WarThunderCamoInstaller, outcome: Result<(), String>)
    ensures
        match outcome {
            Ok(_) => says(final(app).error_message, "Tags exported successfully"@),
            Err(cause) => says(final(app).error_message, "Failed to export tags: "@ + cause@),
        },
        *final(app) == (WarThunderCamoInstaller {
            error_message: final(app).error_message,
            ..*old(app)
        }),
{
    match outcome {
        Ok(_) => {
            app.error_message = Some(String::from_str("Tags exported successfully"));
        },
        Err(cause) => {
            app.error_message = Some(
                String::from_str("Failed to export tags: ").concat(cause.as_str()),
            );
        },
    }
}

/// Takes the tags that were read from a file, or reports why they could not
/// be read.
pub fn import_tags(
    app: &mut WarThunderCamoInstaller,
    outcome: Result<crate::tags::TagCollection, String>,
)
    ensures
        match outcome {
            Ok(tags) => {
                &&& says(final(app).error_message, "Tags imported successfully"@)
                &&& *final(app) == (WarThunderCamoInstaller {
                    available_tags: tags.available_tags,
                    custom_tags: tags.custom_tags,
                    error_message: final(app).error_message,
                    ..*old(app)
                })
            },
            Err(cause) => {
                &&& says(final(app).error_message, "Failed to import tags: "@ + cause@)
                &&& *final(app) == (WarThunderCamoInstaller {
                    error_message: final(app).error_message,
                    ..*old(app)
                })
            },
        },
{
    match outcome {
        Ok(tags) => {
            app.import_tags(tags);
            app.error_message = Some(String::from_str("Tags imported successfully"));
        },
        Err(cause) => {
            app.error_message = Some(
                String::from_str("Failed to import tags: ").concat(cause.as_str()),
            );
        },
    }
}

/// Brings the state up to date with the database: first the number of
/// camouflages, then the tags.
pub fn update_app_state(
    app: &mut WarThunderCamoInstaller,
    counted: Result<usize, String>,
    listed: Result<Vec<String>, String>,
)
    ensures
        final(app).total_camos == match counted {
            Ok(count) => count,
            Err(_) => old(app).total_camos,
        },
        final(app).available_tags == match listed {
            Ok(tags) => tags,
            Err(_) => old(app).available_tags,
        },
        match (counted, listed) {
            (_, Err(cause)) => says(
                final(app).error_message,
                "Failed to refresh available tags: "@ + cause@,
            ),
            (Err(cause), Ok(_)) => says(
                final(app).error_message,
                "Failed to update total camos: "@ + cause@,
            ),
            (Ok(_), Ok(_)) => final(app).error_message == old(app).error_message,
        },
        *final(app) == (WarThunderCamoInstaller {
            total_camos: final(app).total_camos,
            available_tags: final(app).available_tags,
            error_message: final(app).error_message,
            ..*old(app)
        }),
{
    update_total_camos(app, counted);
    refresh_available_tags(app, listed);
}

} // verus!

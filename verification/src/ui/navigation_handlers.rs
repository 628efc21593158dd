//! Paging through the camouflages.

use crate::data::{Camouflage, InstallerError};
use crate::dispatcher::admitted;
use crate::pending_queue::PendingQueue;
use crate::result_table::ResultTable;
use crate::ui::app::{says, WarThunderCamoInstaller};
use vstd::prelude::*;

verus! {

/// How many camouflages can be paged through: the results of the search
/// while one is shown, else the whole catalogue.
pub open spec fn paged_total(app: WarThunderCamoInstaller) -> int {
    if app.search_mode {
        app.search_results.len() as int
    } else {
        app.total_camos as int
    }
}

/// Whether `after` is `before` with the record at `index` of the search
/// results selected, its images asked for and all others forgotten.
pub open spec fn selected_from_results<H>(
    before: WarThunderCamoInstaller,
    after: WarThunderCamoInstaller,
    index: usize,
    images: Map<Seq<char>, H>,
    queue: Seq<Seq<char>>,
) -> bool {
    &&& after.current_camo matches Some(camo) && camo@ == before.search_results[index as int]@
    &&& after == (WarThunderCamoInstaller {
        current_index: index,
        current_camo: after.current_camo,
        ..before
    })
    &&& images == Map::<Seq<char>, H>::empty()
    &&& queue == admitted(
        Seq::<Seq<char>>::empty(),
        Set::<Seq<char>>::empty(),
        before.search_results[index as int]@.image_urls,
    )
}

/// Goes on to the next camouflage.
///
/// Where there is none to page through, or the last one is shown, only a
/// message says so. Otherwise the index moves on by one. While the results of
/// a search are shown the record is taken from them and selected. Else the
/// index of the record to fetch from the database is returned, and
/// `show_fetched_camo` is to be given what the database answers.
pub fn show_next_camo<H>(
    app: &mut WarThunderCamoInstaller,
    images: &mut ResultTable<H>,
    queue: &mut PendingQueue,
) -> (fetch: Option<usize>)
    ensures
        paged_total(*old(app)) == 0 ==> {
            &&& fetch is None
            &&& says(final(app).error_message, "No camouflages available."@)
            &&& *final(app) == (WarThunderCamoInstaller {
                error_message: final(app).error_message,
                ..*old(app)
            })
            &&& final(images)@ == old(images)@
            &&& final(queue)@ == old(queue)@
        },
        paged_total(*old(app)) > 0 && old(app).current_index >= paged_total(*old(app)) - 1 ==> {
            &&& fetch is None
            &&& says(final(app).error_message, "Already at the last camouflage."@)
            &&& *final(app) == (WarThunderCamoInstaller {
                error_message: final(app).error_message,
                ..*old(app)
            })
            &&& final(images)@ == old(images)@
            &&& final(queue)@ == old(queue)@
        },
        old(app).current_index < paged_total(*old(app)) - 1 && old(app).search_mode ==> {
            &&& fetch is None
            &&& selected_from_results(
                *old(app),
                *final(app),
                (old(app).current_index + 1) as usize,
                final(images)@,
                final(queue)@,
            )
        },
        old(app).current_index < paged_total(*old(app)) - 1 && !old(app).search_mode ==> {
            &&& fetch == Some((old(app).current_index + 1) as usize)
            &&& *final(app) == (WarThunderCamoInstaller {
                current_index: (old(app).current_index + 1) as usize,
                ..*old(app)
            })
            &&& final(images)@ == old(images)@
            &&& final(queue)@ == old(queue)@
        },
{
    let total = if app.search_mode {
        app.search_results.len()
    } else {
        app.total_camos
    };
    if total == 0 {
        app.error_message = Some(String::from_str("No camouflages available."));
        return None;
    }
    if app.current_index < total - 1 {
        app.current_index += 1;
        if app.search_mode {
            let camo = app.search_results[app.current_index].clone();
            app.set_current_camo(app.current_index, camo, images, queue);
            None
        } else {
            Some(app.current_index)
        }
    } else {
        app.error_message = Some(String::from_str("Already at the last camouflage."));
        None
    }
}

/// Goes back to the camouflage before.
///
/// Where the catalogue is empty or the first one is shown, only a message
/// says so. Otherwise the index moves back by one. While the results of a
/// search are shown the record is taken from them, if they reach that far,
/// and selected. Else the index of the record to fetch from the database is
/// returned, and `show_fetched_camo` is to be given what the database
/// answers.
pub fn show_previous_camo<H>(
    app: &mut WarThunderCamoInstaller,
    images: &mut ResultTable<H>,
    queue: &mut PendingQueue,
) -> (fetch: Option<usize>)
    ensures
        old(app).total_camos == 0 || old(app).current_index == 0 ==> {
            &&& fetch is None
            &&& says(final(app).error_message, "Already at the first camouflage."@)
            &&& *final(app) == (WarThunderCamoInstaller {
                error_message: final(app).error_message,
                ..*old(app)
            })
            &&& final(images)@ == old(images)@
            &&& final(queue)@ == old(queue)@
        },
        old(app).total_camos > 0 && old(app).current_index > 0 && old(app).search_mode && old(
            app,
        ).current_index - 1 < old(app).search_results.len() ==> {
            &&& fetch is None
            &&& selected_from_results(
                *old(app),
                *final(app),
                (old(app).current_index - 1) as usize,
                final(images)@,
                final(queue)@,
            )
        },
        old(app).total_camos > 0 && old(app).current_index > 0 && (!old(app).search_mode || old(
            app,
        ).current_index - 1 >= old(app).search_results.len()) ==> {
            &&& fetch == if old(app).search_mode {
                None
            } else {
                Some((old(app).current_index - 1) as usize)
            }
            &&& *final(app) == (WarThunderCamoInstaller {
                current_index: (old(app).current_index - 1) as usize,
                ..*old(app)
            })
            &&& final(images)@ == old(images)@
            &&& final(queue)@ == old(queue)@
        },
{
    if app.total_camos == 0 || app.current_index == 0 {
        app.error_message = Some(String::from_str("Already at the first camouflage."));
        return None;
    }
    app.current_index -= 1;
    if app.search_mode {
        if app.current_index < app.search_results.len() {
            let camo = app.search_results[app.current_index].clone();
            app.set_current_camo(app.current_index, camo, images, queue);
        }
        None
    } else {
        Some(app.current_index)
    }
}

/// Takes what the database answered when asked for the record at the
/// current index: a record is selected; no record, or an error, changes
/// nothing.
pub fn show_fetched_camo<H>(
    app: &mut WarThunderCamoInstaller,
    fetched: Result<Option<(usize, Camouflage)>, InstallerError>,
    images: &mut ResultTable<H>,
    queue: &mut PendingQueue,
)
    ensures
        match fetched {
            Ok(Some((_, camo))) => {
                &&& *final(app) == (WarThunderCamoInstaller {
                    current_camo: Some(camo),
                    ..*old(app)
                })
                &&& final(images)@ == Map::<Seq<char>, H>::empty()
                &&& final(queue)@ == admitted(
                    Seq::<Seq<char>>::empty(),
                    Set::<Seq<char>>::empty(),
                    camo.image_urls.deep_view(),
                )
            },
            _ => {
                &&& *final(app) == *old(app)
                &&& final(images)@ == old(images)@
                &&& final(queue)@ == old(queue)@
            },
        },
{
    match fetched {
        Ok(Some((_, camo))) => {
            app.set_current_camo(app.current_index, camo, images, queue);
        },
        _ => {},
    }
}

} // verus!

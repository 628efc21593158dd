//! Choosing directories and databases, searching, and filtering by tags.

use crate::data::{clone_strings, Camouflage};
use crate::dispatcher::admitted;
use crate::pending_queue::PendingQueue;
use crate::result_table::ResultTable;
use crate::sorted::{increasing, sorted_distinct};
use crate::text::{pieces, split_on, trim, trimmed};
use crate::ui::app::{says, WarThunderCamoInstaller};
use vstd::prelude::*;

verus! {

/// Takes the directory that the user picked as the directory for user
/// skins, and says so; says that none was picked where none was.
pub fn set_wt_skins_directory(app: &mut WarThunderCamoInstaller, picked: Option<String>)
    ensures
        match picked {
            Some(path) => {
                &&& final(app).wt_skins_dir matches Some(dir) && dir@ == path@
                &&& says(final(app).error_message, "Skins directory set to: "@ + path@)
                &&& *final(app) == (WarThunderCamoInstaller {
                    wt_skins_dir: final(app).wt_skins_dir,
                    wt_dir_not_found: false,
                    error_message: final(app).error_message,
                    ..*old(app)
                })
            },
            None => {
                &&& says(final(app).error_message, "No directory selected."@)
                &&& *final(app) == (WarThunderCamoInstaller {
                    error_message: final(app).error_message,
                    ..*old(app)
                })
            },
        },
{
    match picked {
        Some(path) => {
            app.set_wt_skins_directory(path.as_str());
            app.error_message = Some(
                String::from_str("Skins directory set to: ").concat(path.as_str()),
            );
        },
        None => {
            app.error_message = Some(String::from_str("No directory selected."));
        },
    }
}

/// Reports how the change to the database at `path` went.
pub fn change_database_file(
    app: &mut WarThunderCamoInstaller,
    path: &str,
    outcome: Result<(), String>,
)
    ensures
        match outcome {
            Ok(_) => says(final(app).error_message, "Database changed to: "@ + path@),
            Err(cause) => says(
                final(app).error_message,
                "Failed to change database: "@ + cause@,
            ),
        },
        *final(app) == (WarThunderCamoInstaller {
            error_message: final(app).error_message,
            ..*old(app)
        }),
{
    match outcome {
        Ok(_) => {
            app.error_message = Some(String::from_str("Database changed to: ").concat(path));
        },
        Err(cause) => {
            app.error_message = Some(
                String::from_str("Failed to change database: ").concat(cause.as_str()),
            );
        },
    }
}

/// How the opening of a database that the user picked went.
#[derive(Debug)]
pub enum DatabaseOpening {
    /// The file could not be opened; the cause.
    OpenFailed(String),
    /// The file was opened, but its tables could not be set up; the cause.
    InitializeFailed(String),
    /// The database is open: the number of its camouflages, if they could be
    /// counted, and its first record, if it could be fetched.
    Opened { total: Option<usize>, first: Option<(usize, Camouflage)> },
}

/// Takes over a database that the user picked at `path`.
///
/// Where it could not be opened or set up, only a message says so. Else the
/// browser starts anew on it: outside a search, at the first record, with
/// the images forgotten. The first record is selected; where there is none,
/// nothing is selected and a message says so.
pub fn select_database_file<H>(
    app: &mut WarThunderCamoInstaller,
    path: &str,
    opening: DatabaseOpening,
    images: &mut ResultTable<H>,
    queue: &mut PendingQueue,
)
    ensures
        match opening {
            DatabaseOpening::OpenFailed(cause) => {
                &&& says(final(app).error_message, "Failed to open database: "@ + cause@)
                &&& *final(app) == (WarThunderCamoInstaller {
                    error_message: final(app).error_message,
                    ..*old(app)
                })
                &&& final(images)@ == old(images)@
                &&& final(queue)@ == old(queue)@
            },
            DatabaseOpening::InitializeFailed(cause) => {
                &&& says(final(app).error_message, "Failed to initialize database: "@ + cause@)
                &&& *final(app) == (WarThunderCamoInstaller {
                    error_message: final(app).error_message,
                    ..*old(app)
                })
                &&& final(images)@ == old(images)@
                &&& final(queue)@ == old(queue)@
            },
            DatabaseOpening::Opened { total, first } => {
                &&& final(app).search_results@.len() == 0
                &&& final(images)@ == Map::<Seq<char>, H>::empty()
                &&& says(
                    final(app).error_message,
                    if first is Some {
                        "Database set to: "@ + path@
                    } else {
                        "Failed to load initial camouflage from new database."@
                    },
                )
                &&& *final(app) == (WarThunderCamoInstaller {
                    error_message: final(app).error_message,
                    total_camos: match total {
                        Some(count) => count,
                        None => 0,
                    },
                    current_index: match first {
                        Some((index, _)) => index,
                        None => 0,
                    },
                    search_results: final(app).search_results,
                    search_mode: false,
                    current_camo: match first {
                        Some((_, camo)) => Some(camo),
                        None => None,
                    },
                    ..*old(app)
                })
                &&& final(queue)@ == match first {
                    Some((_, camo)) => admitted(
                        Seq::<Seq<char>>::empty(),
                        Set::<Seq<char>>::empty(),
                        camo.image_urls.deep_view(),
                    ),
                    None => Seq::<Seq<char>>::empty(),
                }
            },
        },
{
    match opening {
        DatabaseOpening::OpenFailed(cause) => {
            app.error_message = Some(
                String::from_str("Failed to open database: ").concat(cause.as_str()),
            );
        },
        DatabaseOpening::InitializeFailed(cause) => {
            app.error_message = Some(
                String::from_str("Failed to initialize database: ").concat(cause.as_str()),
            );
        },
        DatabaseOpening::Opened { total, first } => {
            app.error_message = Some(String::from_str("Database set to: ").concat(path));
            app.total_camos = match total {
                Some(count) => count,
                None => 0,
            };
            app.current_index = 0;
            app.search_results = Vec::new();
            app.search_mode = false;
            WarThunderCamoInstaller::clear_images(images, queue);
            match first {
                Some((index, camo)) => {
                    app.set_current_camo(index, camo, images, queue);
                },
                None => {
                    app.current_camo = None;
                    app.error_message = Some(
                        String::from_str("Failed to load initial camouflage from new database."),
                    );
                },
            }
        },
    }
}

/// What a search asks of the catalogue.
#[derive(Debug)]
pub struct SearchRequest {
    /// The text to look for, if any.
    pub query: Option<String>,
    /// The tags to filter by.
    pub tags: Vec<String>,
}

/// What the present search asks for: the search text unless it is empty,
/// and the selected tags while filtering by tags is switched on.
pub fn search_request(app: &WarThunderCamoInstaller) -> (request: SearchRequest)
    ensures
        request.query is Some <==> app.search_query@.len() > 0,
        request.query matches Some(text) ==> text@ == app.search_query@,
        request.tags.deep_view() == if app.tag_filtering_enabled {
            app.selected_tags.deep_view()
        } else {
            Seq::<Seq<char>>::empty()
        },
{
    let query = if app.search_query.as_str().is_empty() {
        None
    } else {
        Some(app.search_query.clone())
    };
    let tags = if app.tag_filtering_enabled {
        clone_strings(&app.selected_tags)
    } else {
        Vec::new()
    };
    assert(!app.tag_filtering_enabled ==> tags.deep_view() =~= Seq::<Seq<char>>::empty());
    SearchRequest { query, tags }
}

/// Takes what the catalogue answered to a search.
///
/// Results become the list that is paged through, and the first of them is
/// selected. Where there are none, nothing is selected, the images are
/// forgotten and a message says so. Where the search failed, the message
/// gives the cause, the list is emptied, nothing is selected and the images
/// are forgotten.
pub fn perform_search<H>(
    app: &mut WarThunderCamoInstaller,
    outcome: Result<Vec<Camouflage>, String>,
    images: &mut ResultTable<H>,
    queue: &mut PendingQueue,
)
    ensures
        final(images)@ == Map::<Seq<char>, H>::empty(),
        match outcome {
            Ok(results) => if results.len() > 0 {
                &&& final(app).current_camo matches Some(first) && first@ == results[0]@
                &&& *final(app) == (WarThunderCamoInstaller {
                    search_results: results,
                    search_mode: true,
                    current_index: 0,
                    current_camo: final(app).current_camo,
                    ..*old(app)
                })
                &&& final(queue)@ == admitted(
                    Seq::<Seq<char>>::empty(),
                    Set::<Seq<char>>::empty(),
                    results[0]@.image_urls,
                )
            } else {
                &&& says(final(app).error_message, "No results found"@)
                &&& *final(app) == (WarThunderCamoInstaller {
                    search_results: results,
                    search_mode: true,
                    current_index: 0,
                    current_camo: None,
                    error_message: final(app).error_message,
                    ..*old(app)
                })
                &&& final(queue)@ == Seq::<Seq<char>>::empty()
            },
            Err(cause) => {
                &&& says(final(app).error_message, "Search error: "@ + cause@)
                &&& final(app).search_results@.len() == 0
                &&& *final(app) == (WarThunderCamoInstaller {
                    search_results: final(app).search_results,
                    current_camo: None,
                    error_message: final(app).error_message,
                    ..*old(app)
                })
                &&& final(queue)@ == Seq::<Seq<char>>::empty()
            },
        },
{
    match outcome {
        Ok(results) => {
            app.search_mode = true;
            app.current_index = 0;
            if results.len() > 0 {
                let first = results[0].clone();
                app.set_current_camo(0, first, images, queue);
            } else {
                app.current_camo = None;
                WarThunderCamoInstaller::clear_images(images, queue);
                app.error_message = Some(String::from_str("No results found"));
            }
            app.search_results = results;
        },
        Err(cause) => {
            app.error_message = Some(String::from_str("Search error: ").concat(cause.as_str()));
            app.search_results = Vec::new();
            app.current_camo = None;
            WarThunderCamoInstaller::clear_images(images, queue);
        },
    }
}

/// `tags` without every occurrence of `tag`.
pub open spec fn without(tags: Seq<Seq<char>>, tag: Seq<char>) -> Seq<Seq<char>> {
    tags.filter(|t: Seq<char>| t != tag)
}

/// Selects `tag` for filtering if it is not selected, and takes it out of
/// the selection, wherever it stands there, if it is. The search is then to
/// be made anew.
pub fn toggle_tag(app: &mut WarThunderCamoInstaller, tag: &str)
    ensures
        final(app).selected_tags.deep_view() == if old(app).selected_tags.deep_view().contains(
            tag@,
        ) {
            without(old(app).selected_tags.deep_view(), tag@)
        } else {
            old(app).selected_tags.deep_view().push(tag@)
        },
        *final(app) == (WarThunderCamoInstaller {
            selected_tags: final(app).selected_tags,
            ..*old(app)
        }),
{
    let wanted = String::from_str(tag);
    let ghost before = app.selected_tags.deep_view();
    let mut kept: Vec<String> = Vec::new();
    let mut found = false;
    let mut i: usize = 0;
    proof {
        reveal(Seq::filter);
        assert(before.take(0) =~= Seq::<Seq<char>>::empty());
    }
    while i < app.selected_tags.len()
        invariant
            i <= app.selected_tags.len(),
            *app == *old(app),
            before == app.selected_tags.deep_view(),
            wanted@ == tag@,
            kept.deep_view() == without(before.take(i as int), tag@),
            found == before.take(i as int).contains(tag@),
        decreases app.selected_tags.len() - i,
    {
        proof {
            reveal(Seq::filter);
            let seen = before.take(i as int);
            let grown = before.take(i + 1);
            assert(grown.drop_last() =~= seen);
            assert(grown.last() == app.selected_tags[i as int]@);
            if seen.contains(tag@) {
                let j = choose|j: int| 0 <= j < seen.len() && seen[j] == tag@;
                assert(grown[j] == tag@);
            }
            if grown.contains(tag@) && before[i as int] != tag@ {
                let j = choose|j: int| 0 <= j < grown.len() && grown[j] == tag@;
                assert(seen[j] == tag@);
            }
        }
        if app.selected_tags[i] == wanted {
            found = true;
            assert(before.take(i + 1)[i as int] == tag@);
        } else {
            let ghost so_far = kept.deep_view();
            kept.push(app.selected_tags[i].clone());
            assert(kept.deep_view() =~= so_far.push(before[i as int]));
        }
        i += 1;
    }
    assert(before.take(app.selected_tags.len() as int) =~= before);
    if found {
        app.selected_tags = kept;
    } else {
        app.selected_tags.push(wanted);
        assert(app.selected_tags.deep_view() =~= before.push(tag@));
    }
}

/// Takes note that filtering by tags was switched: where it is now on, it
/// starts with no tag selected. The search is then to be made anew.
pub fn tag_filtering_changed(app: &mut WarThunderCamoInstaller)
    ensures
        !old(app).tag_filtering_enabled ==> *final(app) == *old(app),
        old(app).tag_filtering_enabled ==> {
            &&& final(app).selected_tags@.len() == 0
            &&& *final(app) == (WarThunderCamoInstaller {
                selected_tags: final(app).selected_tags,
                ..*old(app)
            })
        },
{
    if app.tag_filtering_enabled {
        app.selected_tags = Vec::new();
    }
}

/// Switches filtering by tags on if it is off and off if it is on. The
/// search is then to be made anew.
pub fn toggle_tag_filtering(app: &mut WarThunderCamoInstaller)
    ensures
        *final(app) == (WarThunderCamoInstaller {
            tag_filtering_enabled: !old(app).tag_filtering_enabled,
            ..*old(app)
        }),
{
    app.tag_filtering_enabled = !app.tag_filtering_enabled;
}

/// The tags among `parts`: each part without the white space at its ends,
/// unless nothing is left of it.
pub open spec fn tags_among(parts: Seq<Seq<char>>) -> Seq<Seq<char>> {
    parts.map_values(|part: Seq<char>| trimmed(part)).filter(|tag: Seq<char>| tag.len() > 0)
}

/// The tags that `input` names: what stands between its commas.
pub open spec fn entered_tags(input: Seq<char>) -> Seq<Seq<char>> {
    tags_among(pieces(input, ','))
}

/// Adds the tags that the user typed, separated by commas, to the custom
/// tags, and empties the input. The custom tags then stand in dictionary
/// order, each once.
pub fn add_custom_tags(app: &mut WarThunderCamoInstaller)
    ensures
        increasing(final(app).custom_tags.deep_view()),
        forall|tag: Seq<char>|
            final(app).custom_tags.deep_view().contains(tag) <==> (old(
                app,
            ).custom_tags.deep_view().contains(tag) || entered_tags(
                old(app).custom_tags_input@,
            ).contains(tag)),
        final(app).custom_tags_input@ == Seq::<char>::empty(),
        *final(app) == (WarThunderCamoInstaller {
            custom_tags: final(app).custom_tags,
            custom_tags_input: final(app).custom_tags_input,
            ..*old(app)
        }),
{
    let parts = split_on(app.custom_tags_input.as_str(), ',');
    let ghost given = parts.deep_view();
    let ghost kept = app.custom_tags.deep_view();
    let mut all = clone_strings(&app.custom_tags);
    let mut i: usize = 0;
    proof {
        reveal(Seq::filter);
        assert(given.take(0).map_values(|part: Seq<char>| trimmed(part)) =~= Seq::<
            Seq<char>,
        >::empty());
        assert(all.deep_view() =~= kept + tags_among(given.take(0)));
    }
    while i < parts.len()
        invariant
            i <= parts.len(),
            *app == *old(app),
            given == parts.deep_view(),
            all.deep_view() == kept + tags_among(given.take(i as int)),
        decreases parts.len() - i,
    {
        let tag = trim(parts[i].as_str());
        proof {
            reveal(Seq::filter);
            let seen = given.take(i as int).map_values(|part: Seq<char>| trimmed(part));
            let grown = given.take(i + 1).map_values(|part: Seq<char>| trimmed(part));
            assert(grown.drop_last() =~= seen);
            assert(grown.last() == tag@);
        }
        if !tag.as_str().is_empty() {
            let ghost before = all.deep_view();
            all.push(tag);
            assert(all.deep_view() =~= before.push(tag@));
            assert(before.push(tag@) =~= kept + tags_among(given.take(i as int)).push(tag@));
        }
        i += 1;
    }
    assert(given.take(parts.len() as int) =~= given);
    let sorted = sorted_distinct(&all);
    proof {
        let entered = entered_tags(old(app).custom_tags_input@);
        let joined = all.deep_view();
        assert(joined == kept + entered);
        assert forall|tag: Seq<char>| sorted.deep_view().contains(tag) <==> (kept.contains(tag)
            || entered.contains(tag)) by {
            if joined.contains(tag) {
                let k = choose|k: int| 0 <= k < joined.len() && joined[k] == tag;
                if k < kept.len() {
                    assert(kept[k] == tag);
                } else {
                    assert(entered[k - kept.len()] == tag);
                }
            }
            if kept.contains(tag) {
                let k = choose|k: int| 0 <= k < kept.len() && kept[k] == tag;
                assert(joined[k] == tag);
            }
            if entered.contains(tag) {
                let k = choose|k: int| 0 <= k < entered.len() && entered[k] == tag;
                assert(joined[kept.len() + k] == tag);
            }
        }
    }
    app.custom_tags = sorted;
    app.custom_tags_input = String::new();
}

} // verus!

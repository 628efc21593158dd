//! The browser's state: the selected camouflage, the search, the settings.

use crate::data::{clone_strings, Camouflage};
use crate::dispatcher::{admitted, enqueue};
use crate::pending_queue::PendingQueue;
use crate::result_table::ResultTable;
use crate::tags::TagCollection;
use crate::ui::file_handlers::{install_skin, planned_for};
use vstd::prelude::*;

verus! {

/// Whether `message` is set and reads `text`.
pub open spec fn says(message: Option<String>, text: Seq<char>) -> bool {
    match message {
        Some(m) => m@ == text,
        None => false,
    }
}

/// Where an archive is to be unpacked.
#[derive(Debug)]
pub enum InstallTarget {
    /// Into the directory of this path.
    Path(String),
    /// Into the directory `name` directly below `directory`.
    Below { directory: String, name: String },
}

/// An installation that is to be carried out: the archive at `zip_url` is to
/// be downloaded and unpacked into `target`.
#[derive(Debug)]
pub struct InstallPlan {
    pub zip_url: String,
    pub target: InstallTarget,
}

/// The state of the catalogue browser. The tables of the image pipeline are
/// not part of it: they are shared with the workers and handed to the
/// functions that need them.
#[derive(Debug)]
pub struct WarThunderCamoInstaller {
    pub current_camo: Option<Camouflage>,
    pub error_message: Option<String>,
    pub search_query: String,
    pub current_index: usize,
    pub total_camos: usize,
    pub search_results: Vec<Camouflage>,
    pub search_mode: bool,
    pub wt_skins_dir: Option<String>,
    pub custom_structure: String,
    pub use_custom_structure: bool,
    pub show_import_popup: bool,
    pub show_about_popup: bool,
    pub selected_import_dir: Option<String>,
    pub show_custom_structure_popup: bool,
    pub available_tags: Vec<String>,
    pub selected_tags: Vec<String>,
    pub custom_tags_input: String,
    pub custom_tags: Vec<String>,
    pub tag_filtering_enabled: bool,
    pub show_detailed_view: bool,
    pub current_page: usize,
    pub wt_dir_not_found: bool,
}

impl WarThunderCamoInstaller {
    /// The state at start: no database, no camouflage, the usual pattern for
    /// the installation directory, and the game's directory not yet found.
    pub fn new() -> (app: Self)
        ensures
            app.current_camo is None,
            says(app.error_message, "No database loaded. Some features may be limited."@),
            app.search_query@.len() == 0,
            app.current_index == 0,
            app.total_camos == 0,
            app.search_results@.len() == 0,
            !app.search_mode,
            app.wt_skins_dir is None,
            app.custom_structure@ == "%USERSKINS/%NICKNAME/%SKIN_NAME - %VEHICLE"@,
            app.use_custom_structure,
            !app.show_import_popup,
            !app.show_about_popup,
            app.selected_import_dir is None,
            !app.show_custom_structure_popup,
            app.available_tags@.len() == 0,
            app.selected_tags@.len() == 0,
            app.custom_tags_input@.len() == 0,
            app.custom_tags@.len() == 0,
            app.tag_filtering_enabled,
            !app.show_detailed_view,
            app.current_page == 0,
            app.wt_dir_not_found,
    {
        WarThunderCamoInstaller {
            current_camo: None,
            error_message: Some(
                String::from_str("No database loaded. Some features may be limited."),
            ),
            search_query: String::new(),
            current_index: 0,
            total_camos: 0,
            search_results: Vec::new(),
            search_mode: false,
            wt_skins_dir: None,
            custom_structure: String::from_str("%USERSKINS/%NICKNAME/%SKIN_NAME - %VEHICLE"),
            use_custom_structure: true,
            show_import_popup: false,
            show_about_popup: false,
            selected_import_dir: None,
            show_custom_structure_popup: false,
            available_tags: Vec::new(),
            selected_tags: Vec::new(),
            custom_tags_input: String::new(),
            custom_tags: Vec::new(),
            tag_filtering_enabled: true,
            show_detailed_view: false,
            current_page: 0,
            wt_dir_not_found: true,
        }
    }

    /// Starts the installation of the selected camouflage from the archive
    /// at `zip_url`, and says so; says that nothing is selected where nothing
    /// is.
    pub fn start_skin_installation(&mut self, zip_url: &str) -> (plan: Option<InstallPlan>)
        ensures
            match plan {
                Some(p) => old(self).current_camo is Some && planned_for(*old(self), zip_url@, p),
                None => old(self).current_camo is None || old(self).wt_skins_dir is None,
            },
            says(
                final(self).error_message,
                if old(self).current_camo is Some {
                    "Skin installation initiated."@
                } else {
                    "No camouflage selected for installation."@
                },
            ),
            *final(self) == (WarThunderCamoInstaller {
                error_message: final(self).error_message,
                ..*old(self)
            }),
    {
        if self.current_camo.is_some() {
            let plan = install_skin(self, zip_url);
            self.error_message = Some(String::from_str("Skin installation initiated."));
            plan
        } else {
            self.error_message = Some(
                String::from_str("No camouflage selected for installation."),
            );
            None
        }
    }

    /// Takes `path` as the directory for user skins.
    pub fn set_wt_skins_directory(&mut self, path: &str)
        ensures
            final(self).wt_skins_dir matches Some(dir) && dir@ == path@,
            !final(self).wt_dir_not_found,
            *final(self) == (WarThunderCamoInstaller {
                wt_skins_dir: final(self).wt_skins_dir,
                wt_dir_not_found: false,
                ..*old(self)
            }),
    {
        self.wt_skins_dir = Some(String::from_str(path));
        self.wt_dir_not_found = false;
    }

    /// Forgets the images of the selection that is left: every resolved image
    /// and every key that still waits. What the byte cache holds stays.
    pub fn clear_images<H>(images: &mut ResultTable<H>, queue: &mut PendingQueue)
        ensures
            final(images)@ == Map::<Seq<char>, H>::empty(),
            final(queue)@ == Seq::<Seq<char>>::empty(),
    {
        images.clear();
        queue.clear();
    }

    /// Selects `camo`, the record at `index`: the images of the selection
    /// before are forgotten and those of `camo` are asked for.
    pub fn set_current_camo<H>(
        &mut self,
        index: usize,
        camo: Camouflage,
        images: &mut ResultTable<H>,
        queue: &mut PendingQueue,
    )
        ensures
            *final(self) == (WarThunderCamoInstaller {
                current_index: index,
                current_camo: Some(camo),
                ..*old(self)
            }),
            final(images)@ == Map::<Seq<char>, H>::empty(),
            final(queue)@ == admitted(
                Seq::<Seq<char>>::empty(),
                Set::<Seq<char>>::empty(),
                camo.image_urls.deep_view(),
            ),
    {
        Self::clear_images(images, queue);
        assert(images@.dom() =~= Set::<Seq<char>>::empty());
        enqueue(queue, images, &camo.image_urls);
        self.current_index = index;
        self.current_camo = Some(camo);
    }

    /// Takes over the catalogue that a newly opened database holds: all its
    /// camouflages become the list that is paged through, and the first of
    /// them, if there is one, is selected.
    pub fn initialize_database<H>(
        &mut self,
        all_camouflages: Vec<Camouflage>,
        images: &mut ResultTable<H>,
        queue: &mut PendingQueue,
    )
        ensures
            final(self).search_results == all_camouflages,
            final(self).total_camos == all_camouflages.len(),
            all_camouflages.len() == 0 ==> {
                &&& *final(self) == (WarThunderCamoInstaller {
                    search_results: all_camouflages,
                    total_camos: 0,
                    ..*old(self)
                })
                &&& final(images)@ == old(images)@
                &&& final(queue)@ == old(queue)@
            },
            all_camouflages.len() > 0 ==> {
                &&& final(self).current_camo matches Some(first) && first@ == all_camouflages[0]@
                &&& *final(self) == (WarThunderCamoInstaller {
                    search_results: all_camouflages,
                    total_camos: all_camouflages.len(),
                    current_index: 0,
                    current_camo: final(self).current_camo,
                    ..*old(self)
                })
                &&& final(images)@ == Map::<Seq<char>, H>::empty()
                &&& final(queue)@ == admitted(
                    Seq::<Seq<char>>::empty(),
                    Set::<Seq<char>>::empty(),
                    all_camouflages[0]@.image_urls,
                )
            },
    {
        self.total_camos = all_camouflages.len();
        if all_camouflages.len() > 0 {
            let first = all_camouflages[0].clone();
            self.set_current_camo(0, first, images, queue);
        }
        self.search_results = all_camouflages;
    }

    /// The tags as one collection, for export.
    pub fn export_tags(&self) -> (tags: TagCollection)
        ensures
            tags.available_tags.deep_view() == self.available_tags.deep_view(),
            tags.custom_tags.deep_view() == self.custom_tags.deep_view(),
    {
        TagCollection {
            available_tags: clone_strings(&self.available_tags),
            custom_tags: clone_strings(&self.custom_tags),
        }
    }

    /// Takes the tags of an imported collection in place of the present ones.
    pub fn import_tags(&mut self, tags: TagCollection)
        ensures
            *final(self) == (WarThunderCamoInstaller {
                available_tags: tags.available_tags,
                custom_tags: tags.custom_tags,
                ..*old(self)
            }),
    {
        self.available_tags = tags.available_tags;
        self.custom_tags = tags.custom_tags;
    }
}

} // verus!

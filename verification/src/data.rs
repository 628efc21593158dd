//! The catalogue's records and the installer's errors.

use vstd::prelude::*;
use vstd::std_specs::convert::FromSpecImpl;

verus! {

/// One camouflage of the catalogue.
#[derive(Debug)]
pub struct Camouflage {
    pub nickname: String,
    pub vehicle_name: String,
    pub description: String,
    pub file_size: String,
    pub post_date: String,
    pub hashtags: Vec<String>,
    pub tags: Vec<String>,
    pub num_downloads: usize,
    pub num_likes: usize,
    pub zip_file_url: String,
    pub image_urls: Vec<String>,
}

/// A camouflage as a value.
pub struct CamouflageView {
    pub nickname: Seq<char>,
    pub vehicle_name: Seq<char>,
    pub description: Seq<char>,
    pub file_size: Seq<char>,
    pub post_date: Seq<char>,
    pub hashtags: Seq<Seq<char>>,
    pub tags: Seq<Seq<char>>,
    pub num_downloads: nat,
    pub num_likes: nat,
    pub zip_file_url: Seq<char>,
    pub image_urls: Seq<Seq<char>>,
}

impl View for Camouflage {
    type V = CamouflageView;

    open spec fn view(&self) -> CamouflageView {
        CamouflageView {
            nickname: self.nickname@,
            vehicle_name: self.vehicle_name@,
            description: self.description@,
            file_size: self.file_size@,
            post_date: self.post_date@,
            hashtags: self.hashtags.deep_view(),
            tags: self.tags.deep_view(),
            num_downloads: self.num_downloads as nat,
            num_likes: self.num_likes as nat,
            zip_file_url: self.zip_file_url@,
            image_urls: self.image_urls.deep_view(),
        }
    }
}

/// A copy of `strings`.
pub fn clone_strings(strings: &Vec<String>) -> (copy: Vec<String>)
    ensures
        copy.deep_view() == strings.deep_view(),
{
    let mut copy: Vec<String> = Vec::new();
    let mut i: usize = 0;
    while i < strings.len()
        invariant
            i <= strings.len(),
            copy.deep_view() == strings.deep_view().take(i as int),
        decreases strings.len() - i,
    {
        let ghost before = copy.deep_view();
        copy.push(strings[i].clone());
        assert(copy.deep_view() =~= before.push(strings[i as int]@));
        assert(strings.deep_view().take(i + 1) =~= before.push(strings[i as int]@));
        i += 1;
    }
    assert(strings.deep_view().take(strings.len() as int) =~= strings.deep_view());
    copy
}

impl Clone for Camouflage {
    fn clone(&self) -> (copy: Self)
        ensures
            copy@ == self@,
    {
        Camouflage {
            nickname: self.nickname.clone(),
            vehicle_name: self.vehicle_name.clone(),
            description: self.description.clone(),
            file_size: self.file_size.clone(),
            post_date: self.post_date.clone(),
            hashtags: clone_strings(&self.hashtags),
            tags: clone_strings(&self.tags),
            num_downloads: self.num_downloads,
            num_likes: self.num_likes,
            zip_file_url: self.zip_file_url.clone(),
            image_urls: clone_strings(&self.image_urls),
        }
    }
}

impl Default for Camouflage {
    /// The camouflage with empty texts, no lists and zero counts.
    fn default() -> (camo: Self)
        ensures
            camo@ == (CamouflageView {
                nickname: Seq::empty(),
                vehicle_name: Seq::empty(),
                description: Seq::empty(),
                file_size: Seq::empty(),
                post_date: Seq::empty(),
                hashtags: Seq::empty(),
                tags: Seq::empty(),
                num_downloads: 0,
                num_likes: 0,
                zip_file_url: Seq::empty(),
                image_urls: Seq::empty(),
            }),
    {
        let camo = Camouflage {
            nickname: String::new(),
            vehicle_name: String::new(),
            description: String::new(),
            file_size: String::new(),
            post_date: String::new(),
            hashtags: Vec::new(),
            tags: Vec::new(),
            num_downloads: 0,
            num_likes: 0,
            zip_file_url: String::new(),
            image_urls: Vec::new(),
        };
        assert(camo.hashtags.deep_view() =~= Seq::<Seq<char>>::empty());
        assert(camo.tags.deep_view() =~= Seq::<Seq<char>>::empty());
        assert(camo.image_urls.deep_view() =~= Seq::<Seq<char>>::empty());
        camo
    }
}

/// What can go wrong in the installer. Each variant carries the message of
/// its cause.
#[derive(Debug)]
pub enum InstallerError {
    /// The database reported an error.
    Sqlite(String),
    /// Reading or writing a file failed.
    Io(String),
    /// Another failure, described by its message.
    Custom(String),
}

impl InstallerError {
    /// The error as a line of text.
    pub fn to_string(&self) -> (text: String)
        ensures
            text@ == match *self {
                InstallerError::Sqlite(cause) => "SQLite error: "@ + cause@,
                InstallerError::Io(cause) => "IO error: "@ + cause@,
                InstallerError::Custom(cause) => "Custom error: "@ + cause@,
            },
    {
        match self {
            InstallerError::Sqlite(cause) => String::from_str("SQLite error: ").concat(
                cause.as_str(),
            ),
            InstallerError::Io(cause) => String::from_str("IO error: ").concat(cause.as_str()),
            InstallerError::Custom(cause) => String::from_str("Custom error: ").concat(
                cause.as_str(),
            ),
        }
    }
}

impl From<String> for InstallerError {
    fn from(err: String) -> (error: Self) {
        InstallerError::Custom(err)
    }
}

impl FromSpecImpl<String> for InstallerError {
    open spec fn obeys_from_spec() -> bool {
        true
    }

    open spec fn from_spec(err: String) -> Self {
        InstallerError::Custom(err)
    }
}

/// Every error of the application.
#[derive(Debug)]
pub enum AppError {
    /// An error of the installer.
    Installer(InstallerError),
    /// An error of the database, by its message.
    Database(String),
}

impl AppError {
    /// The error as a line of text.
    pub fn to_string(&self) -> (text: String)
        ensures
            text@ == match *self {
                AppError::Installer(cause) => "Installer error: "@ + (match cause {
                    InstallerError::Sqlite(c) => "SQLite error: "@ + c@,
                    InstallerError::Io(c) => "IO error: "@ + c@,
                    InstallerError::Custom(c) => "Custom error: "@ + c@,
                }),
                AppError::Database(cause) => "Database error: "@ + cause@,
            },
    {
        match self {
            AppError::Installer(cause) => {
                let inner = cause.to_string();
                String::from_str("Installer error: ").concat(inner.as_str())
            },
            AppError::Database(cause) => String::from_str("Database error: ").concat(
                cause.as_str(),
            ),
        }
    }
}

impl From<InstallerError> for AppError {
    fn from(err: InstallerError) -> (error: Self) {
        AppError::Installer(err)
    }
}

impl FromSpecImpl<InstallerError> for AppError {
    open spec fn obeys_from_spec() -> bool {
        true
    }

    open spec fn from_spec(err: InstallerError) -> Self {
        AppError::Installer(err)
    }
}

} // verus!

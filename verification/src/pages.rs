//! The navigation and explore pages, the dialog and context-drawer pages,
//! and the editorial curation list.

use vstd::prelude::*;
use vstd::string::StringExecFns;
use crate::app_id::AppId;
use crate::app_info::AppInfo;
use crate::category::Category;
use crate::source::RepositoryRemoveError;

verus! {

/// A keyboard-shortcut action of the store window.
#[derive(Clone, Copy, Debug, Eq, PartialEq, Structural)]
pub enum Action {
    SearchActivate,
}

/// A context-drawer page.
#[derive(Debug)]
pub enum ContextPage {
    Operations,
    ReleaseNotes(usize, String),
    Repositories,
    Settings,
}

/// A modal dialog.
#[derive(Debug)]
pub enum DialogPage {
    FailedOperation(u64),
    RepositoryAddError(String),
    RepositoryRemove(String, RepositoryRemoveError),
    Uninstall(String, AppId, AppInfo),
    Place(AppId),
}

/// One selectable source of the application shown on the details page.
#[derive(Debug)]
pub struct SelectedSource {
    pub backend_name: String,
    pub source_id: String,
    pub source_name: String,
}

impl SelectedSource {
    /// The source row for one entry of the selected application: its
    /// display name is marked when the entry is installed.
    pub fn new(backend_name: String, info: &AppInfo, installed: bool) -> (r: Self)
        ensures
            r.backend_name@ == backend_name@,
            r.source_id@ == info.source_id@,
            installed ==> r.source_name@ == info.source_name@ + " (installed)"@,
            !installed ==> r.source_name@ == info.source_name@,
    {
        SelectedSource {
            backend_name,
            source_id: info.source_id.clone(),
            source_name: if installed {
                info.source_name.clone().concat(" (installed)")
            } else {
                info.source_name.clone()
            },
        }
    }
}

/// A page of the navigation bar.
#[derive(Clone, Copy, Debug, Eq, PartialEq, Structural)]
pub enum NavPage {
    Explore,
    Create,
    Work,
    Develop,
    Learn,
    Game,
    Relax,
    Socialize,
    Utilities,
    Applets,
    Installed,
    Updates,
}

impl NavPage {
    /// Every navigation page, in display order.
    pub fn all() -> (r: Vec<NavPage>)
        ensures
            r@ == seq![
                NavPage::Explore,
                NavPage::Create,
                NavPage::Work,
                NavPage::Develop,
                NavPage::Learn,
                NavPage::Game,
                NavPage::Relax,
                NavPage::Socialize,
                NavPage::Utilities,
                NavPage::Applets,
                NavPage::Installed,
                NavPage::Updates,
            ],
    {
        let mut v: Vec<NavPage> = Vec::new();
        v.push(Self::Explore);
        v.push(Self::Create);
        v.push(Self::Work);
        v.push(Self::Develop);
        v.push(Self::Learn);
        v.push(Self::Game);
        v.push(Self::Relax);
        v.push(Self::Socialize);
        v.push(Self::Utilities);
        v.push(Self::Applets);
        v.push(Self::Installed);
        v.push(Self::Updates);
        proof {
            assert(v@ =~= seq![
                NavPage::Explore,
                NavPage::Create,
                NavPage::Work,
                NavPage::Develop,
                NavPage::Learn,
                NavPage::Game,
                NavPage::Relax,
                NavPage::Socialize,
                NavPage::Utilities,
                NavPage::Applets,
                NavPage::Installed,
                NavPage::Updates,
            ]);
        }
        v
    }

    /// The display title of the page.
    pub open spec fn spec_title(self) -> Seq<char> {
        match self {
            Self::Explore => "Explore"@,
            Self::Create => "Create"@,
            Self::Work => "Work"@,
            Self::Develop => "Develop"@,
            Self::Learn => "Learn"@,
            Self::Game => "Game"@,
            Self::Relax => "Relax"@,
            Self::Socialize => "Socialize"@,
            Self::Utilities => "Utilities"@,
            Self::Applets => "Applets"@,
            Self::Installed => "Installed apps"@,
            Self::Updates => "Updates"@,
        }
    }

    /// The display title of the page.
    pub fn title(&self) -> (r: String)
        ensures
            r@ == self.spec_title(),
    {
        match self {
            Self::Explore => "Explore".to_owned(),
            Self::Create => "Create".to_owned(),
            Self::Work => "Work".to_owned(),
            Self::Develop => "Develop".to_owned(),
            Self::Learn => "Learn".to_owned(),
            Self::Game => "Game".to_owned(),
            Self::Relax => "Relax".to_owned(),
            Self::Socialize => "Socialize".to_owned(),
            Self::Utilities => "Utilities".to_owned(),
            Self::Applets => "Applets".to_owned(),
            Self::Installed => "Installed apps".to_owned(),
            Self::Updates => "Updates".to_owned(),
        }
    }

    /// The categories the page browses, where it is a category page.
    pub open spec fn spec_categories(self) -> Option<Seq<Category>> {
        match self {
            Self::Create => Some(seq![Category::AudioVideo, Category::Graphics]),
            Self::Work => Some(seq![Category::Development, Category::Office, Category::Science]),
            Self::Develop => Some(seq![Category::Development]),
            Self::Learn => Some(seq![Category::Education]),
            Self::Game => Some(seq![Category::Game]),
            Self::Relax => Some(seq![Category::AudioVideo]),
            Self::Socialize => Some(seq![Category::Network]),
            Self::Utilities => Some(
                seq![Category::Settings, Category::System, Category::Utility],
            ),
            Self::Applets => Some(seq![Category::CosmicApplet]),
            _ => None,
        }
    }

    /// The categories the page browses, where it is a category page.
    pub fn categories(&self) -> (r: Option<Vec<Category>>)
        ensures
            match (self.spec_categories(), &r) {
                (Some(s), Some(v)) => v@ == s,
                (None, None) => true,
                _ => false,
            },
    {
        let mut v: Vec<Category> = Vec::new();
        match self {
            Self::Create => {
                v.push(Category::AudioVideo);
                v.push(Category::Graphics);
                proof {
                    assert(v@ =~= seq![Category::AudioVideo, Category::Graphics]);
                }
                Some(v)
            },
            Self::Work => {
                v.push(Category::Development);
                v.push(Category::Office);
                v.push(Category::Science);
                proof {
                    assert(v@ =~= seq![
                        Category::Development,
                        Category::Office,
                        Category::Science,
                    ]);
                }
                Some(v)
            },
            Self::Develop => {
                v.push(Category::Development);
                proof {
                    assert(v@ =~= seq![Category::Development]);
                }
                Some(v)
            },
            Self::Learn => {
                v.push(Category::Education);
                proof {
                    assert(v@ =~= seq![Category::Education]);
                }
                Some(v)
            },
            Self::Game => {
                v.push(Category::Game);
                proof {
                    assert(v@ =~= seq![Category::Game]);
                }
                Some(v)
            },
            Self::Relax => {
                v.push(Category::AudioVideo);
                proof {
                    assert(v@ =~= seq![Category::AudioVideo]);
                }
                Some(v)
            },
            Self::Socialize => {
                v.push(Category::Network);
                proof {
                    assert(v@ =~= seq![Category::Network]);
                }
                Some(v)
            },
            Self::Utilities => {
                v.push(Category::Settings);
                v.push(Category::System);
                v.push(Category::Utility);
                proof {
                    assert(v@ =~= seq![Category::Settings, Category::System, Category::Utility]);
                }
                Some(v)
            },
            Self::Applets => {
                v.push(Category::CosmicApplet);
                proof {
                    assert(v@ =~= seq![Category::CosmicApplet]);
                }
                Some(v)
            },
            _ => None,
        }
    }
}

/// A named curated or algorithmic listing on the explore view.
#[derive(Clone, Copy, Debug, Eq, PartialEq, Hash, Structural)]
pub enum ExplorePage {
    EditorsChoice,
    PopularApps,
    MadeForCosmic,
    NewApps,
    RecentlyUpdated,
    DevelopmentTools,
    ScientificTools,
    ProductivityApps,
    GraphicsAndPhotographyTools,
    SocialNetworkingApps,
    Games,
    MusicAndVideoApps,
    AppsForLearning,
    Utilities,
}

impl ExplorePage {
    /// The explore pages that are shown, in display order.
    pub open spec fn spec_all() -> Seq<ExplorePage> {
        seq![
            ExplorePage::EditorsChoice,
            ExplorePage::PopularApps,
            ExplorePage::MadeForCosmic,
            ExplorePage::RecentlyUpdated,
            ExplorePage::DevelopmentTools,
            ExplorePage::ScientificTools,
            ExplorePage::ProductivityApps,
            ExplorePage::GraphicsAndPhotographyTools,
            ExplorePage::SocialNetworkingApps,
            ExplorePage::Games,
            ExplorePage::MusicAndVideoApps,
            ExplorePage::AppsForLearning,
            ExplorePage::Utilities,
        ]
    }

    /// The explore pages that are shown, in display order.
    pub fn all() -> (r: Vec<ExplorePage>)
        ensures
            r@ == ExplorePage::spec_all(),
    {
        let mut v: Vec<ExplorePage> = Vec::new();
        v.push(Self::EditorsChoice);
        v.push(Self::PopularApps);
        v.push(Self::MadeForCosmic);
        v.push(Self::RecentlyUpdated);
        v.push(Self::DevelopmentTools);
        v.push(Self::ScientificTools);
        v.push(Self::ProductivityApps);
        v.push(Self::GraphicsAndPhotographyTools);
        v.push(Self::SocialNetworkingApps);
        v.push(Self::Games);
        v.push(Self::MusicAndVideoApps);
        v.push(Self::AppsForLearning);
        v.push(Self::Utilities);
        proof {
            assert(v@ =~= seq![
                ExplorePage::EditorsChoice,
                ExplorePage::PopularApps,
                ExplorePage::MadeForCosmic,
                ExplorePage::RecentlyUpdated,
                ExplorePage::DevelopmentTools,
                ExplorePage::ScientificTools,
                ExplorePage::ProductivityApps,
                ExplorePage::GraphicsAndPhotographyTools,
                ExplorePage::SocialNetworkingApps,
                ExplorePage::Games,
                ExplorePage::MusicAndVideoApps,
                ExplorePage::AppsForLearning,
                ExplorePage::Utilities,
            ]);
        }
        v
    }

    /// The display title of the page.
    pub open spec fn spec_title(self) -> Seq<char> {
        match self {
            Self::EditorsChoice => "Editor's choice"@,
            Self::PopularApps => "Popular apps"@,
            Self::MadeForCosmic => "Made for COSMIC"@,
            Self::NewApps => "New apps"@,
            Self::RecentlyUpdated => "Recently updated"@,
            Self::DevelopmentTools => "Development tools"@,
            Self::ScientificTools => "Scientific tools"@,
            Self::ProductivityApps => "Productivity apps"@,
            Self::GraphicsAndPhotographyTools => "Graphics and photography tools"@,
            Self::SocialNetworkingApps => "Social networking apps"@,
            Self::Games => "Games"@,
            Self::MusicAndVideoApps => "Music and video apps"@,
            Self::AppsForLearning => "Apps for learning"@,
            Self::Utilities => "Utilities"@,
        }
    }

    /// The display title of the page.
    pub fn title(&self) -> (r: String)
        ensures
            r@ == self.spec_title(),
    {
        match self {
            Self::EditorsChoice => "Editor's choice".to_owned(),
            Self::PopularApps => "Popular apps".to_owned(),
            Self::MadeForCosmic => "Made for COSMIC".to_owned(),
            Self::NewApps => "New apps".to_owned(),
            Self::RecentlyUpdated => "Recently updated".to_owned(),
            Self::DevelopmentTools => "Development tools".to_owned(),
            Self::ScientificTools => "Scientific tools".to_owned(),
            Self::ProductivityApps => "Productivity apps".to_owned(),
            Self::GraphicsAndPhotographyTools => "Graphics and photography tools".to_owned(),
            Self::SocialNetworkingApps => "Social networking apps".to_owned(),
            Self::Games => "Games".to_owned(),
            Self::MusicAndVideoApps => "Music and video apps".to_owned(),
            Self::AppsForLearning => "Apps for learning".to_owned(),
            Self::Utilities => "Utilities".to_owned(),
        }
    }

    /// The categories an explore page browses; empty for the pages that
    /// are not category listings.
    pub open spec fn spec_categories(self) -> Seq<Category> {
        match self {
            Self::DevelopmentTools => seq![Category::Development],
            Self::ScientificTools => seq![Category::Science],
            Self::ProductivityApps => seq![Category::Office],
            Self::GraphicsAndPhotographyTools => seq![Category::Graphics],
            Self::SocialNetworkingApps => seq![Category::Network],
            Self::Games => seq![Category::Game],
            Self::MusicAndVideoApps => seq![Category::AudioVideo],
            Self::AppsForLearning => seq![Category::Education],
            Self::Utilities => seq![Category::Settings, Category::System, Category::Utility],
            _ => Seq::<Category>::empty(),
        }
    }

    /// The categories an explore page browses.
    pub fn categories(&self) -> (r: Vec<Category>)
        ensures
            r@ == self.spec_categories(),
    {
        let mut v: Vec<Category> = Vec::new();
        match self {
            Self::DevelopmentTools => v.push(Category::Development),
            Self::ScientificTools => v.push(Category::Science),
            Self::ProductivityApps => v.push(Category::Office),
            Self::GraphicsAndPhotographyTools => v.push(Category::Graphics),
            Self::SocialNetworkingApps => v.push(Category::Network),
            Self::Games => v.push(Category::Game),
            Self::MusicAndVideoApps => v.push(Category::AudioVideo),
            Self::AppsForLearning => v.push(Category::Education),
            Self::Utilities => {
                v.push(Category::Settings);
                v.push(Category::System);
                v.push(Category::Utility);
            },
            _ => {},
        }
        proof {
            assert(v@ =~= self.spec_categories());
        }
        v
    }
}

/// The fixed editorial list of applications shown on the editors' choice
/// page, by normalized identifier, in display order.
pub fn editors_choice_ids() -> (r: Vec<String>)
    ensures
        r.deep_view() == seq![
            "com.system76.cosmicedit"@,
            "com.system76.cosmicfiles"@,
            "com.system76.cosmicterm"@,
            "org.mozilla.firefox"@,
            "org.gimp.gimp"@,
            "org.inkscape.inkscape"@,
            "org.blender.blender"@,
            "com.spotify.client"@,
            "org.signal.signal"@,
            "org.videolan.vlc"@,
        ],
{
    let mut v: Vec<String> = Vec::new();
    v.push("com.system76.cosmicedit".to_owned());
    v.push("com.system76.cosmicfiles".to_owned());
    v.push("com.system76.cosmicterm".to_owned());
    v.push("org.mozilla.firefox".to_owned());
    v.push("org.gimp.gimp".to_owned());
    v.push("org.inkscape.inkscape".to_owned());
    v.push("org.blender.blender".to_owned());
    v.push("com.spotify.client".to_owned());
    v.push("org.signal.signal".to_owned());
    v.push("org.videolan.vlc".to_owned());
    proof {
        assert(v.deep_view() =~= seq![
            "com.system76.cosmicedit"@,
            "com.system76.cosmicfiles"@,
            "com.system76.cosmicterm"@,
            "org.mozilla.firefox"@,
            "org.gimp.gimp"@,
            "org.inkscape.inkscape"@,
            "org.blender.blender"@,
            "com.spotify.client"@,
            "org.signal.signal"@,
            "org.videolan.vlc"@,
        ]);
    }
    v
}

} // verus!

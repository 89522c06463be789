//! Freedesktop menu categories used for category browsing, plus the
//! synthetic applet pseudo-category.

use vstd::prelude::*;

verus! {

/// A category an application can belong to.
#[derive(Clone, Copy, Debug, Eq, PartialEq, Structural)]
pub enum Category {
    AudioVideo,
    Development,
    Education,
    Game,
    Graphics,
    Network,
    Office,
    Science,
    Settings,
    System,
    Utility,
    CosmicApplet,
}

/// The category identifier as it appears in application metadata.
pub open spec fn spec_category_id(c: Category) -> Seq<char> {
    match c {
        Category::AudioVideo => "AudioVideo"@,
        Category::Development => "Development"@,
        Category::Education => "Education"@,
        Category::Game => "Game"@,
        Category::Graphics => "Graphics"@,
        Category::Network => "Network"@,
        Category::Office => "Office"@,
        Category::Science => "Science"@,
        Category::Settings => "Settings"@,
        Category::System => "System"@,
        Category::Utility => "Utility"@,
        Category::CosmicApplet => "CosmicApplet"@,
    }
}

impl Category {
    /// The category identifier as it appears in application metadata.
    pub fn id(&self) -> (r: &'static str)
        ensures
            r@ == spec_category_id(*self),
    {
        match self {
            Self::AudioVideo => "AudioVideo",
            Self::Development => "Development",
            Self::Education => "Education",
            Self::Game => "Game",
            Self::Graphics => "Graphics",
            Self::Network => "Network",
            Self::Office => "Office",
            Self::Science => "Science",
            Self::Settings => "Settings",
            Self::System => "System",
            Self::Utility => "Utility",
            Self::CosmicApplet => "CosmicApplet",
        }
    }
}

} // verus!

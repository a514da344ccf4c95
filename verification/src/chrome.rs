//! What is shown around the projects.

use vstd::prelude::*;

verus! {

/// What the sidebar shows at its top. The layout of the window's buttons is a number among the
/// application's own layouts.
#[derive(Clone, Copy, Debug, PartialEq, Eq, Structural)]
pub struct SidebarChromeSettings {
    pub show_onboarding_banner: bool,
    pub show_user_picture: bool,
    pub show_sign_in: bool,
    pub show_user_menu: bool,
    pub show_menus: bool,
    pub button_layout: Option<u64>,
}

/// The part of the settings that is about the sidebar. The layout of the window's buttons is the
/// one that the setting stands for.
#[derive(Clone, Copy, Debug)]
pub struct SidebarContent {
    pub show_onboarding_banner: Option<bool>,
    pub show_user_picture: Option<bool>,
    pub show_sign_in: Option<bool>,
    pub show_user_menu: Option<bool>,
    pub show_menus: Option<bool>,
    pub button_layout: Option<u64>,
}

impl SidebarContent {
    /// Whether each switch is set.
    pub open spec fn is_complete(self) -> bool {
        &&& self.show_onboarding_banner is Some
        &&& self.show_user_picture is Some
        &&& self.show_sign_in is Some
        &&& self.show_user_menu is Some
        &&& self.show_menus is Some
    }
}

impl SidebarChromeSettings {
    /// The settings of the sidebar, all of which have to be there.
    pub fn from_settings(sidebar: Option<SidebarContent>) -> (settings: Self)
        requires
            sidebar matches Some(content) && content.is_complete(),
        ensures
            sidebar matches Some(content) && {
                &&& Some(settings.show_onboarding_banner) == content.show_onboarding_banner
                &&& Some(settings.show_user_picture) == content.show_user_picture
                &&& Some(settings.show_sign_in) == content.show_sign_in
                &&& Some(settings.show_user_menu) == content.show_user_menu
                &&& Some(settings.show_menus) == content.show_menus
                &&& settings.button_layout == content.button_layout
            },
    {
        let content = sidebar.unwrap();
        SidebarChromeSettings {
            show_onboarding_banner: content.show_onboarding_banner.unwrap(),
            show_user_picture: content.show_user_picture.unwrap(),
            show_sign_in: content.show_sign_in.unwrap(),
            show_user_menu: content.show_user_menu.unwrap(),
            show_menus: content.show_menus.unwrap(),
            button_layout: content.button_layout,
        }
    }
}

/// What is shown where a project has nothing to show: a message.
#[derive(Debug)]
pub struct ProjectEmptyState {
    pub message: String,
}

impl ProjectEmptyState {
    /// An empty state with a message.
    pub fn new(message: String) -> (state: Self)
        ensures
            state.message == message,
    {
        ProjectEmptyState { message }
    }

    /// The identity under which the empty state is shown.
    pub fn element_id(&self) -> (id: String)
        ensures
            id@ == "empty-state-"@ + self.message@,
    {
        crate::error::message_with("empty-state-", self.message.as_str())
    }
}

} // verus!

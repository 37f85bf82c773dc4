//! The start page.
use vstd::prelude::*;

use crate::workspace::ApplicationPage;

verus! {

/// The plugin that contributes the start page.
#[derive(Clone, Copy, Debug, PartialEq, Eq, Structural)]
pub struct HomePlugin;

impl HomePlugin {
    /// The start page: shown to everyone, in the workspace's own scene and outside every menu.
    pub fn pages(&self) -> (pages: Vec<ApplicationPage>)
        ensures
            pages@.len() == 1,
            pages@[0].id@ == "home"@,
            pages@[0].label@ == "首页"@,
            pages@[0].icon is Some,
            pages@[0].icon->0@ == "house"@,
            pages@[0].scene_id@ == "workspace"@,
            pages@[0].scene_label@ == "工作区"@,
            pages@[0].menu_path@.len() == 0,
            pages@[0].required_permission is None,
    {
        let mut pages: Vec<ApplicationPage> = Vec::new();
        pages.push(
            ApplicationPage {
                id: "home".to_owned(),
                label: "首页".to_owned(),
                icon: Some("house".to_owned()),
                scene_id: "workspace".to_owned(),
                scene_label: "工作区".to_owned(),
                menu_path: Vec::new(),
                required_permission: None,
            },
        );
        pages
    }
}

} // verus!

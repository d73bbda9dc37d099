//! What the settings window shows: the menu and the view chosen from it.
use vstd::prelude::*;

verus! {

/// The views the menu offers.
#[derive(Debug, Clone, Copy, PartialEq, Eq, Structural)]
pub enum MenuItem {
    Configuration,
    History,
}

/// What the window is told.
#[derive(Debug, Clone, Copy, PartialEq, Eq, Structural)]
pub enum AppMessage {
    /// A view was chosen from the menu.
    ViewSelected(MenuItem),
}

/// The view the window shows, if one was chosen.
#[derive(Debug)]
pub struct ViewState {
    pub view_selected: Option<MenuItem>,
}

impl ViewState {
    /// No view chosen yet.
    pub fn new() -> (r: ViewState)
        ensures
            r.view_selected is None,
    {
        ViewState { view_selected: None }
    }

    /// Takes a message: a chosen view becomes the one shown.
    pub fn update(&mut self, message: AppMessage)
        ensures
            match message {
                AppMessage::ViewSelected(item) => final(self).view_selected == Some(item),
            },
    {
        match message {
            AppMessage::ViewSelected(menu_item) => self.view_selected = Some(menu_item),
        }
    }
}

} // verus!

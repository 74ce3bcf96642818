//! Plain selection enums of the editor: the navigation-bar destinations,
//! the theme-builder panes, the status being edited, the colour field of a
//! status override and the window level offered in the window settings.

use vstd::prelude::*;

verus! {

/// Destination selected in the navigation bar.
#[derive(Debug, Clone, Copy, PartialEq, Eq, Structural)]
pub enum ViewSelection {
    Main,
    Actions,
    Code,
    ThemeBuilder,
    EnumBuilder,
    Settings,
}

impl Default for ViewSelection {
    fn default() -> (s: Self)
        ensures
            s == ViewSelection::Main,
    {
        ViewSelection::Main
    }
}

/// The widget family whose style the theme builder edits.
#[derive(Debug, Clone, Copy, PartialEq, Eq, PartialOrd, Ord, Structural)]
pub enum ThemePaneEnum {
    ExtendedPalette,
    Button,
    Checkbox,
    Combobox,
    Container,
    Menu,
    Panegrid,
    Picklist,
    Progressbar,
    QRCode,
    Radio,
    Rule,
    Slider,
    Table,
    TextEditor,
    TextInput,
    Toggler,
}

/// The text a pane is shown with: the variant's own name.
pub open spec fn pane_label(p: ThemePaneEnum) -> Seq<char> {
    match p {
        ThemePaneEnum::ExtendedPalette => "ExtendedPalette"@,
        ThemePaneEnum::Button => "Button"@,
        ThemePaneEnum::Checkbox => "Checkbox"@,
        ThemePaneEnum::Combobox => "Combobox"@,
        ThemePaneEnum::Container => "Container"@,
        ThemePaneEnum::Menu => "Menu"@,
        ThemePaneEnum::Panegrid => "Panegrid"@,
        ThemePaneEnum::Picklist => "Picklist"@,
        ThemePaneEnum::Progressbar => "Progressbar"@,
        ThemePaneEnum::QRCode => "QRCode"@,
        ThemePaneEnum::Radio => "Radio"@,
        ThemePaneEnum::Rule => "Rule"@,
        ThemePaneEnum::Slider => "Slider"@,
        ThemePaneEnum::Table => "Table"@,
        ThemePaneEnum::TextEditor => "TextEditor"@,
        ThemePaneEnum::TextInput => "TextInput"@,
        ThemePaneEnum::Toggler => "Toggler"@,
    }
}

impl ThemePaneEnum {
    /// The label of the pane, as the pane pickers display it.
    pub fn label(&self) -> (s: &'static str)
        ensures
            s@ == pane_label(*self),
    {
        match self {
            ThemePaneEnum::ExtendedPalette => "ExtendedPalette",
            ThemePaneEnum::Button => "Button",
            ThemePaneEnum::Checkbox => "Checkbox",
            ThemePaneEnum::Combobox => "Combobox",
            ThemePaneEnum::Container => "Container",
            ThemePaneEnum::Menu => "Menu",
            ThemePaneEnum::Panegrid => "Panegrid",
            ThemePaneEnum::Picklist => "Picklist",
            ThemePaneEnum::Progressbar => "Progressbar",
            ThemePaneEnum::QRCode => "QRCode",
            ThemePaneEnum::Radio => "Radio",
            ThemePaneEnum::Rule => "Rule",
            ThemePaneEnum::Slider => "Slider",
            ThemePaneEnum::Table => "Table",
            ThemePaneEnum::TextEditor => "TextEditor",
            ThemePaneEnum::TextInput => "TextInput",
            ThemePaneEnum::Toggler => "Toggler",
        }
    }
}

/// The interaction status whose colours the style editor is changing.
#[derive(Debug, Clone, Copy, PartialEq, Eq, Structural)]
pub enum EditingStatus {
    Active,
    Hovered,
    Pressed,
    Disabled,
    Focused,
}

impl Default for EditingStatus {
    fn default() -> (s: Self)
        ensures
            s == EditingStatus::Active,
    {
        EditingStatus::Active
    }
}

/// Which colour of a per-status override is being picked.
#[derive(Debug, Clone, Copy, PartialEq, Eq, Structural)]
pub enum StatusColorField {
    Text,
    Background,
    Border,
    Icon,
}

/// Stacking level of a window, as offered in the window settings.
#[derive(Debug, Clone, Copy, PartialEq, Eq, Structural)]
pub enum LevelChoice {
    Normal,
    AlwaysOnBottom,
    AlwaysOnTop,
}

/// The text a window level is shown with.
pub open spec fn level_label(l: LevelChoice) -> Seq<char> {
    match l {
        LevelChoice::Normal => "Normal"@,
        LevelChoice::AlwaysOnBottom => "Always on Bottom"@,
        LevelChoice::AlwaysOnTop => "Always on Top"@,
    }
}

impl LevelChoice {
    /// Every level, in the order the level picker lists them.
    pub fn all() -> (v: Vec<LevelChoice>)
        ensures
            v@ == seq![LevelChoice::Normal, LevelChoice::AlwaysOnBottom, LevelChoice::AlwaysOnTop],
    {
        vec![LevelChoice::Normal, LevelChoice::AlwaysOnBottom, LevelChoice::AlwaysOnTop]
    }

    /// The label of the level.
    pub fn label(&self) -> (s: &'static str)
        ensures
            s@ == level_label(*self),
    {
        match self {
            LevelChoice::Normal => "Normal",
            LevelChoice::AlwaysOnBottom => "Always on Bottom",
            LevelChoice::AlwaysOnTop => "Always on Top",
        }
    }
}

} // verus!

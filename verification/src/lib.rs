//! Verified core of a visual builder for iced user interfaces: the editor's
//! selection enums, the widget-tree rules, the naming rules used by code
//! generation, the authored-condition model of the action editor, and the
//! bookkeeping of views, flows and trigger rows.

pub mod panes;
pub mod widgets;
pub mod naming;
pub mod values;
pub mod conditions;
pub mod nodes;
pub mod ids;
pub mod add_views;
pub mod preview;
pub mod state_fields;
pub mod action_editor;
pub mod view_settings;
pub mod theme_expr;
pub mod code_files;
pub mod type_system;
pub mod type_editors;
pub mod preview_events;
pub mod type_panels;

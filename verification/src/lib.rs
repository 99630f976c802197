//! Widget logic of the nptk toolkit: checkbox, button and menu state, the
//! DBusMenu model behind the global menu, and the file list's selection and
//! MIME helpers.

use vstd::prelude::*;

pub mod textutil;
pub mod update;
pub mod widget_input;
pub mod checkbox;
pub mod dbus_menu;
pub mod menu_items;
pub mod snapshot;
pub mod bridge;
pub mod menubar;
pub mod global_menu;
pub mod selection;
pub mod item_view;
pub mod file_list;
pub mod label_breaks;
pub mod mime;
pub mod properties;
pub mod button;
pub mod radio_button;
pub mod gesture;
pub mod popup;
pub mod scroll;
pub mod platform;
pub mod composite;
pub mod remote_menu;

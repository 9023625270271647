//! The interaction core of a terminal calendar client: calendar arithmetic,
//! grid layouts, the event form, the detail-text navigator and the modal
//! session state machine.

pub mod date;
pub mod event;
pub mod key;
pub mod text;

pub mod navigation;
pub mod form;
pub mod command;
pub mod theme;
pub mod links;
pub mod html;
pub mod detail;

pub mod session;
pub mod normal_mode;
pub mod insert_mode;
pub mod visual_mode;
pub mod dispatch;

pub mod hours;
pub mod month_view;
pub mod week_view;
pub mod day_view;
pub mod year_view;

pub mod agenda;
pub mod sync_window;

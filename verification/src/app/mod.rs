//! The state of the client and what changes it.

pub mod accounts;
pub mod bootstrap;
pub mod calendar;
pub mod choice;
pub mod clock;
pub mod commands;
pub mod completion;
pub mod compose;
pub mod drafts;
pub mod edits;
pub mod emoji;
pub mod ephemeral;
pub mod history;
pub mod input;
pub mod inspect;
pub mod layout_cache;
pub mod lifecycle;
pub mod media;
pub mod outcome;
pub mod paging;
pub mod panels;
pub mod picture;
pub mod reactions;
pub mod read_markers;
pub mod refresh;
pub mod render;
pub mod room_list;
pub mod room_target;
pub mod rooms;
pub mod selection;
pub mod state;
pub mod status;
pub mod switching;
pub mod targets;
pub mod threads;
pub mod timeline;
pub mod upload;
pub mod verification;
pub mod verify;
pub mod words;

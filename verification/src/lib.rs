//! Verified decision logic of the ARO Android service host: the media store
//! and its query language, the calendar store, settings tables, intent
//! matching, notification shade bookkeeping and the small protocol tables
//! that the binder services answer from.
pub mod text;
pub mod userdirs;
pub mod select;
pub mod activity;
pub mod alarm;
pub mod calendar;
pub mod calendar_provider;
pub mod clipboard;
pub mod clock;
pub mod compat;
pub mod cursor;
pub mod display;
pub mod gralloc;
pub mod media;
pub mod package;
pub mod playback;
pub mod services;
pub mod session;
pub mod service_hosts;
pub mod settings;
pub mod shade;
pub mod surfaceflinger;
pub mod window;

//! Hierarchical menu-navigation engine.
//!
//! The crate models declarative menu templates, resolves them into concrete
//! screens against an enumeration source, drives a navigation stack of
//! realized screens, and maps interaction signals on buttons to navigation
//! transitions and domain signals.

pub mod dispatch;
pub mod menus;
pub mod resolve;
pub mod stack;
pub mod template;

//! Secret detection for source trees: named regular-expression rules with
//! severities, path and content ignore rules, file classification, and the
//! bookkeeping of a scan, with the behaviour of each piece stated as a
//! contract and proved.

pub mod text;
pub mod severity;
pub mod rules;
pub mod config;
pub mod regex;
pub mod resolver;
pub mod classify;
pub mod cancel;
pub mod events;
pub mod batch;
pub mod fileset;
pub mod scan;
pub mod scanner;
pub mod laws;
pub mod ui;
pub mod display;

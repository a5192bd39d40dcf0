//! Reading HTML: tag stripping, sections and tables of contents.
pub mod dom;
pub mod lean;
pub mod strip;

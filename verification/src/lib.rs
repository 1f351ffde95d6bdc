//! Course-catalog extraction and normalization.
//!
//! The crate walks semi-structured HTML markup from a university schedule
//! of classes, normalizes each course, section and class meeting into a
//! well-typed record, and reduces instructor records from a secondary
//! review-site API to the minimal fields retained downstream.

pub mod chars;
pub mod courses;
pub mod errors;
pub mod html;
pub mod instructors;
pub mod json;
pub mod meetings;
pub mod textparse;
pub mod term;
pub mod types;
pub mod walker;

//! Static asset deployment for layered, inheritance-aware themes.
//!
//! The library decides which directories contribute files to a theme's output,
//! in which priority order, which files are left out, and how the outcome of
//! each deployment job is reported. Reading and writing files is left to the
//! caller, which hands the library what it observed as plain values.

/// Character-level helpers on strings and paths.
pub mod text;

/// Theme, locale and area types and the theme inheritance rules.
pub mod theme;

/// Reading theme and module descriptors.
pub mod xml;

/// The XML reader that descriptors are read with.
pub mod xml_reader;

/// Error type of deployment operations.
pub mod error;

/// Which files a directory copy takes and how its results are counted.
pub mod copier;

/// Ordered discovery of the directories that contribute to a theme.
pub mod scanner;

/// Jobs, their progress and their aggregated results.
pub mod deployer;

/// Runtime configuration built from command-line values.
pub mod config;

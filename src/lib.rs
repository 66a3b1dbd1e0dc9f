//! Parsing, validation and writing of changelogs in the Keep a Changelog
//! format, with error-resilient parsing and positioned diagnostics.
mod collaborators;
mod text;
mod seqs;
mod ordered_maps;
pub mod grammar;
pub mod lexer;
pub mod tree;
pub mod events;
pub mod parser;
pub mod diagnostics;
pub mod changes;
pub mod release;
pub mod unreleased;
pub mod releases;
pub mod changelog;
pub mod assemble;
pub mod render;
pub mod outline;
pub mod laws;
pub mod build_model;
pub mod position;
pub mod change_group;
pub mod release_tag;
pub mod release_version;
pub mod release_date;
pub mod release_link;

pub use crate::change_group::{ChangeGroup, ParseChangeGroupError};
pub use crate::changelog::{Changelog, PromoteOptions, PromoteUnreleasedError};
pub use crate::changes::Changes;
pub use crate::diagnostics::{get_diagnostics, Diagnostic};
pub use crate::parser::parse;
pub use crate::position::{Point, Position};
pub use crate::release::Release;
pub use crate::release_date::{ParseReleaseDateError, ReleaseDate};
pub use crate::release_link::{ParseReleaseLinkError, ReleaseLink};
pub use crate::release_tag::{ParseReleaseTagError, ReleaseTag};
pub use crate::release_version::{ParseVersionError, ReleaseVersion};
pub use crate::releases::Releases;
pub use crate::unreleased::Unreleased;
pub use crate::outline::__printable_syntax_tree;

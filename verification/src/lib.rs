//! Lists what .NET projects depend on.
//!
//! A project file (`.csproj`, `.fsproj`, `.vbproj`) is parsed into a
//! [`Project`]: its name, language and path, the framework it targets, and its
//! references to other projects and to packages. The `search` module decides,
//! entry by entry, where a walk over a directory tree looks for such files.

pub mod parser;
pub mod path;
pub mod project;
pub mod proofs;
pub mod search;
pub mod text;
pub mod xml;

pub use project::{
    PackageReference, PackageReferenceView, Project, ProjectLanguage, ProjectReference,
    ProjectReferenceView, ProjectView, VALID_EXTENSIONS,
};

//! The record that describes one .NET project, and its parts.

use crate::parser::{is_parse_outcome, parse, ParseError};
use crate::path::{
    extension_of, file_stem, normalize_separators, stem_of, with_forward_slashes,
};
use crate::text::str_eq;
use vstd::prelude::*;

verus! {

/// The extensions of project files, without their dot.
pub const VALID_EXTENSIONS: [&'static str; 3] = ["csproj", "fsproj", "vbproj"];

/// The language of a project, which its file extension decides.
#[derive(Debug, Copy, Clone, PartialEq, Eq, Structural)]
pub enum ProjectLanguage {
    CSharp,
    FSharp,
    VB,
}

/// The language that belongs to a file extension, written without its dot.
pub open spec fn language_of_extension(extension: Seq<char>) -> Option<ProjectLanguage> {
    if extension == "csproj"@ {
        Some(ProjectLanguage::CSharp)
    } else if extension == "fsproj"@ {
        Some(ProjectLanguage::FSharp)
    } else if extension == "vbproj"@ {
        Some(ProjectLanguage::VB)
    } else {
        None
    }
}

/// Each of the three project extensions has its own language.
pub proof fn lemma_languages_of_extensions()
    ensures
        language_of_extension("csproj"@) == Some(ProjectLanguage::CSharp),
        language_of_extension("fsproj"@) == Some(ProjectLanguage::FSharp),
        language_of_extension("vbproj"@) == Some(ProjectLanguage::VB),
{
    reveal_strlit("csproj");
    reveal_strlit("fsproj");
    reveal_strlit("vbproj");
    assert("fsproj"@[0] != "csproj"@[0]);
    assert("vbproj"@[0] != "csproj"@[0]);
    assert("vbproj"@[0] != "fsproj"@[0]);
}

/// The language that the extension of a path stands for, if it stands for one.
pub open spec fn language_of_path(path: Seq<char>) -> Option<ProjectLanguage> {
    match extension_of(path) {
        Some(extension) => language_of_extension(extension),
        None => None,
    }
}

impl ProjectLanguage {
    /// Determines the language from a file extension, given without its dot
    /// (`csproj`, `fsproj` or `vbproj`).
    pub fn from_extension(extension: &str) -> (language: Option<Self>)
        ensures
            language == language_of_extension(extension@),
    {
        if str_eq(extension, "csproj") {
            Some(ProjectLanguage::CSharp)
        } else if str_eq(extension, "fsproj") {
            Some(ProjectLanguage::FSharp)
        } else if str_eq(extension, "vbproj") {
            Some(ProjectLanguage::VB)
        } else {
            None
        }
    }
}

/// What a `ProjectReference` holds.
#[verifier::ext_equal]
pub struct ProjectReferenceView {
    pub name: Seq<char>,
    pub path: Seq<char>,
}

/// A reference to another project, by the path written in the project file.
#[derive(Debug, Clone, PartialEq)]
pub struct ProjectReference {
    name: String,
    path: String,
}

impl View for ProjectReference {
    type V = ProjectReferenceView;

    closed spec fn view(&self) -> ProjectReferenceView {
        ProjectReferenceView { name: self.name@, path: self.path@ }
    }
}

/// The reference that a path stands for, as a project file writes it: the
/// path with every backslash replaced by a forward slash, and as name the stem
/// of the file name of that path. A path without file stem stands for none.
pub open spec fn reference_to(written: Seq<char>) -> Option<ProjectReferenceView> {
    let path = with_forward_slashes(written);
    match stem_of(path) {
        Some(name) => Some(ProjectReferenceView { name, path }),
        None => None,
    }
}

impl ProjectReference {
    /// Creates the reference that a path stands for, as a project file writes
    /// it. The path is not looked up in the file system.
    pub fn from_written(written: &str) -> (reference: Option<Self>)
        ensures
            match reference {
                Some(reference) => reference_to(written@) == Some(reference@),
                None => reference_to(written@) is None,
            },
    {
        let path = normalize_separators(written);
        match file_stem(path.as_str()) {
            Some(stem) => Some(ProjectReference { name: stem.to_owned(), path }),
            None => None,
        }
    }

    /// Creates a reference to the project called `name` at `path`.
    pub fn new(name: String, path: String) -> (reference: Self)
        ensures
            reference@ == (ProjectReferenceView { name: name@, path: path@ }),
    {
        ProjectReference { name, path }
    }

    /// The name of the referenced project.
    pub fn name(&self) -> (name: &String)
        ensures
            name@ == self@.name,
    {
        &self.name
    }

    /// The path of the referenced project file.
    pub fn path(&self) -> (path: &String)
        ensures
            path@ == self@.path,
    {
        &self.path
    }
}

impl Default for ProjectReference {
    fn default() -> (reference: Self)
        ensures
            reference@ == (ProjectReferenceView { name: Seq::empty(), path: Seq::empty() }),
    {
        ProjectReference { name: String::new(), path: String::new() }
    }
}

/// What a `PackageReference` holds.
#[verifier::ext_equal]
pub struct PackageReferenceView {
    pub name: Seq<char>,
    pub version: Seq<char>,
}

/// A reference to a package, by name and version.
#[derive(Debug, Clone, PartialEq)]
pub struct PackageReference {
    name: String,
    version: String,
}

impl View for PackageReference {
    type V = PackageReferenceView;

    closed spec fn view(&self) -> PackageReferenceView {
        PackageReferenceView { name: self.name@, version: self.version@ }
    }
}

impl PackageReference {
    /// Creates a reference to the package `name` at `version`.
    pub fn new(name: String, version: String) -> (reference: Self)
        ensures
            reference@ == (PackageReferenceView { name: name@, version: version@ }),
    {
        PackageReference { name, version }
    }

    /// The name of the package.
    pub fn name(&self) -> (name: &String)
        ensures
            name@ == self@.name,
    {
        &self.name
    }

    /// The version of the package.
    pub fn version(&self) -> (version: &String)
        ensures
            version@ == self@.version,
    {
        &self.version
    }
}

impl Default for PackageReference {
    fn default() -> (reference: Self)
        ensures
            reference@ == (PackageReferenceView { name: Seq::empty(), version: Seq::empty() }),
    {
        PackageReference { name: String::new(), version: String::new() }
    }
}

/// The views of a sequence of project references, in the same order.
pub open spec fn project_reference_views(references: Seq<ProjectReference>) -> Seq<
    ProjectReferenceView,
> {
    references.map_values(|reference: ProjectReference| reference@)
}

/// The views of a sequence of package references, in the same order.
pub open spec fn package_reference_views(references: Seq<PackageReference>) -> Seq<
    PackageReferenceView,
> {
    references.map_values(|reference: PackageReference| reference@)
}

/// The characters of an optional string.
pub open spec fn optional_text(text: Option<String>) -> Option<Seq<char>> {
    match text {
        Some(text) => Some(text@),
        None => None,
    }
}

/// What a `Project` holds.
#[verifier::ext_equal]
pub struct ProjectView {
    pub name: Seq<char>,
    pub language: ProjectLanguage,
    pub path: Seq<char>,
    pub target_framework: Option<Seq<char>>,
    pub project_references: Seq<ProjectReferenceView>,
    pub package_references: Seq<PackageReferenceView>,
}

impl ProjectView {
    /// A project without target framework and without references.
    pub open spec fn bare(name: Seq<char>, language: ProjectLanguage, path: Seq<char>) -> Self {
        ProjectView {
            name,
            language,
            path,
            target_framework: None,
            project_references: Seq::empty(),
            package_references: Seq::empty(),
        }
    }

    /// The record with its target framework replaced.
    pub open spec fn with_target_framework(self, target_framework: Option<Seq<char>>) -> Self {
        ProjectView { target_framework, ..self }
    }

    /// The record with one more project reference at the end.
    pub open spec fn with_project_reference(self, reference: ProjectReferenceView) -> Self {
        ProjectView { project_references: self.project_references.push(reference), ..self }
    }

    /// The record with one more package reference at the end.
    pub open spec fn with_package_reference(self, reference: PackageReferenceView) -> Self {
        ProjectView { package_references: self.package_references.push(reference), ..self }
    }

    /// Name and language are those that the path gives: the name is the stem
    /// of its file name, the language that of its extension.
    pub open spec fn well_formed(self) -> bool {
        &&& stem_of(self.path) == Some(self.name)
        &&& language_of_path(self.path) == Some(self.language)
    }
}

/// A .NET project: its name, language and path, the framework it targets, and
/// the projects and packages it refers to, in the order of the project file.
#[derive(Debug, Clone, PartialEq)]
pub struct Project {
    name: String,
    language: ProjectLanguage,
    path: String,
    target_framework: Option<String>,
    project_references: Vec<ProjectReference>,
    package_references: Vec<PackageReference>,
}

impl View for Project {
    type V = ProjectView;

    closed spec fn view(&self) -> ProjectView {
        ProjectView {
            name: self.name@,
            language: self.language,
            path: self.path@,
            target_framework: optional_text(self.target_framework),
            project_references: project_reference_views(self.project_references@),
            package_references: package_reference_views(self.package_references@),
        }
    }
}

impl Project {
    /// Parses the content of the project file at `path`.
    ///
    /// `is_dir` tells whether `path` denotes a directory. See `parse` for what
    /// is returned.
    pub fn new(content: &[u8], path: &str, is_dir: bool) -> (parsed: Result<Self, ParseError>)
        ensures
            is_parse_outcome(parsed, content@, path@, is_dir),
    {
        parse(content, path, is_dir)
    }

    /// Assembles a project from its parts, which are taken as they are: the
    /// project is `well_formed` only if the name and the language given are
    /// those of the path given.
    pub fn from_parts(
        name: String,
        language: ProjectLanguage,
        path: String,
        target_framework: Option<String>,
        project_references: Vec<ProjectReference>,
        package_references: Vec<PackageReference>,
    ) -> (project: Self)
        ensures
            project@ == (ProjectView {
                name: name@,
                language,
                path: path@,
                target_framework: optional_text(target_framework),
                project_references: project_reference_views(project_references@),
                package_references: package_reference_views(package_references@),
            }),
    {
        Project { name, language, path, target_framework, project_references, package_references }
    }

    /// The name that a project file at `path` gives its project: the stem of
    /// the file name.
    pub fn get_project_name(path: &str) -> (name: Option<String>)
        ensures
            optional_text(name) == stem_of(path@),
    {
        match file_stem(path) {
            Some(stem) => Some(stem.to_owned()),
            None => None,
        }
    }

    /// The name of the project.
    pub fn name(&self) -> (name: &String)
        ensures
            name@ == self@.name,
    {
        &self.name
    }

    /// The language of the project.
    pub fn language(&self) -> (language: ProjectLanguage)
        ensures
            language == self@.language,
    {
        self.language
    }

    /// The path of the project file.
    pub fn path(&self) -> (path: &String)
        ensures
            path@ == self@.path,
    {
        &self.path
    }

    /// The target framework of the project, if the project file names one.
    pub fn target_framework(&self) -> (target_framework: Option<&String>)
        ensures
            match target_framework {
                Some(text) => self@.target_framework == Some(text@),
                None => self@.target_framework is None,
            },
    {
        self.target_framework.as_ref()
    }

    /// The project references, in the order of the project file.
    pub fn project_references(&self) -> (references: &Vec<ProjectReference>)
        ensures
            project_reference_views(references@) == self@.project_references,
    {
        &self.project_references
    }

    /// Appends a project reference. Nothing else changes.
    pub fn add_project_reference(&mut self, value: ProjectReference)
        ensures
            final(self)@ == old(self)@.with_project_reference(value@),
            final(self)@.well_formed() == old(self)@.well_formed(),
    {
        self.project_references.push(value);
    }

    /// The package references, in the order of the project file.
    pub fn package_references(&self) -> (references: &Vec<PackageReference>)
        ensures
            package_reference_views(references@) == self@.package_references,
    {
        &self.package_references
    }

    /// Appends a package reference. Nothing else changes.
    pub fn add_package_reference(&mut self, value: PackageReference)
        ensures
            final(self)@ == old(self)@.with_package_reference(value@),
            final(self)@.well_formed() == old(self)@.well_formed(),
    {
        self.package_references.push(value);
    }

    /// Records the target framework. Nothing else changes.
    pub(crate) fn set_target_framework(&mut self, target_framework: Option<String>)
        ensures
            final(self)@ == old(self)@.with_target_framework(optional_text(target_framework)),
            final(self)@.well_formed() == old(self)@.well_formed(),
    {
        self.target_framework = target_framework;
    }
}

} // verus!

//! Reading a project file into a `Project`.
//!
//! The steps of `parse`, in order: a path that denotes a directory is refused;
//! the extension of the path decides the language, and a path without a known
//! extension is refused; the stem of the file name becomes the project name;
//! the content is read as XML; the children of the root element are walked in
//! document order. A `PropertyGroup` gives the target framework unless one is
//! recorded already. An `ItemGroup` gives one reference for each
//! `ProjectReference` and each `PackageReference` among its children. Every
//! other element is passed over.

use crate::path::stem_of;
use crate::project::{
    language_of_path, reference_to, PackageReference, PackageReferenceView, Project,
    ProjectLanguage, ProjectReference, ProjectView,
};
use crate::proofs::lemma_parsed_project;
use crate::text::str_eq;
use crate::xml::{
    child_elements, document_root, element_attribute, element_children, element_text,
    first_unqualified, local_name, local_part, optional_child_text, parsed_document,
    read_document, required_attribute, root_of,
};
use spex::common::XmlError;
use spex::xml::{Element, XmlDocument};
use vstd::prelude::*;
use vstd::std_specs::convert::FromSpecImpl;

verus! {

/// The kinds of failure that parsing reports.
#[derive(Debug, Clone, Copy, PartialEq, Eq, Structural)]
pub enum ParseErrorKind {
    /// A required attribute is missing, or an element that should hold text
    /// holds something else.
    Deserialization,
    /// The content could not be read as XML.
    Io,
    /// The path denotes a directory.
    PathIsNotAFile,
    /// The extension of the path is none of `csproj`, `fsproj`, `vbproj`.
    FileIsNotAProject,
    /// A path has no file stem.
    FileDoesNotHaveAName,
}

/// A failure of parsing.
#[derive(Debug)]
pub enum ParseError {
    /// A required attribute is missing, or an element that should hold text
    /// holds something else.
    DeserializationError,
    /// The content could not be read, or is not well-formed XML.
    IoError(std::io::Error),
    /// The path denotes a directory.
    PathIsNotAFile,
    /// The file is not a project file (`.csproj`, `.fsproj`, `.vbproj`).
    FileIsNotAProject,
    /// The file has no name.
    FileDoesNotHaveAName,
}

/// The message that goes with a kind of failure.
pub open spec fn message_of(kind: ParseErrorKind) -> Seq<char> {
    match kind {
        ParseErrorKind::Deserialization => "there was an error while deserializing the file"@,
        ParseErrorKind::Io => "there was an error while reading the file"@,
        ParseErrorKind::PathIsNotAFile => "the path is a directory"@,
        ParseErrorKind::FileIsNotAProject
            => "the file is not a project (.csproj, .fsproj, .vbproj)"@,
        ParseErrorKind::FileDoesNotHaveAName => "the file does not have a name"@,
    }
}

impl ParseError {
    /// The kind of this failure.
    pub open spec fn kind_of(self) -> ParseErrorKind {
        match self {
            ParseError::DeserializationError => ParseErrorKind::Deserialization,
            ParseError::IoError(_) => ParseErrorKind::Io,
            ParseError::PathIsNotAFile => ParseErrorKind::PathIsNotAFile,
            ParseError::FileIsNotAProject => ParseErrorKind::FileIsNotAProject,
            ParseError::FileDoesNotHaveAName => ParseErrorKind::FileDoesNotHaveAName,
        }
    }

    /// The kind of this failure.
    pub fn kind(&self) -> (kind: ParseErrorKind)
        ensures
            kind == self.kind_of(),
    {
        match self {
            ParseError::DeserializationError => ParseErrorKind::Deserialization,
            ParseError::IoError(_) => ParseErrorKind::Io,
            ParseError::PathIsNotAFile => ParseErrorKind::PathIsNotAFile,
            ParseError::FileIsNotAProject => ParseErrorKind::FileIsNotAProject,
            ParseError::FileDoesNotHaveAName => ParseErrorKind::FileDoesNotHaveAName,
        }
    }

    /// A sentence that describes this failure.
    pub fn message(&self) -> (message: &'static str)
        ensures
            message@ == message_of(self.kind_of()),
    {
        match self {
            ParseError::DeserializationError => "there was an error while deserializing the file",
            ParseError::IoError(_) => "there was an error while reading the file",
            ParseError::PathIsNotAFile => "the path is a directory",
            ParseError::FileIsNotAProject
                => "the file is not a project (.csproj, .fsproj, .vbproj)",
            ParseError::FileDoesNotHaveAName => "the file does not have a name",
        }
    }
}

impl From<std::io::Error> for ParseError {
    /// A failure to read becomes an `IoError` that carries it.
    fn from(error: std::io::Error) -> (converted: Self) {
        ParseError::IoError(error)
    }
}

impl FromSpecImpl<std::io::Error> for ParseError {
    open spec fn obeys_from_spec() -> bool {
        true
    }

    open spec fn from_spec(error: std::io::Error) -> Self {
        ParseError::IoError(error)
    }
}

impl From<XmlError> for ParseError {
    /// Whatever the element tree reports becomes a `DeserializationError`: which
    /// attribute or element it was about is not kept.
    fn from(_error: XmlError) -> (converted: Self) {
        ParseError::DeserializationError
    }
}

impl FromSpecImpl<XmlError> for ParseError {
    open spec fn obeys_from_spec() -> bool {
        true
    }

    open spec fn from_spec(_error: XmlError) -> Self {
        ParseError::DeserializationError
    }
}

/// Where a walk over elements stands: the project as filled so far, and the
/// failure that stopped the walk, if one did.
#[verifier::ext_equal]
pub struct Walk {
    pub project: ProjectView,
    pub failure: Option<ParseErrorKind>,
}

impl Walk {
    /// A walk that goes on with `project`.
    pub open spec fn passed(project: ProjectView) -> Walk {
        Walk { project, failure: None }
    }

    /// A walk that stopped at `project` with a failure of this kind.
    pub open spec fn failed(project: ProjectView, kind: ParseErrorKind) -> Walk {
        Walk { project, failure: Some(kind) }
    }
}

/// What a `ProjectReference` element does to a project.
///
/// Its `Include` attribute is the path of the referenced project, stored with
/// forward slashes; the stem of that path is the name of the reference.
pub open spec fn project_reference_step(project: ProjectView, item: Element) -> Walk {
    match element_attribute(item, "Include"@) {
        None => Walk::failed(project, ParseErrorKind::Deserialization),
        Some(written) => match reference_to(written) {
            None => Walk::failed(project, ParseErrorKind::FileDoesNotHaveAName),
            Some(reference) => Walk::passed(project.with_project_reference(reference)),
        },
    }
}

/// What a `PackageReference` element does to a project.
///
/// Its attributes `Include` and `Version` are the name and the version of the
/// package, both taken as written.
pub open spec fn package_reference_step(project: ProjectView, item: Element) -> Walk {
    match (element_attribute(item, "Include"@), element_attribute(item, "Version"@)) {
        (Some(name), Some(version)) => Walk::passed(
            project.with_package_reference(PackageReferenceView { name, version }),
        ),
        _ => Walk::failed(project, ParseErrorKind::Deserialization),
    }
}

/// What one child of an `ItemGroup` does to a project.
pub open spec fn item_step(project: ProjectView, item: Element) -> Walk {
    if local_part(item) == "ProjectReference"@ {
        project_reference_step(project, item)
    } else if local_part(item) == "PackageReference"@ {
        package_reference_step(project, item)
    } else {
        Walk::passed(project)
    }
}

/// What the children of an `ItemGroup` do to a project, taken in order up to
/// the first that fails.
pub open spec fn items_walk(project: ProjectView, items: Seq<Element>) -> Walk
    decreases items.len(),
{
    if items.len() == 0 {
        Walk::passed(project)
    } else {
        let before = items_walk(project, items.drop_last());
        if before.failure is Some {
            before
        } else {
            item_step(before.project, items.last())
        }
    }
}

/// What a `PropertyGroup` does to a project.
///
/// A project that has a target framework keeps it. Otherwise the text of the
/// first `TargetFramework` child, if there is such a child, becomes the target
/// framework.
pub open spec fn property_group_step(project: ProjectView, group: Element) -> Walk {
    if project.target_framework is Some {
        Walk::passed(project)
    } else {
        match first_unqualified(element_children(group), "TargetFramework"@) {
            None => Walk::passed(project),
            Some(child) => match element_text(child) {
                Some(text) => Walk::passed(project.with_target_framework(Some(text))),
                None => Walk::failed(project, ParseErrorKind::Deserialization),
            },
        }
    }
}

/// What one child of the root element does to a project.
pub open spec fn group_step(project: ProjectView, group: Element) -> Walk {
    if local_part(group) == "PropertyGroup"@ {
        property_group_step(project, group)
    } else if local_part(group) == "ItemGroup"@ {
        items_walk(project, element_children(group))
    } else {
        Walk::passed(project)
    }
}

/// What the children of the root element do to a project, taken in order up
/// to the first that fails.
pub open spec fn groups_walk(project: ProjectView, groups: Seq<Element>) -> Walk
    decreases groups.len(),
{
    if groups.len() == 0 {
        Walk::passed(project)
    } else {
        let before = groups_walk(project, groups.drop_last());
        if before.failure is Some {
            before
        } else {
            group_step(before.project, groups.last())
        }
    }
}

/// What a document does to a project.
pub open spec fn document_walk(project: ProjectView, document: XmlDocument) -> Walk {
    groups_walk(project, element_children(document_root(document)))
}

/// The result of a function that fills a project agrees with a walk: the
/// project ends as the walk does, and the function fails exactly where the
/// walk does, with a failure of that kind.
pub open spec fn is_walk_outcome(outcome: Result<(), ParseError>, project: ProjectView, walk: Walk)
    -> bool {
    &&& project == walk.project
    &&& match walk.failure {
        None => outcome is Ok,
        Some(kind) => outcome matches Err(error) && error.kind_of() == kind,
    }
}

/// What the path alone decides: the kind of failure for a directory, for a
/// path without a known extension, and for a path without a file stem, in this
/// order; otherwise the project to start from, which has the name and the
/// language that the path gives and holds nothing else yet.
pub open spec fn path_outcome(path: Seq<char>, is_dir: bool) -> Result<
    ProjectView,
    ParseErrorKind,
> {
    if is_dir {
        Err(ParseErrorKind::PathIsNotAFile)
    } else {
        match (language_of_path(path), stem_of(path)) {
            (None, _) => Err(ParseErrorKind::FileIsNotAProject),
            (Some(_), None) => Err(ParseErrorKind::FileDoesNotHaveAName),
            (Some(language), Some(name)) => Ok(ProjectView::bare(name, language, path)),
        }
    }
}

/// What the content of a project file does to a project, given the document
/// that was read from it (`None` where reading failed).
pub open spec fn content_walk(project: ProjectView, document: Option<XmlDocument>) -> Walk {
    match document {
        None => Walk::failed(project, ParseErrorKind::Io),
        Some(document) => document_walk(project, document),
    }
}

/// What parsing gives for a path and, once the path is accepted, for the
/// document that was read from the content (`None` where reading failed).
pub open spec fn parse_outcome(path: Seq<char>, is_dir: bool, document: Option<XmlDocument>)
    -> Result<ProjectView, ParseErrorKind> {
    match path_outcome(path, is_dir) {
        Err(kind) => Err(kind),
        Ok(start) => {
            let walk = content_walk(start, document);
            match walk.failure {
                Some(kind) => Err(kind),
                None => Ok(walk.project),
            }
        },
    }
}

/// `parsed` is a failure of this kind.
pub open spec fn fails_with(parsed: Result<Project, ParseError>, kind: ParseErrorKind) -> bool {
    parsed matches Err(error) && error.kind_of() == kind
}

/// `parsed` is what parsing `content` as the file at `path` gives.
pub open spec fn is_parse_outcome(
    parsed: Result<Project, ParseError>,
    content: Seq<u8>,
    path: Seq<char>,
    is_dir: bool,
) -> bool {
    match parse_outcome(path, is_dir, parsed_document(content)) {
        Ok(expected) => parsed matches Ok(project) && project@ == expected,
        Err(kind) => fails_with(parsed, kind),
    }
}

/// Once a walk over items has failed, more items change nothing.
pub proof fn lemma_items_walk_stops(project: ProjectView, items: Seq<Element>, n: int)
    requires
        0 <= n <= items.len(),
        items_walk(project, items.take(n)).failure is Some,
    ensures
        items_walk(project, items) == items_walk(project, items.take(n)),
    decreases items.len(),
{
    if n < items.len() {
        assert(items.drop_last().take(n) =~= items.take(n));
        lemma_items_walk_stops(project, items.drop_last(), n);
    } else {
        assert(items.take(n) =~= items);
    }
}

/// Once a walk over groups has failed, more groups change nothing.
pub proof fn lemma_groups_walk_stops(project: ProjectView, groups: Seq<Element>, n: int)
    requires
        0 <= n <= groups.len(),
        groups_walk(project, groups.take(n)).failure is Some,
    ensures
        groups_walk(project, groups) == groups_walk(project, groups.take(n)),
    decreases groups.len(),
{
    if n < groups.len() {
        assert(groups.drop_last().take(n) =~= groups.take(n));
        lemma_groups_walk_stops(project, groups.drop_last(), n);
    } else {
        assert(groups.take(n) =~= groups);
    }
}

/// Records the target framework that a `PropertyGroup` element names, unless
/// the project has one already.
pub fn handle_property_group(project: &mut Project, element: &Element) -> (outcome: Result<
    (),
    ParseError,
>)
    ensures
        is_walk_outcome(outcome, final(project)@, property_group_step(old(project)@, *element)),
{
    if project.target_framework().is_some() {
        return Ok(());
    }
    match optional_child_text(element, "TargetFramework") {
        Err(error) => Err(ParseError::from(error)),
        Ok(None) => Ok(()),
        Ok(Some(text)) => {
            project.set_target_framework(Some(text.to_owned()));
            Ok(())
        },
    }
}

/// Appends the reference that a `ProjectReference` element stands for.
fn take_project_reference(project: &mut Project, item: &Element) -> (outcome: Result<
    (),
    ParseError,
>)
    ensures
        is_walk_outcome(outcome, final(project)@, project_reference_step(old(project)@, *item)),
{
    let written = match required_attribute(item, "Include") {
        Ok(written) => written,
        Err(_) => {
            return Err(ParseError::DeserializationError);
        },
    };
    match ProjectReference::from_written(written) {
        Some(reference) => {
            project.add_project_reference(reference);
            Ok(())
        },
        None => Err(ParseError::FileDoesNotHaveAName),
    }
}

/// Appends the reference that a `PackageReference` element stands for.
fn take_package_reference(project: &mut Project, item: &Element) -> (outcome: Result<
    (),
    ParseError,
>)
    ensures
        is_walk_outcome(outcome, final(project)@, package_reference_step(old(project)@, *item)),
{
    let name = match required_attribute(item, "Include") {
        Ok(name) => name.to_owned(),
        Err(_) => {
            return Err(ParseError::DeserializationError);
        },
    };
    let version = match required_attribute(item, "Version") {
        Ok(version) => version.to_owned(),
        Err(_) => {
            return Err(ParseError::DeserializationError);
        },
    };
    project.add_package_reference(PackageReference::new(name, version));
    Ok(())
}

/// Appends the references that the children of an `ItemGroup` element give.
///
/// The children are taken in document order. The first that fails ends the
/// walk: the references before it stay appended, those after it are not looked
/// at.
pub fn handle_item_group(project: &mut Project, element: &Element) -> (outcome: Result<
    (),
    ParseError,
>)
    ensures
        is_walk_outcome(
            outcome,
            final(project)@,
            items_walk(old(project)@, element_children(*element)),
        ),
{
    let items = child_elements(element);
    let ghost all = element_children(*element);
    let ghost start = project@;
    let mut i: usize = 0;
    while i < items.len()
        invariant
            i <= items@.len(),
            start == old(project)@,
            all == element_children(*element),
            items@.len() == all.len(),
            forall|k: int| 0 <= k < items@.len() ==> *items@[k] == #[trigger] all[k],
            items_walk(start, all.take(i as int)) == Walk::passed(project@),
        decreases items@.len() - i,
    {
        let item = items[i];
        let name = local_name(item);
        proof {
            assert(all.take(i + 1).drop_last() =~= all.take(i as int));
        }
        let step = if str_eq(name, "ProjectReference") {
            take_project_reference(project, item)
        } else if str_eq(name, "PackageReference") {
            take_package_reference(project, item)
        } else {
            Ok(())
        };
        match step {
            Err(error) => {
                proof {
                    lemma_items_walk_stops(start, all, i + 1);
                }
                return Err(error);
            },
            Ok(_) => {},
        }
        i = i + 1;
    }
    proof {
        assert(all.take(i as int) =~= all);
    }
    Ok(())
}

/// Fills a project from the children of the root element of a document.
///
/// The children are taken in document order. The first that fails ends the
/// walk: what was filled in before it stays, the children after it are not
/// looked at.
pub fn fill_project_based_on_xml(project: &mut Project, document: XmlDocument) -> (outcome: Result<
    (),
    ParseError,
>)
    ensures
        is_walk_outcome(outcome, final(project)@, document_walk(old(project)@, document)),
{
    let groups = child_elements(root_of(&document));
    let ghost all = element_children(document_root(document));
    let ghost start = project@;
    let mut i: usize = 0;
    while i < groups.len()
        invariant
            i <= groups@.len(),
            start == old(project)@,
            all == element_children(document_root(document)),
            groups@.len() == all.len(),
            forall|k: int| 0 <= k < groups@.len() ==> *groups@[k] == #[trigger] all[k],
            groups_walk(start, all.take(i as int)) == Walk::passed(project@),
        decreases groups@.len() - i,
    {
        let group = groups[i];
        let name = local_name(group);
        proof {
            assert(all.take(i + 1).drop_last() =~= all.take(i as int));
        }
        let step = if str_eq(name, "PropertyGroup") {
            handle_property_group(project, group)
        } else if str_eq(name, "ItemGroup") {
            handle_item_group(project, group)
        } else {
            Ok(())
        };
        match step {
            Err(error) => {
                proof {
                    lemma_groups_walk_stops(start, all, i + 1);
                }
                return Err(error);
            },
            Ok(_) => {},
        }
        i = i + 1;
    }
    proof {
        assert(all.take(i as int) =~= all);
    }
    Ok(())
}

/// Looks at the path of a project file, before anything is read.
///
/// `is_dir` tells whether `path` denotes a directory. The result is the
/// project to fill from the content of the file, or the failure that the path
/// alone gives.
pub fn start_project(path: &str, is_dir: bool) -> (started: Result<Project, ParseError>)
    ensures
        match path_outcome(path@, is_dir) {
            Ok(expected) => started matches Ok(project) && project@ == expected,
            Err(kind) => fails_with(started, kind),
        },
{
    if is_dir {
        return Err(ParseError::PathIsNotAFile);
    }
    let language = match crate::path::extension(path) {
        Some(extension) => ProjectLanguage::from_extension(extension),
        None => None,
    };
    let language = match language {
        Some(language) => language,
        None => {
            return Err(ParseError::FileIsNotAProject);
        },
    };
    let name = match Project::get_project_name(path) {
        Some(name) => name,
        None => {
            return Err(ParseError::FileDoesNotHaveAName);
        },
    };
    let project = Project::from_parts(
        name,
        language,
        path.to_owned(),
        None,
        Vec::new(),
        Vec::new(),
    );
    Ok(project)
}

/// Reads `content` as XML and fills a project from the document.
///
/// Content that cannot be read as XML leaves the project as it is.
pub fn fill_project_from_content(project: &mut Project, content: &[u8]) -> (outcome: Result<
    (),
    ParseError,
>)
    ensures
        is_walk_outcome(
            outcome,
            final(project)@,
            content_walk(old(project)@, parsed_document(content@)),
        ),
{
    match read_document(content) {
        Ok(document) => fill_project_based_on_xml(project, document),
        Err(error) => Err(ParseError::from(error)),
    }
}

/// Parses the content of a project file.
///
/// `path` is the path of the file and `is_dir` tells whether that path denotes
/// a directory. The result is the project that `parse_outcome` describes for
/// the path and the document read from `content`, or a failure of the kind
/// that it names. In particular a directory is refused whatever else holds, a
/// file without a known extension is refused whatever its content, and a
/// project that is returned has the name and the language that its path gives.
pub fn parse(content: &[u8], path: &str, is_dir: bool) -> (parsed: Result<Project, ParseError>)
    ensures
        is_parse_outcome(parsed, content@, path@, is_dir),
        is_dir ==> fails_with(parsed, ParseErrorKind::PathIsNotAFile),
        !is_dir && language_of_path(path@) is None ==> fails_with(
            parsed,
            ParseErrorKind::FileIsNotAProject,
        ),
        parsed matches Ok(project) ==> project@.path == path@ && project@.well_formed(),
{
    let mut project = match start_project(path, is_dir) {
        Ok(project) => project,
        Err(error) => {
            return Err(error);
        },
    };
    match fill_project_from_content(&mut project, content) {
        Ok(_) => {
            proof {
                lemma_parsed_project(path@, is_dir, parsed_document(content@).unwrap());
            }
            Ok(project)
        },
        Err(error) => Err(error),
    }
}

} // verus!

//! What holds of parsing, proved from its definitions.

use crate::parser::{
    groups_walk, is_parse_outcome, item_step, items_walk, lemma_items_walk_stops, parse_outcome,
    path_outcome, ParseError, ParseErrorKind,
};
use crate::path::{stem_of, with_forward_slashes};
use crate::project::{
    language_of_path, reference_to, PackageReferenceView, Project, ProjectReferenceView,
    ProjectView,
};
use crate::xml::{
    document_root, element_attribute, element_children, element_text, first_unqualified,
    local_part,
};
use spex::xml::{Element, XmlDocument};
use vstd::prelude::*;

verus! {

/// Two records are of the same project file: name, language and path agree.
pub open spec fn same_file(a: ProjectView, b: ProjectView) -> bool {
    a.name == b.name && a.language == b.language && a.path == b.path
}

/// The element is a `ProjectReference`.
pub open spec fn is_project_reference(item: Element) -> bool {
    local_part(item) == "ProjectReference"@
}

/// The element is a `PackageReference`.
pub open spec fn is_package_reference(item: Element) -> bool {
    local_part(item) == "PackageReference"@
}

/// The element is an `ItemGroup`.
pub open spec fn is_item_group(group: Element) -> bool {
    local_part(group) == "ItemGroup"@
}

/// The element is a `PropertyGroup` with a `TargetFramework` child.
pub open spec fn names_target_framework(group: Element) -> bool {
    &&& local_part(group) == "PropertyGroup"@
    &&& first_unqualified(element_children(group), "TargetFramework"@) is Some
}

/// The reference that a `ProjectReference` element with an `Include`
/// attribute stands for.
pub open spec fn project_reference_of(item: Element) -> ProjectReferenceView {
    reference_to(element_attribute(item, "Include"@).unwrap()).unwrap()
}

/// The reference that a `PackageReference` element with both attributes
/// stands for.
pub open spec fn package_reference_of(item: Element) -> PackageReferenceView {
    PackageReferenceView {
        name: element_attribute(item, "Include"@).unwrap(),
        version: element_attribute(item, "Version"@).unwrap(),
    }
}

/// The children of the `ItemGroup` elements among `groups`, in document order.
pub open spec fn items_of(groups: Seq<Element>) -> Seq<Element> {
    groups.filter(|group: Element| is_item_group(group)).map_values(
        |group: Element| element_children(group),
    ).flatten()
}

/// The project references that `items` stand for, in their order.
pub open spec fn project_references_of(items: Seq<Element>) -> Seq<ProjectReferenceView> {
    items.filter(|item: Element| is_project_reference(item)).map_values(
        |item: Element| project_reference_of(item),
    )
}

/// The package references that `items` stand for, in their order.
pub open spec fn package_references_of(items: Seq<Element>) -> Seq<PackageReferenceView> {
    items.filter(|item: Element| is_package_reference(item)).map_values(
        |item: Element| package_reference_of(item),
    )
}

/// The four element names that parsing looks for are pairwise different where
/// it matters: no element is both kinds of reference, nor both kinds of group.
pub proof fn lemma_tags_differ()
    ensures
        "ProjectReference"@ != "PackageReference"@,
        "PropertyGroup"@ != "ItemGroup"@,
{
    reveal_strlit("ProjectReference");
    reveal_strlit("PackageReference");
    reveal_strlit("PropertyGroup");
    reveal_strlit("ItemGroup");
    assert("ProjectReference"@[1] != "PackageReference"@[1]);
    assert("PropertyGroup"@.len() != "ItemGroup"@.len());
}

/// One item leaves name, language, path and target framework alone, and
/// appends at most the one reference that it stands for.
pub proof fn lemma_item_step_appends(project: ProjectView, item: Element)
    requires
        item_step(project, item).failure is None,
    ensures
        same_file(item_step(project, item).project, project),
        item_step(project, item).project.target_framework == project.target_framework,
        item_step(project, item).project.project_references == project.project_references
            + project_references_of(seq![item]),
        item_step(project, item).project.package_references == project.package_references
            + package_references_of(seq![item]),
{
    lemma_tags_differ();
    reveal_with_fuel(Seq::filter, 2);
    assert(seq![item].drop_last() =~= Seq::<Element>::empty());
}

/// A project reference is stored normalized: where a `ProjectReference`
/// element is taken in, the reference appended has the path that its `Include`
/// attribute holds with every backslash replaced by a forward slash, so a path
/// without backslash, and has the stem of that path as its name.
pub proof fn lemma_project_reference_is_normalized(project: ProjectView, item: Element)
    requires
        is_project_reference(item),
        item_step(project, item).failure is None,
    ensures
        element_attribute(item, "Include"@) is Some,
        item_step(project, item).project.project_references
            == project.project_references.push(project_reference_of(item)),
        project_reference_of(item).path == with_forward_slashes(
            element_attribute(item, "Include"@).unwrap(),
        ),
        !project_reference_of(item).path.contains('\\'),
        stem_of(project_reference_of(item).path) == Some(project_reference_of(item).name),
{
}

/// A reference without a required attribute fails the walk: a
/// `ProjectReference` without `Include`, or a `PackageReference` without
/// `Include` or without `Version`, among the items lets no walk over them
/// succeed; where nothing before it fails, the failure is a
/// `DeserializationError`.
pub proof fn lemma_missing_attribute_fails(project: ProjectView, items: Seq<Element>, at: int)
    requires
        0 <= at < items.len(),
        is_project_reference(items[at]) && element_attribute(items[at], "Include"@) is None
            || is_package_reference(items[at]) && (element_attribute(items[at], "Include"@)
            is None || element_attribute(items[at], "Version"@) is None),
    ensures
        items_walk(project, items).failure is Some,
        items_walk(project, items.take(at)).failure is None ==> items_walk(
            project,
            items,
        ).failure == Some(ParseErrorKind::Deserialization),
{
    lemma_tags_differ();
    let upto = items.take(at + 1);
    assert(upto.drop_last() =~= items.take(at));
    lemma_items_walk_stops(project, items, at + 1);
}

/// Order is kept within an item group: a walk that succeeds appends to each
/// list the references that the items stand for, in document order, none left
/// out and none twice, and changes nothing else.
pub proof fn lemma_items_walk_appends_in_order(project: ProjectView, items: Seq<Element>)
    requires
        items_walk(project, items).failure is None,
    ensures
        same_file(items_walk(project, items).project, project),
        items_walk(project, items).project.target_framework == project.target_framework,
        items_walk(project, items).project.project_references == project.project_references
            + project_references_of(items),
        items_walk(project, items).project.package_references == project.package_references
            + package_references_of(items),
    decreases items.len(),
{
    if items.len() > 0 {
        let before = items_walk(project, items.drop_last());
        lemma_items_walk_appends_in_order(project, items.drop_last());
        lemma_item_step_appends(before.project, items.last());
        assert(items =~= items.drop_last() + seq![items.last()]);
    }
}

/// `items_of` takes the groups one after the other.
pub proof fn lemma_items_of_push(groups: Seq<Element>, group: Element)
    ensures
        items_of(groups.push(group)) == if is_item_group(group) {
            items_of(groups) + element_children(group)
        } else {
            items_of(groups)
        },
{
    let keep = |group: Element| is_item_group(group);
    let children = |group: Element| element_children(group);
    Seq::lemma_filter_push(groups, group, keep);
    if is_item_group(group) {
        let kept = groups.filter(keep);
        assert(kept.push(group).map_values(children) =~= kept.map_values(children).push(
            element_children(group),
        ));
        kept.map_values(children).lemma_flatten_push(element_children(group));
    }
}

/// Order is kept over the whole document: a walk that succeeds appends to each
/// list the references that the children of the item groups stand for, in
/// document order, none left out and none twice, and keeps name, language and
/// path.
pub proof fn lemma_groups_walk_appends_in_order(project: ProjectView, groups: Seq<Element>)
    requires
        groups_walk(project, groups).failure is None,
    ensures
        same_file(groups_walk(project, groups).project, project),
        groups_walk(project, groups).project.project_references == project.project_references
            + project_references_of(items_of(groups)),
        groups_walk(project, groups).project.package_references == project.package_references
            + package_references_of(items_of(groups)),
    decreases groups.len(),
{
    lemma_tags_differ();
    if groups.len() > 0 {
        let head = groups.drop_last();
        let group = groups.last();
        let before = groups_walk(project, head).project;
        lemma_groups_walk_appends_in_order(project, head);
        assert(groups =~= head.push(group));
        lemma_items_of_push(head, group);
        if is_item_group(group) {
            lemma_items_walk_appends_in_order(before, element_children(group));
        }
    }
}

/// A target framework, once recorded, is kept by every later group.
pub proof fn lemma_target_framework_is_kept(project: ProjectView, groups: Seq<Element>)
    requires
        project.target_framework is Some,
        groups_walk(project, groups).failure is None,
    ensures
        groups_walk(project, groups).project.target_framework == project.target_framework,
    decreases groups.len(),
{
    lemma_tags_differ();
    if groups.len() > 0 {
        let before = groups_walk(project, groups.drop_last()).project;
        lemma_target_framework_is_kept(project, groups.drop_last());
        if is_item_group(groups.last()) {
            lemma_items_walk_appends_in_order(before, element_children(groups.last()));
        }
    }
}

/// Groups that name no target framework record none.
pub proof fn lemma_target_framework_stays_open(project: ProjectView, groups: Seq<Element>)
    requires
        project.target_framework is None,
        groups_walk(project, groups).failure is None,
        forall|k: int| 0 <= k < groups.len() ==> !names_target_framework(#[trigger] groups[k]),
    ensures
        groups_walk(project, groups).project.target_framework is None,
    decreases groups.len(),
{
    lemma_tags_differ();
    if groups.len() > 0 {
        let before = groups_walk(project, groups.drop_last()).project;
        assert(forall|k: int|
            0 <= k < groups.drop_last().len() ==> !names_target_framework(
                #[trigger] groups.drop_last()[k],
            ));
        lemma_target_framework_stays_open(project, groups.drop_last());
        if is_item_group(groups.last()) {
            lemma_items_walk_appends_in_order(before, element_children(groups.last()));
        }
    }
}

/// The first writer wins: where a walk succeeds on a project without target
/// framework, the framework recorded is the text of the `TargetFramework`
/// child of the first `PropertyGroup` that has such a child, whatever the
/// groups after it hold.
pub proof fn lemma_first_target_framework_wins(
    project: ProjectView,
    groups: Seq<Element>,
    first: int,
)
    requires
        project.target_framework is None,
        groups_walk(project, groups).failure is None,
        0 <= first < groups.len(),
        names_target_framework(groups[first]),
        forall|k: int| 0 <= k < first ==> !names_target_framework(#[trigger] groups[k]),
    ensures
        groups_walk(project, groups).project.target_framework == element_text(
            first_unqualified(element_children(groups[first]), "TargetFramework"@).unwrap(),
        ),
        groups_walk(project, groups).project.target_framework is Some,
    decreases groups.len(),
{
    lemma_tags_differ();
    let head = groups.drop_last();
    if first == groups.len() - 1 {
        assert(forall|k: int| 0 <= k < head.len() ==> !names_target_framework(#[trigger] head[k]));
        lemma_target_framework_stays_open(project, head);
    } else {
        assert(forall|k: int| 0 <= k < first ==> !names_target_framework(#[trigger] head[k]));
        lemma_first_target_framework_wins(project, head, first);
        let before = groups_walk(project, head).project;
        if is_item_group(groups.last()) {
            lemma_items_walk_appends_in_order(before, element_children(groups.last()));
        }
    }
}

/// The path of the project file itself never lacks a name: a path with a
/// known extension has a file stem, so the path alone gives a project, a
/// `PathIsNotAFile` or a `FileIsNotAProject`.
pub proof fn lemma_project_file_has_a_name(path: Seq<char>, is_dir: bool)
    ensures
        path_outcome(path, is_dir) != Err::<ProjectView, ParseErrorKind>(
            ParseErrorKind::FileDoesNotHaveAName,
        ),
{
}

/// A project that parsing returns has the name and the language that its path
/// gives, carries that path, and lists the references of the document in
/// document order.
pub proof fn lemma_parsed_project(path: Seq<char>, is_dir: bool, document: XmlDocument)
    requires
        parse_outcome(path, is_dir, Some(document)) is Ok,
    ensures
        !is_dir,
        parse_outcome(path, is_dir, Some(document)).unwrap().path == path,
        parse_outcome(path, is_dir, Some(document)).unwrap().well_formed(),
        parse_outcome(path, is_dir, Some(document)).unwrap().project_references
            == project_references_of(items_of(element_children(document_root(document)))),
        parse_outcome(path, is_dir, Some(document)).unwrap().package_references
            == package_references_of(items_of(element_children(document_root(document)))),
{
    let language = language_of_path(path).unwrap();
    let start = ProjectView::bare(stem_of(path).unwrap(), language, path);
    let groups = element_children(document_root(document));
    lemma_groups_walk_appends_in_order(start, groups);
}

/// Parsing is a function of its input: two results for the same content, path
/// and kind of path are equal records, or failures of the same kind.
pub proof fn lemma_parse_is_deterministic(
    first: Result<Project, ParseError>,
    second: Result<Project, ParseError>,
    content: Seq<u8>,
    path: Seq<char>,
    is_dir: bool,
)
    requires
        is_parse_outcome(first, content, path, is_dir),
        is_parse_outcome(second, content, path, is_dir),
    ensures
        match (first, second) {
            (Ok(a), Ok(b)) => a@ == b@,
            (Err(a), Err(b)) => a.kind_of() == b.kind_of(),
            _ => false,
        },
{
}

} // verus!

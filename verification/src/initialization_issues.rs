//! The reports on properties that are not initialized.

use vstd::prelude::*;

use crate::codebase::CodebaseMetadata;
use crate::codebase::CodebaseView;
use crate::collections::lemma_views_push;
use crate::collections::option_view;
use crate::collections::views;
use crate::issue::primary_annotation;
use crate::issue::secondary_annotation;
use crate::issue::Annotation;
use crate::issue::Issue;
use crate::issue::IssueCode;
use crate::issue::IssueView;
use crate::issue::Level;
use crate::issue::Span;
use crate::metadata::ClassLikeMetadata;
use crate::metadata::ClassLikeView;
use crate::metadata::PropertyMetadata;
use crate::metadata::PropertyView;
use crate::word::concat;
use crate::word::copy_word;
use crate::word::join;
use crate::word::joined;
use crate::word::make_phrase;
use crate::word::phrase;
use crate::word::same_word;
use crate::word::text;
use crate::word::word;
use crate::word::Word;

verus! {

/// A property of a class-like, with its name.
pub type NamedProperty<'a> = (Word, &'a PropertyMetadata);

/// The names of properties.
pub open spec fn property_names(properties: Seq<(Seq<u8>, PropertyView)>) -> Seq<Seq<u8>> {
    properties.map_values(|p: (Seq<u8>, PropertyView)| p.0)
}

/// An issue with a remark at each property whose place is known.
pub open spec fn with_property_annotations(issue: IssueView, properties: Seq<(Seq<u8>, PropertyView)>) -> IssueView
    decreases properties.len(),
{
    if properties.len() == 0 {
        issue
    } else {
        let rest = with_property_annotations(issue, properties.drop_last());
        match properties.last().1.name_span {
            Some(span) => rest.with_annotation(secondary_annotation(span, text("This property needs initialization"))),
            None => rest,
        }
    }
}

pub open spec fn missing_constructor_issue(
    class: ClassLikeView,
    class_span: Span,
    properties: Seq<(Seq<u8>, PropertyView)>,
) -> IssueView {
    let issue = IssueView::new(
        Level::Error,
        phrase(
            "Class `",
            class.original_name,
            "` has typed properties without default values but no constructor to initialize them.",
        ),
    ).with_annotation(primary_annotation(class_span, text("This class needs a constructor")));
    with_property_annotations(issue, properties).with_note(
        text("Properties requiring initialization: ") + joined(property_names(properties), text(", ")),
    ).with_help(
        text("Add a constructor that initializes all typed properties, or provide default values."),
    ).with_code(IssueCode::MissingConstructor)
}

/// The report that the constructor of `class_like` does not initialize these properties.
pub fn report_missing_constructor(
    issues: &mut Vec<Issue>,
    class_like: &ClassLikeMetadata,
    class_span: Span,
    properties: &Vec<NamedProperty<'_>>,
)
    ensures
        views(final(issues)@) == views(old(issues)@).push(
            missing_constructor_issue(class_like@, class_span, views(properties@)),
        ),
{
    broadcast use lemma_views_push;

    let mut issue: Issue = Issue::error(
        make_phrase(
            "Class `",
            class_like.original_name.as_slice(),
            "` has typed properties without default values but no constructor to initialize them.",
        ),
    ).with_annotation(Annotation::primary(class_span, word("This class needs a constructor")));
    let ghost first = issue@;
    let ghost all = views(properties@);
    let mut names: Vec<Word> = Vec::new();
    let mut i: usize = 0;
    assert(views(names@) =~= property_names(all.take(0)));
    while i < properties.len()
        invariant
            i <= properties@.len(),
            all == views(properties@),
            views(names@) == property_names(all.take(i as int)),
            issue@ == with_property_annotations(first, all.take(i as int)),
        decreases properties@.len() - i,
    {
        assert(all.take(i + 1).drop_last() =~= all.take(i as int));
        assert(all.take(i + 1).last() == properties@[i as int]@);
        assert(property_names(all.take(i + 1)) =~= property_names(all.take(i as int)).push(all[i as int].0));
        names.push(copy_word(properties[i].0.as_slice()));
        if let Some(span) = properties[i].1.name_span {
            issue = issue.with_annotation(Annotation::secondary(span, word("This property needs initialization")));
        }
        i = i + 1;
    }
    assert(all.take(i as int) =~= all);
    let note: Word = concat(word("Properties requiring initialization: ").as_slice(), join(&names, ", ").as_slice());
    let issue: Issue = issue.with_note(note).with_help(
        word("Add a constructor that initializes all typed properties, or provide default values."),
    ).with_code(IssueCode::MissingConstructor);
    issues.push(issue);
}

pub open spec fn uninitialized_property_issue(
    codebase: CodebaseView,
    class: ClassLikeView,
    name: Seq<u8>,
    property_span: Option<Span>,
    class_span: Span,
    declaring_class: Option<Seq<u8>>,
) -> IssueView {
    let is_inherited = declaring_class is Some && declaring_class->0 != class.name;
    let issue = IssueView::new(
        Level::Error,
        phrase("Property `", name, "` is not initialized in the constructor of class `") + class.original_name + text(
            "`.",
        ),
    );
    let placed = match property_span {
        Some(span) => issue.with_annotation(
            primary_annotation(
                span,
                if is_inherited && codebase.class_like(declaring_class->0) is Some {
                    phrase("Property declared in `", codebase.class_like(declaring_class->0)->0.original_name, "`")
                } else {
                    text("This property is not initialized")
                },
            ),
        ),
        None => issue,
    };
    placed.with_annotation(secondary_annotation(class_span, phrase("In class `", class.original_name, "`"))).with_note(
        text("Typed properties without default values must be initialized in the constructor."),
    ).with_help(
        if is_inherited {
            phrase(
                "Initialize `",
                name,
                "` in the constructor, call `parent::__construct()` if parent handles initialization, or provide a default value.",
            )
        } else {
            phrase("Initialize `", name, "` in the constructor, provide a default value, or make the type nullable.")
        },
    ).with_code(IssueCode::UninitializedProperty)
}

/// The report that one property is not initialized.
pub fn report_uninitialized_property(
    issues: &mut Vec<Issue>,
    codebase: &CodebaseMetadata,
    class_like: &ClassLikeMetadata,
    name: &Word,
    property_span: Option<Span>,
    class_span: Span,
    declaring_class: Option<&Word>,
)
    ensures
        views(final(issues)@) == views(old(issues)@).push(
            uninitialized_property_issue(
                codebase@,
                class_like@,
                name@,
                property_span,
                class_span,
                option_view(declaring_class),
            ),
        ),
{
    broadcast use lemma_views_push;

    let mut issue: Issue = Issue::error(
        concat(
            concat(
                make_phrase(
                    "Property `",
                    name.as_slice(),
                    "` is not initialized in the constructor of class `",
                ).as_slice(),
                class_like.original_name.as_slice(),
            ).as_slice(),
            word("`.").as_slice(),
        ),
    );
    let is_inherited: bool = match declaring_class {
        Some(declaring) => !same_word(declaring.as_slice(), class_like.name.as_slice()),
        None => false,
    };
    if let Some(span) = property_span {
        let declared_in: Option<&ClassLikeMetadata> = match declaring_class {
            Some(declaring) => if is_inherited {
                codebase.get_class_like(declaring)
            } else {
                None
            },
            None => None,
        };
        let message: Word = match declared_in {
            Some(meta) => make_phrase("Property declared in `", meta.original_name.as_slice(), "`"),
            None => word("This property is not initialized"),
        };
        issue = issue.with_annotation(Annotation::primary(span, message));
    }
    issue = issue.with_annotation(
        Annotation::secondary(class_span, make_phrase("In class `", class_like.original_name.as_slice(), "`")),
    );
    issue = issue.with_note(word("Typed properties without default values must be initialized in the constructor."));
    let help: Word = if is_inherited {
        make_phrase(
            "Initialize `",
            name.as_slice(),
            "` in the constructor, call `parent::__construct()` if parent handles initialization, or provide a default value.",
        )
    } else {
        make_phrase(
            "Initialize `",
            name.as_slice(),
            "` in the constructor, provide a default value, or make the type nullable.",
        )
    };
    issue = issue.with_help(help).with_code(IssueCode::UninitializedProperty);
    issues.push(issue);
}

/// The report on one of the properties of a class-like.
pub open spec fn property_issue(
    codebase: CodebaseView,
    class: ClassLikeView,
    class_span: Span,
    property: (Seq<u8>, PropertyView),
) -> IssueView {
    uninitialized_property_issue(
        codebase,
        class,
        property.0,
        property.1.name_span,
        class_span,
        if class.declaring_property_ids.contains_key(property.0) {
            Some(class.declaring_property_ids[property.0])
        } else {
            None
        },
    )
}

/// The reports on properties, each of which is not initialized.
pub open spec fn property_issues(
    codebase: CodebaseView,
    class: ClassLikeView,
    class_span: Span,
    properties: Seq<(Seq<u8>, PropertyView)>,
) -> Seq<IssueView> {
    properties.map_values(|p: (Seq<u8>, PropertyView)| property_issue(codebase, class, class_span, p))
}

/// Reports each of these properties.
pub fn report_uninitialized_properties(
    issues: &mut Vec<Issue>,
    codebase: &CodebaseMetadata,
    class_like: &ClassLikeMetadata,
    class_span: Span,
    properties: &Vec<NamedProperty<'_>>,
)
    ensures
        views(final(issues)@) == views(old(issues)@) + property_issues(
            codebase@,
            class_like@,
            class_span,
            views(properties@),
        ),
{
    let ghost before = views(issues@);
    let ghost all = views(properties@);
    let mut i: usize = 0;
    assert(before =~= before + property_issues(codebase@, class_like@, class_span, all.take(0)));
    while i < properties.len()
        invariant
            i <= properties@.len(),
            all == views(properties@),
            views(issues@) == before + property_issues(codebase@, class_like@, class_span, all.take(i as int)),
        decreases properties@.len() - i,
    {
        let ghost earlier = views(issues@);
        report_uninitialized_property(
            issues,
            codebase,
            class_like,
            &properties[i].0,
            properties[i].1.name_span,
            class_span,
            class_like.declaring_property_ids.get(&properties[i].0),
        );
        assert(views(issues@) == earlier.push(property_issue(codebase@, class_like@, class_span, all[i as int])));
        i = i + 1;
        assert(views(issues@) =~= before + property_issues(codebase@, class_like@, class_span, all.take(i as int)));
    }
    assert(all.take(i as int) =~= all);
}

} // verus!

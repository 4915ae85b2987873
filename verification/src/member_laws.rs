//! What the members of a declaration make known of its class-like.

use vstd::prelude::*;

use crate::class_like::bare_class_like;
use crate::class_like::is_registered;
use crate::class_like::scanned_class_like;
use crate::class_like::with_docblock;
use crate::class_like::with_header;
use crate::class_like::HeaderView;
use crate::class_like::RegistrationView;
use crate::class_like::ScanSettings;
use crate::class_members::with_adaptations;
use crate::class_members::with_case_members;
use crate::class_members::with_constant_members;
use crate::class_members::with_constants;
use crate::class_members::with_issues;
use crate::class_members::with_members;
use crate::class_members::with_properties;
use crate::class_members::with_trait_use;
use crate::class_members::with_used_traits;
use crate::class_members::ClassLikeMember;
use crate::class_members::TraitUse;
use crate::class_members::TraitUseAdaptation;
use crate::codebase::CodebaseView;
use crate::collections::lemma_with_item;
use crate::declaration_laws::lemma_issues;
use crate::declaration_laws::lemma_members;
use crate::declaration_laws::lemma_properties;
use crate::declaration_laws::lemma_trait_use;
use crate::declaration_laws::lemma_use_document;
use crate::metadata::ClassLikeConstantMetadata;
use crate::metadata::ClassLikeView;
use crate::metadata::PropertyMetadata;
use crate::metadata::SymbolKind;
use crate::registration_laws::lemma_bare;
use crate::registration_laws::lemma_body;
use crate::registration_laws::lemma_docblock;
use crate::registration_laws::lemma_headed;
use crate::registration_laws::lemma_registered;
use crate::registration_laws::members_before;
use crate::word::lowercase;
use crate::word::Word;

verus! {

// ---- constants ----

/// One of these constants has the name.
pub open spec fn names_constant(constants: Seq<ClassLikeConstantMetadata>, name: Seq<u8>) -> bool {
    exists|k: int| 0 <= k < constants.len() && (#[trigger] constants[k]).name@ == name
}

/// A member declares a constant of this name.
pub open spec fn declares_constant(member: ClassLikeMember, name: Seq<u8>) -> bool {
    member matches ClassLikeMember::Constant(c) && names_constant(c.constants@, name)
}

/// One of the members declares a constant of this name.
pub open spec fn some_constant(members: Seq<ClassLikeMember>, name: Seq<u8>) -> bool {
    exists|i: int| 0 <= i < members.len() && declares_constant(#[trigger] members[i], name)
}

proof fn lemma_names_constant(constants: Seq<ClassLikeConstantMetadata>, name: Seq<u8>)
    requires
        constants.len() > 0,
    ensures
        names_constant(constants, name) <==> names_constant(constants.drop_last(), name) || constants.last().name@
            == name,
{
    let rest = constants.drop_last();
    if names_constant(constants, name) {
        let k = choose|k: int| 0 <= k < constants.len() && (#[trigger] constants[k]).name@ == name;
        if k < rest.len() {
            assert(rest[k].name@ == name);
        }
    }
    if names_constant(rest, name) {
        let k = choose|k: int| 0 <= k < rest.len() && (#[trigger] rest[k]).name@ == name;
        assert(constants[k].name@ == name);
    }
    if constants.last().name@ == name {
        assert(constants[constants.len() - 1].name@ == name);
    }
}

proof fn lemma_some_constant(members: Seq<ClassLikeMember>, name: Seq<u8>)
    requires
        members.len() > 0,
    ensures
        some_constant(members, name) <==> some_constant(members.drop_last(), name) || declares_constant(
            members.last(),
            name,
        ),
{
    let rest = members.drop_last();
    if some_constant(members, name) {
        let i = choose|i: int| 0 <= i < members.len() && declares_constant(#[trigger] members[i], name);
        if i < rest.len() {
            assert(declares_constant(rest[i], name));
        }
    }
    if some_constant(rest, name) {
        let i = choose|i: int| 0 <= i < rest.len() && declares_constant(#[trigger] rest[i], name);
        assert(declares_constant(members[i], name));
    }
    if declares_constant(members.last(), name) {
        assert(declares_constant(members[members.len() - 1], name));
    }
}

proof fn lemma_constants_known(m: ClassLikeView, constants: Seq<ClassLikeConstantMetadata>, name: Seq<u8>)
    ensures
        with_constants(m, constants).constants.contains_key(name) <==> m.constants.contains_key(name) || names_constant(
            constants,
            name,
        ),
        m.constants.contains_key(name) ==> with_constants(m, constants).constants[name] == m.constants[name],
    decreases constants.len(),
{
    if constants.len() > 0 {
        lemma_constants_known(m, constants.drop_last(), name);
        lemma_names_constant(constants, name);
    }
}

proof fn lemma_first_constant(m: ClassLikeView, constants: Seq<ClassLikeConstantMetadata>, k: int)
    requires
        0 <= k < constants.len(),
        !m.constants.contains_key(constants[k].name@),
        forall|j: int| 0 <= j < k ==> (#[trigger] constants[j]).name@ != constants[k].name@,
    ensures
        with_constants(m, constants).constants[constants[k].name@] == constants[k]@,
    decreases constants.len(),
{
    let rest = constants.drop_last();
    let name = constants[k].name@;
    if k < rest.len() {
        lemma_first_constant(m, rest, k);
        assert(rest[k].name@ == name);
        assert(names_constant(rest, name));
        lemma_constants_known(m, rest, name);
    } else {
        lemma_constants_known(m, rest, name);
        assert(!names_constant(rest, name)) by {
            if names_constant(rest, name) {
                let j = choose|j: int| 0 <= j < rest.len() && (#[trigger] rest[j]).name@ == name;
                assert(constants[j].name@ == name);
            }
        }
    }
}

proof fn lemma_constant_members_known(m: ClassLikeView, members: Seq<ClassLikeMember>, name: Seq<u8>)
    ensures
        with_constant_members(m, members).constants.contains_key(name) <==> m.constants.contains_key(name)
            || some_constant(members, name),
    decreases members.len(),
{
    if members.len() > 0 {
        lemma_constant_members_known(m, members.drop_last(), name);
        lemma_some_constant(members, name);
        let rest = with_constant_members(m, members.drop_last());
        if let ClassLikeMember::Constant(c) = members.last() {
            lemma_issues(rest, c.issues@);
            lemma_constants_known(with_issues(rest, c.issues@), c.constants@, name);
        }
    }
}

proof fn lemma_first_constant_member(m: ClassLikeView, members: Seq<ClassLikeMember>, i: int, k: int)
    requires
        0 <= i < members.len(),
        !m.constants.contains_key(constant_at(members, i, k).name@),
        is_first_constant(members, i, k),
    ensures
        with_constant_members(m, members).constants[constant_at(members, i, k).name@] == constant_at(members, i, k)@,
    decreases members.len(),
{
    let rest = members.drop_last();
    let before = with_constant_members(m, rest);
    let name = constant_at(members, i, k).name@;
    lemma_constant_members_known(m, rest, name);
    if i < rest.len() {
        assert(rest[i] == members[i]);
        assert(is_first_constant(rest, i, k));
        lemma_first_constant_member(m, rest, i, k);
        assert(declares_constant(rest[i], name)) by {
            assert((members[i]->Constant_0).constants@[k].name@ == name);
        }
        assert(some_constant(rest, name));
        if let ClassLikeMember::Constant(c) = members.last() {
            lemma_issues(before, c.issues@);
            lemma_constants_known(with_issues(before, c.issues@), c.constants@, name);
        }
    } else {
        assert(!some_constant(rest, name)) by {
            if some_constant(rest, name) {
                let j = choose|j: int| 0 <= j < rest.len() && declares_constant(#[trigger] rest[j], name);
                assert(declares_constant(members[j], name));
            }
        }
        let c = members[i]->Constant_0;
        lemma_issues(before, c.issues@);
        lemma_first_constant(with_issues(before, c.issues@), c.constants@, k);
    }
}

/// The constant at a place of the members.
pub open spec fn constant_at(members: Seq<ClassLikeMember>, i: int, k: int) -> ClassLikeConstantMetadata {
    (members[i]->Constant_0).constants@[k]
}

/// A constant is the first of its name.
pub open spec fn is_first_constant(members: Seq<ClassLikeMember>, i: int, k: int) -> bool {
    &&& members[i] is Constant
    &&& 0 <= k < (members[i]->Constant_0).constants@.len()
    &&& forall|j: int| 0 <= j < i ==> !declares_constant(#[trigger] members[j], constant_at(members, i, k).name@)
    &&& forall|j: int|
        0 <= j < k ==> (#[trigger] (members[i]->Constant_0).constants@[j]).name@ != constant_at(members, i, k).name@
}

/// A class-like has the constants that its declaration declares, and no others. Of two constants of
/// one name the first counts.
pub proof fn constants_are_declared(
    before: CodebaseView,
    h: HeaderView,
    settings: ScanSettings,
    result: Option<RegistrationView>,
    after: CodebaseView,
)
    requires
        is_registered(before, h, settings, result, after),
        result is Some,
    ensures
        ({
            let m = after.class_likes[lowercase(h.name)];
            let members = h.declaration.members@;
            &&& forall|n: Seq<u8>| #[trigger] m.constants.contains_key(n) <==> some_constant(members, n)
            &&& forall|i: int, k: int|
                0 <= i < members.len() && is_first_constant(members, i, k)
                    ==> m.constants[(#[trigger] constant_at(members, i, k)).name@] == constant_at(members, i, k)@
        }),
{
    lemma_registered(before, h, settings, result, after);
    lemma_described(h, settings);
    let start = described(h, settings);
    let members = h.declaration.members@;
    lemma_scanned_body(h, settings);
    let m = after.class_likes[lowercase(h.name)];
    assert forall|n: Seq<u8>| #[trigger] m.constants.contains_key(n) <==> some_constant(members, n) by {
        lemma_constant_members_known(start, members, n);
    }
    assert forall|i: int, k: int| 0 <= i < members.len() && is_first_constant(members, i, k) implies m.constants[(
    #[trigger] constant_at(members, i, k)).name@] == constant_at(members, i, k)@ by {
        lemma_first_constant_member(start, members, i, k);
    }
}

// ---- cases ----

/// A case is the last of its name, and no constant has that name.
pub open spec fn is_last_case(members: Seq<ClassLikeMember>, i: int) -> bool {
    &&& members[i] is EnumCase
    &&& !some_constant(members, (members[i]->EnumCase_0).name@)
    &&& forall|j: int|
        i < j < members.len() && members[j] is EnumCase ==> ((#[trigger] members[j])->EnumCase_0).name@ != (
        members[i]->EnumCase_0).name@
}

proof fn lemma_last_case(m: ClassLikeView, members: Seq<ClassLikeMember>, i: int)
    requires
        0 <= i < members.len(),
        members[i] is EnumCase,
        !m.constants.contains_key((members[i]->EnumCase_0).name@),
        forall|j: int|
            i < j < members.len() && members[j] is EnumCase ==> ((#[trigger] members[j])->EnumCase_0).name@ != (
            members[i]->EnumCase_0).name@,
    ensures
        with_case_members(m, members).enum_cases.contains_key((members[i]->EnumCase_0).name@),
        with_case_members(m, members).enum_cases[(members[i]->EnumCase_0).name@] == (members[i]->EnumCase_0)@,
    decreases members.len(),
{
    let rest = members.drop_last();
    lemma_case_constants(m, rest);
    if i < rest.len() {
        assert(rest[i] == members[i]);
        assert forall|j: int| i < j < rest.len() && rest[j] is EnumCase implies ((
        #[trigger] rest[j])->EnumCase_0).name@ != (rest[i]->EnumCase_0).name@ by {
            assert(rest[j] == members[j]);
        }
        lemma_last_case(m, rest, i);
        assert(members[members.len() - 1] == members.last());
    }
}

proof fn lemma_case_constants(m: ClassLikeView, members: Seq<ClassLikeMember>)
    ensures
        with_case_members(m, members).constants == m.constants,
    decreases members.len(),
{
    if members.len() > 0 {
        lemma_case_constants(m, members.drop_last());
    }
}

/// A declaration makes its cases known, but for those that have the name of a constant. Of two cases
/// of one name the last counts.
pub proof fn cases_are_declared(
    before: CodebaseView,
    h: HeaderView,
    settings: ScanSettings,
    result: Option<RegistrationView>,
    after: CodebaseView,
)
    requires
        is_registered(before, h, settings, result, after),
        result is Some,
    ensures
        ({
            let m = after.class_likes[lowercase(h.name)];
            let members = h.declaration.members@;
            forall|i: int|
                0 <= i < members.len() && is_last_case(members, i) ==> m.enum_cases.contains_key(
                    ((#[trigger] members[i])->EnumCase_0).name@,
                ) && m.enum_cases[(members[i]->EnumCase_0).name@] == (members[i]->EnumCase_0)@
        }),
{
    lemma_registered(before, h, settings, result, after);
    lemma_described(h, settings);
    let start = described(h, settings);
    let members = h.declaration.members@;
    lemma_scanned_body(h, settings);
    let m = after.class_likes[lowercase(h.name)];
    assert forall|i: int| 0 <= i < members.len() && is_last_case(members, i) implies m.enum_cases.contains_key(
        ((#[trigger] members[i])->EnumCase_0).name@,
    ) && m.enum_cases[(members[i]->EnumCase_0).name@] == (members[i]->EnumCase_0)@ by {
        lemma_constant_members_known(start, members, (members[i]->EnumCase_0).name@);
        lemma_last_case(with_constant_members(start, members), members, i);
    }
}

// ---- properties ----

/// One of these properties has the name.
pub open spec fn names_property(properties: Seq<PropertyMetadata>, name: Seq<u8>) -> bool {
    exists|k: int| 0 <= k < properties.len() && (#[trigger] properties[k]).name@ == name
}

/// A member declares a property of this name.
pub open spec fn declares_property(member: ClassLikeMember, name: Seq<u8>) -> bool {
    member matches ClassLikeMember::Property(p) && names_property(p.properties@, name)
}

/// One of these properties has the name and a default value.
pub open spec fn gives_default(properties: Seq<PropertyMetadata>, name: Seq<u8>) -> bool {
    exists|k: int| 0 <= k < properties.len() && (#[trigger] properties[k]).name@ == name && properties[k].flags.has_default
}

/// One of the members declares a property of this name with a default value.
pub open spec fn some_default(members: Seq<ClassLikeMember>, name: Seq<u8>) -> bool {
    exists|i: int|
        0 <= i < members.len() && ((#[trigger] members[i]) matches ClassLikeMember::Property(p) && gives_default(
            p.properties@,
            name,
        ))
}

/// The property at a place of the members.
pub open spec fn property_at(members: Seq<ClassLikeMember>, i: int, k: int) -> PropertyMetadata {
    (members[i]->Property_0).properties@[k]
}

/// A property is the last of its name.
pub open spec fn is_last_property(members: Seq<ClassLikeMember>, i: int, k: int) -> bool {
    &&& members[i] is Property
    &&& 0 <= k < (members[i]->Property_0).properties@.len()
    &&& forall|j: int|
        i < j < members.len() ==> !declares_property(#[trigger] members[j], property_at(members, i, k).name@)
    &&& forall|j: int|
        k < j < (members[i]->Property_0).properties@.len() ==> (#[trigger] (
        members[i]->Property_0).properties@[j]).name@ != property_at(members, i, k).name@
}

proof fn lemma_last_property(m: ClassLikeView, properties: Seq<PropertyMetadata>, k: int)
    requires
        0 <= k < properties.len(),
        forall|j: int| k < j < properties.len() ==> (#[trigger] properties[j]).name@ != properties[k].name@,
    ensures
        with_properties(m, properties).properties.contains_key(properties[k].name@),
        with_properties(m, properties).properties[properties[k].name@] == properties[k]@,
        with_properties(m, properties).declaring_property_ids.contains_key(properties[k].name@),
        with_properties(m, properties).declaring_property_ids[properties[k].name@] == m.name,
    decreases properties.len(),
{
    let rest = properties.drop_last();
    lemma_properties(m, rest);
    if k < rest.len() {
        assert(rest[k] == properties[k]);
        assert forall|j: int| k < j < rest.len() implies (#[trigger] rest[j]).name@ != rest[k].name@ by {
            assert(rest[j] == properties[j]);
        }
        lemma_last_property(m, rest, k);
        assert(properties[properties.len() - 1] == properties.last());
    }
}

proof fn lemma_other_properties(m: ClassLikeView, properties: Seq<PropertyMetadata>, name: Seq<u8>)
    requires
        !names_property(properties, name),
        m.properties.contains_key(name),
        m.declaring_property_ids.contains_key(name),
    ensures
        with_properties(m, properties).properties.contains_key(name),
        with_properties(m, properties).properties[name] == m.properties[name],
        with_properties(m, properties).declaring_property_ids.contains_key(name),
        with_properties(m, properties).declaring_property_ids[name] == m.declaring_property_ids[name],
    decreases properties.len(),
{
    if properties.len() > 0 {
        let rest = properties.drop_last();
        assert(!names_property(rest, name)) by {
            if names_property(rest, name) {
                let k = choose|k: int| 0 <= k < rest.len() && (#[trigger] rest[k]).name@ == name;
                assert(properties[k].name@ == name);
            }
        }
        lemma_other_properties(m, rest, name);
        assert(properties[properties.len() - 1] == properties.last());
    }
}

proof fn lemma_last_property_member(m: ClassLikeView, members: Seq<ClassLikeMember>, i: int, k: int)
    requires
        0 <= i < members.len(),
        is_last_property(members, i, k),
    ensures
        ({
            let d = with_members(m, members);
            let p = property_at(members, i, k);
            &&& d.properties.contains_key(p.name@)
            &&& d.properties[p.name@] == p@
            &&& d.declaring_property_ids.contains_key(p.name@)
            &&& d.declaring_property_ids[p.name@] == m.name
        }),
    decreases members.len(),
{
    let rest = members.drop_last();
    let before = with_members(m, rest);
    let name = property_at(members, i, k).name@;
    lemma_members(m, rest);
    if i < rest.len() {
        assert(rest[i] == members[i]);
        assert forall|j: int| i < j < rest.len() implies !declares_property(#[trigger] rest[j], name) by {
            assert(rest[j] == members[j]);
        }
        assert(is_last_property(rest, i, k));
        lemma_last_property_member(m, rest, i, k);
        assert(!declares_property(members[members.len() - 1], name));
        match members.last() {
            ClassLikeMember::TraitUse(trait_use) => {
                lemma_trait_use(before, trait_use);
            },
            ClassLikeMember::Property(p) => {
                lemma_issues(before, p.issues@);
                lemma_other_properties(with_issues(before, p.issues@), p.properties@, name);
            },
            _ => {},
        }
    } else {
        let p = members[i]->Property_0;
        lemma_issues(before, p.issues@);
        lemma_last_property(with_issues(before, p.issues@), p.properties@, k);
    }
}

proof fn lemma_defaults(m: ClassLikeView, properties: Seq<PropertyMetadata>, name: Seq<u8>)
    ensures
        with_properties(m, properties).initialized_properties.contains(name) <==> m.initialized_properties.contains(name)
            || gives_default(properties, name),
    decreases properties.len(),
{
    if properties.len() > 0 {
        let rest = properties.drop_last();
        let before = with_properties(m, rest);
        let last = properties.last();
        lemma_defaults(m, rest, name);
        lemma_with_item(before.initialized_properties, last.name@, name);
        if gives_default(properties, name) {
            let k = choose|k: int|
                0 <= k < properties.len() && (#[trigger] properties[k]).name@ == name && properties[k].flags.has_default;
            if k < rest.len() {
                assert(rest[k].name@ == name && rest[k].flags.has_default);
            }
        }
        if gives_default(rest, name) {
            let k = choose|k: int|
                0 <= k < rest.len() && (#[trigger] rest[k]).name@ == name && rest[k].flags.has_default;
            assert(properties[k].name@ == name && properties[k].flags.has_default);
        }
        assert(properties[properties.len() - 1] == last);
    }
}

proof fn lemma_member_defaults(m: ClassLikeView, members: Seq<ClassLikeMember>, name: Seq<u8>)
    ensures
        with_members(m, members).initialized_properties.contains(name) <==> m.initialized_properties.contains(name)
            || some_default(members, name),
    decreases members.len(),
{
    if members.len() > 0 {
        let rest = members.drop_last();
        let before = with_members(m, rest);
        lemma_member_defaults(m, rest, name);
        match members.last() {
            ClassLikeMember::TraitUse(trait_use) => {
                lemma_trait_use(before, trait_use);
            },
            ClassLikeMember::Property(p) => {
                lemma_issues(before, p.issues@);
                lemma_defaults(with_issues(before, p.issues@), p.properties@, name);
            },
            _ => {},
        }
        if some_default(members, name) {
            let i = choose|i: int|
                0 <= i < members.len() && ((#[trigger] members[i]) matches ClassLikeMember::Property(p)
                    && gives_default(p.properties@, name));
            if i < rest.len() {
                assert(rest[i] == members[i]);
            }
        }
        if some_default(rest, name) {
            let i = choose|i: int|
                0 <= i < rest.len() && ((#[trigger] rest[i]) matches ClassLikeMember::Property(p) && gives_default(
                    p.properties@,
                    name,
                ));
            assert(rest[i] == members[i]);
        }
        assert(members[members.len() - 1] == members.last());
    }
}

/// A class-like has the properties that its declaration declares, as its own; of two properties of
/// one name the last counts. Those with a default value need no other.
pub proof fn properties_are_declared(
    before: CodebaseView,
    h: HeaderView,
    settings: ScanSettings,
    result: Option<RegistrationView>,
    after: CodebaseView,
)
    requires
        is_registered(before, h, settings, result, after),
        result is Some,
    ensures
        ({
            let name = lowercase(h.name);
            let m = after.class_likes[name];
            let members = h.declaration.members@;
            &&& forall|i: int, k: int|
                0 <= i < members.len() && is_last_property(members, i, k) ==> {
                    let p = #[trigger] property_at(members, i, k);
                    &&& m.properties.contains_key(p.name@)
                    &&& m.properties[p.name@] == p@
                    &&& m.declaring_property_ids.contains_key(p.name@)
                    &&& m.declaring_property_ids[p.name@] == name
                }
            &&& h.kind != SymbolKind::Enum ==> forall|n: Seq<u8>| #[trigger]
                m.initialized_properties.contains(n) <==> some_default(members, n)
        }),
{
    lemma_registered(before, h, settings, result, after);
    lemma_described(h, settings);
    let start = described(h, settings);
    let members = h.declaration.members@;
    lemma_scanned_body(h, settings);
    let m = after.class_likes[lowercase(h.name)];
    let ready = members_before(start, members, settings.max_enum_cases as int);
    assert forall|i: int, k: int| 0 <= i < members.len() && is_last_property(members, i, k) implies {
        let p = #[trigger] property_at(members, i, k);
        &&& m.properties.contains_key(p.name@)
        &&& m.properties[p.name@] == p@
        &&& m.declaring_property_ids.contains_key(p.name@)
        &&& m.declaring_property_ids[p.name@] == lowercase(h.name)
    } by {
        lemma_last_property_member(ready, members, i, k);
    }
    if h.kind != SymbolKind::Enum {
        assert forall|n: Seq<u8>| #[trigger] m.initialized_properties.contains(n) <==> some_default(members, n) by {
            lemma_member_defaults(ready, members, n);
        }
    }
}

// ---- traits ----

/// One of these words is the name, in lower case.
pub open spec fn names_trait(names: Seq<Word>, name: Seq<u8>) -> bool {
    exists|k: int| 0 <= k < names.len() && lowercase((#[trigger] names[k])@) == name
}

/// One of the members uses a trait of this name.
pub open spec fn some_trait(members: Seq<ClassLikeMember>, name: Seq<u8>) -> bool {
    exists|i: int|
        0 <= i < members.len() && ((#[trigger] members[i]) matches ClassLikeMember::TraitUse(t) && names_trait(
            t.names@,
            name,
        ))
}

proof fn lemma_adaptations_traits(m: ClassLikeView, adaptations: Seq<TraitUseAdaptation>)
    ensures
        with_adaptations(m, adaptations).used_traits == m.used_traits,
    decreases adaptations.len(),
{
    if adaptations.len() > 0 {
        lemma_adaptations_traits(m, adaptations.drop_last());
    }
}

proof fn lemma_used(m: ClassLikeView, names: Seq<Word>, name: Seq<u8>)
    ensures
        with_used_traits(m, names).used_traits.contains(name) <==> m.used_traits.contains(name) || names_trait(
            names,
            name,
        ),
    decreases names.len(),
{
    if names.len() > 0 {
        let rest = names.drop_last();
        lemma_used(m, rest, name);
        lemma_with_item(with_used_traits(m, rest).used_traits, lowercase(names.last()@), name);
        if names_trait(names, name) {
            let k = choose|k: int| 0 <= k < names.len() && lowercase((#[trigger] names[k])@) == name;
            if k < rest.len() {
                assert(lowercase(rest[k]@) == name);
            }
        }
        if names_trait(rest, name) {
            let k = choose|k: int| 0 <= k < rest.len() && lowercase((#[trigger] rest[k])@) == name;
            assert(lowercase(names[k]@) == name);
        }
        assert(names[names.len() - 1] == names.last());
    }
}

proof fn lemma_use(m: ClassLikeView, t: TraitUse, name: Seq<u8>)
    ensures
        with_trait_use(m, t).used_traits.contains(name) <==> m.used_traits.contains(name) || names_trait(t.names@, name),
{
    lemma_used(m, t.names@, name);
    let used = with_used_traits(m, t.names@);
    lemma_adaptations_traits(used, t.adaptations@);
    if let Some(document) = t.document {
        lemma_use_document(with_adaptations(used, t.adaptations@), document);
    }
}

proof fn lemma_member_traits(m: ClassLikeView, members: Seq<ClassLikeMember>, name: Seq<u8>)
    ensures
        with_members(m, members).used_traits.contains(name) <==> m.used_traits.contains(name) || some_trait(
            members,
            name,
        ),
    decreases members.len(),
{
    if members.len() > 0 {
        let rest = members.drop_last();
        let before = with_members(m, rest);
        lemma_member_traits(m, rest, name);
        match members.last() {
            ClassLikeMember::TraitUse(t) => {
                lemma_use(before, t, name);
            },
            ClassLikeMember::Property(p) => {
                lemma_issues(before, p.issues@);
                lemma_properties(with_issues(before, p.issues@), p.properties@);
            },
            _ => {},
        }
        if some_trait(members, name) {
            let i = choose|i: int|
                0 <= i < members.len() && ((#[trigger] members[i]) matches ClassLikeMember::TraitUse(t) && names_trait(
                    t.names@,
                    name,
                ));
            if i < rest.len() {
                assert(rest[i] == members[i]);
            }
        }
        if some_trait(rest, name) {
            let i = choose|i: int|
                0 <= i < rest.len() && ((#[trigger] rest[i]) matches ClassLikeMember::TraitUse(t) && names_trait(
                    t.names@,
                    name,
                ));
            assert(rest[i] == members[i]);
        }
        assert(members[members.len() - 1] == members.last());
    }
}

/// A class-like uses the traits that its declaration says it uses, and no others.
pub proof fn traits_are_used(
    before: CodebaseView,
    h: HeaderView,
    settings: ScanSettings,
    result: Option<RegistrationView>,
    after: CodebaseView,
)
    requires
        is_registered(before, h, settings, result, after),
        result is Some,
    ensures
        forall|n: Seq<u8>| #[trigger]
            after.class_likes[lowercase(h.name)].used_traits.contains(n) <==> some_trait(h.declaration.members@, n),
{
    lemma_registered(before, h, settings, result, after);
    lemma_described(h, settings);
    let start = described(h, settings);
    let members = h.declaration.members@;
    lemma_scanned_body(h, settings);
    let ready = members_before(start, members, settings.max_enum_cases as int);
    assert forall|n: Seq<u8>| #[trigger]
        after.class_likes[lowercase(h.name)].used_traits.contains(n) <==> some_trait(members, n) by {
        lemma_member_traits(ready, members, n);
    }
}

// ---- all of it ----

/// What is known of a class-like before its members are read.
#[verifier::opaque]
spec fn described(h: HeaderView, settings: ScanSettings) -> ClassLikeView {
    with_docblock(with_header(bare_class_like(h, settings.origin_flags), h), h.declaration)
}

proof fn lemma_described(h: HeaderView, settings: ScanSettings)
    ensures
        described(h, settings).name == lowercase(h.name),
        described(h, settings).kind == h.kind,
        forall|n: Seq<u8>| !#[trigger] described(h, settings).constants.contains_key(n),
        described(h, settings).used_traits.len() == 0,
        described(h, settings).initialized_properties.len() == 0,
{
    reveal(described);
    let bare = bare_class_like(h, settings.origin_flags);
    lemma_bare(h, settings.origin_flags);
    lemma_headed(bare, h);
    lemma_docblock(with_header(bare, h), h.declaration);
}

proof fn lemma_scanned_body(h: HeaderView, settings: ScanSettings)
    ensures
        ({
            let m = described(h, settings);
            let members = h.declaration.members@;
            let d = scanned_class_like(h, settings);
            let start = members_before(m, members, settings.max_enum_cases as int);
            &&& d.constants == with_constant_members(m, members).constants
            &&& d.enum_cases == with_case_members(with_constant_members(m, members), members).enum_cases
            &&& d.properties == with_members(start, members).properties
            &&& d.declaring_property_ids == with_members(start, members).declaring_property_ids
            &&& d.initialized_properties == with_members(start, members).initialized_properties
            &&& d.used_traits == with_members(start, members).used_traits
            &&& start.used_traits == m.used_traits
            &&& start.name == m.name
            &&& m.kind != SymbolKind::Enum ==> start.initialized_properties == m.initialized_properties
        }),
{
    reveal(described);
    reveal(scanned_class_like);
    lemma_body(described(h, settings), h.declaration.members@, settings.max_enum_cases as int);
}

} // verus!

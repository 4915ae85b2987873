//! Changes to what is known of a class-like.

use vstd::prelude::*;

use crate::collections::keys_with;
use crate::collections::lemma_views_push;
use crate::collections::with_item;
use crate::collections::WordMap;
use crate::collections::WordSet;
use crate::issue::Issue;
use crate::issue::IssueView;
use crate::issue::Span;
use crate::metadata::flags_union;
use crate::metadata::ClassLikeConstantMetadata;
use crate::metadata::ClassLikeConstantView;
use crate::metadata::ClassLikeMetadata;
use crate::metadata::ClassLikeView;
use crate::metadata::EnumCaseMetadata;
use crate::metadata::EnumCaseView;
use crate::metadata::GenericTemplate;
use crate::metadata::GenericTemplateView;
use crate::metadata::ImportedTypeAlias;
use crate::metadata::ImportedTypeAliasView;
use crate::metadata::MetadataFlags;
use crate::metadata::MethodIdentifier;
use crate::metadata::PropertyMetadata;
use crate::metadata::PropertyView;
use crate::metadata::SymbolKind;
use crate::metadata::TypeList;
use crate::metadata::TypeMetadata;
use crate::metadata::TypeView;
use crate::metadata::Variance;
use crate::metadata::VersionConstraint;
use crate::metadata::Visibility;
use crate::ttype::UnionView;
use crate::word::copy_word;
use crate::word::Word;

verus! {

impl ClassLikeView {
    /// A class-like of which only the name, the place and some flags are known.
    pub open spec fn new(
        name: Seq<u8>,
        original_name: Seq<u8>,
        span: Span,
        name_span: Option<Span>,
        flags: MetadataFlags,
    ) -> ClassLikeView {
        ClassLikeView {
            name,
            original_name,
            span,
            name_span,
            flags,
            kind: SymbolKind::Class,
            version_constraint: VersionConstraint { since: None, until: None },
            attributes: Seq::empty(),
            attribute_flags: None,
            enum_type: None,
            direct_parent_class: None,
            all_parent_classes: Seq::empty(),
            direct_parent_interfaces: Seq::empty(),
            all_parent_interfaces: Seq::empty(),
            used_traits: Seq::empty(),
            require_extends: Seq::empty(),
            require_implements: Seq::empty(),
            permitted_inheritors: None,
            template_types: Map::empty(),
            template_names: Seq::empty(),
            template_variance: Seq::empty(),
            template_readonly: Seq::empty(),
            template_type_extends_count: Map::empty(),
            template_type_implements_count: Map::empty(),
            template_type_uses_count: Map::empty(),
            template_extended_offsets: Map::empty(),
            type_aliases: Map::empty(),
            type_alias_names: Seq::empty(),
            imported_type_aliases: Map::empty(),
            imported_alias_names: Seq::empty(),
            mixins: Seq::empty(),
            methods: Seq::empty(),
            pseudo_methods: Seq::empty(),
            declaring_method_ids: Map::empty(),
            appearing_method_ids: Map::empty(),
            inheritable_method_ids: Map::empty(),
            overridden_method_ids: Map::empty(),
            properties: Map::empty(),
            declaring_property_ids: Map::empty(),
            declaring_property_names: Seq::empty(),
            appearing_property_ids: Map::empty(),
            overridden_property_ids: Map::empty(),
            magic_properties: Map::empty(),
            magic_property_ids: Map::empty(),
            initialized_properties: Seq::empty(),
            constants: Map::empty(),
            enum_cases: Map::empty(),
            enum_case_names: Seq::empty(),
            trait_alias_map: Map::empty(),
            trait_visibility_map: Map::empty(),
            trait_final_map: Seq::empty(),
            has_sealed_properties: None,
            has_sealed_methods: None,
            invalid_dependencies: Seq::empty(),
            child_class_likes: None,
            issues: Seq::empty(),
        }
    }
}

impl ClassLikeMetadata {
    pub fn new(
        name: Word,
        original_name: Word,
        span: Span,
        name_span: Option<Span>,
        flags: MetadataFlags,
    ) -> (meta: ClassLikeMetadata)
        ensures
            meta@ == ClassLikeView::new(name@, original_name@, span, name_span, flags),
    {
        let meta = ClassLikeMetadata {
            name,
            original_name,
            span,
            name_span,
            flags,
            kind: SymbolKind::Class,
            version_constraint: VersionConstraint { since: None, until: None },
            attributes: Vec::new(),
            attribute_flags: None,
            enum_type: None,
            direct_parent_class: None,
            all_parent_classes: WordSet::new(),
            direct_parent_interfaces: WordSet::new(),
            all_parent_interfaces: WordSet::new(),
            used_traits: WordSet::new(),
            require_extends: WordSet::new(),
            require_implements: WordSet::new(),
            permitted_inheritors: None,
            template_types: WordMap::new(),
            template_variance: Vec::new(),
            template_readonly: WordSet::new(),
            template_type_extends_count: WordMap::new(),
            template_type_implements_count: WordMap::new(),
            template_type_uses_count: WordMap::new(),
            template_extended_offsets: WordMap::new(),
            type_aliases: WordMap::new(),
            imported_type_aliases: WordMap::new(),
            mixins: Vec::new(),
            methods: WordSet::new(),
            pseudo_methods: WordSet::new(),
            declaring_method_ids: WordMap::new(),
            appearing_method_ids: WordMap::new(),
            inheritable_method_ids: WordMap::new(),
            overridden_method_ids: WordMap::new(),
            properties: WordMap::new(),
            declaring_property_ids: WordMap::new(),
            appearing_property_ids: WordMap::new(),
            overridden_property_ids: WordMap::new(),
            magic_properties: WordMap::new(),
            magic_property_ids: WordMap::new(),
            initialized_properties: WordSet::new(),
            constants: WordMap::new(),
            enum_cases: WordMap::new(),
            trait_alias_map: WordMap::new(),
            trait_visibility_map: WordMap::new(),
            trait_final_map: WordSet::new(),
            has_sealed_properties: None,
            has_sealed_methods: None,
            invalid_dependencies: WordSet::new(),
            child_class_likes: None,
            issues: Vec::new(),
        };
        assert(meta@ =~= ClassLikeView::new(name@, original_name@, span, name_span, flags));
        meta
    }
}

impl ClassLikeView {
    pub open spec fn report(self, issue: IssueView) -> ClassLikeView {
        ClassLikeView {
            issues: self.issues.push(issue),
            ..self
        }
    }

    /// The flags that hold, and those of `flags`.
    pub open spec fn add_flags(self, flags: MetadataFlags) -> ClassLikeView {
        ClassLikeView {
            flags: flags_union(self.flags, flags),
            ..self
        }
    }

    pub open spec fn add_direct_parent_interface(self, name: Seq<u8>) -> ClassLikeView {
        ClassLikeView {
            direct_parent_interfaces: with_item(self.direct_parent_interfaces, name),
            all_parent_interfaces: with_item(self.all_parent_interfaces, name),
            ..self
        }
    }

    pub open spec fn set_parent_class(self, name: Seq<u8>) -> ClassLikeView {
        ClassLikeView {
            direct_parent_class: Some(name),
            all_parent_classes: with_item(self.all_parent_classes, name),
            ..self
        }
    }

    pub open spec fn add_used_trait(self, name: Seq<u8>) -> ClassLikeView {
        ClassLikeView {
            used_traits: with_item(self.used_traits, name),
            ..self
        }
    }

    pub open spec fn add_trait_alias(self, method: Seq<u8>, alias: Seq<u8>) -> ClassLikeView {
        ClassLikeView {
            trait_alias_map: self.trait_alias_map.insert(method, alias),
            ..self
        }
    }

    pub open spec fn add_trait_visibility(self, method: Seq<u8>, visibility: Visibility) -> ClassLikeView {
        ClassLikeView {
            trait_visibility_map: self.trait_visibility_map.insert(method, visibility),
            ..self
        }
    }

    pub open spec fn add_trait_final(self, method: Seq<u8>) -> ClassLikeView {
        ClassLikeView {
            trait_final_map: with_item(self.trait_final_map, method),
            ..self
        }
    }

    pub open spec fn add_template_type(self, name: Seq<u8>, definition: GenericTemplateView) -> ClassLikeView {
        ClassLikeView {
            template_types: self.template_types.insert(name, definition),
            template_names: keys_with(self.template_names, self.template_types, name),
            ..self
        }
    }

    pub open spec fn add_template_readonly(self, name: Seq<u8>) -> ClassLikeView {
        ClassLikeView {
            template_readonly: with_item(self.template_readonly, name),
            ..self
        }
    }

    pub open spec fn add_template_variance(self, variance: Variance) -> ClassLikeView {
        ClassLikeView {
            template_variance: self.template_variance.push(variance),
            ..self
        }
    }

    pub open spec fn add_template_extended_offset(self, name: Seq<u8>, types: Seq<UnionView>) -> ClassLikeView {
        ClassLikeView {
            template_extended_offsets: self.template_extended_offsets.insert(name, types),
            ..self
        }
    }

    pub open spec fn set_extends_count(self, name: Seq<u8>, count: usize) -> ClassLikeView {
        ClassLikeView {
            template_type_extends_count: self.template_type_extends_count.insert(name, count),
            ..self
        }
    }

    pub open spec fn set_implements_count(self, name: Seq<u8>, count: usize) -> ClassLikeView {
        ClassLikeView {
            template_type_implements_count: self.template_type_implements_count.insert(name, count),
            ..self
        }
    }

    pub open spec fn set_uses_count(self, name: Seq<u8>, count: usize) -> ClassLikeView {
        ClassLikeView {
            template_type_uses_count: self.template_type_uses_count.insert(name, count),
            ..self
        }
    }

    pub open spec fn add_imported_alias(self, alias: Seq<u8>, import: ImportedTypeAliasView) -> ClassLikeView {
        ClassLikeView {
            imported_type_aliases: self.imported_type_aliases.insert(alias, import),
            imported_alias_names: keys_with(self.imported_alias_names, self.imported_type_aliases, alias),
            ..self
        }
    }

    pub open spec fn add_type_alias(self, alias: Seq<u8>, aliased: TypeView) -> ClassLikeView {
        ClassLikeView {
            type_aliases: self.type_aliases.insert(alias, aliased),
            type_alias_names: keys_with(self.type_alias_names, self.type_aliases, alias),
            ..self
        }
    }

    pub open spec fn add_require_extends(self, name: Seq<u8>) -> ClassLikeView {
        ClassLikeView {
            require_extends: with_item(self.require_extends, name),
            ..self
        }
    }

    pub open spec fn add_require_implements(self, name: Seq<u8>) -> ClassLikeView {
        ClassLikeView {
            require_implements: with_item(self.require_implements, name),
            ..self
        }
    }

    pub open spec fn add_permitted_inheritor(self, name: Seq<u8>) -> ClassLikeView {
        ClassLikeView {
            permitted_inheritors: match self.permitted_inheritors {
                Some(known) => Some(with_item(known, name)),
                None => Some(seq![name]),
            },
            ..self
        }
    }

    pub open spec fn add_mixin(self, mixin: TypeView) -> ClassLikeView {
        ClassLikeView {
            mixins: self.mixins.push(mixin),
            ..self
        }
    }

    pub open spec fn add_declaring_method_id(self, method: Seq<u8>, id: (Seq<u8>, Seq<u8>)) -> ClassLikeView {
        ClassLikeView {
            declaring_method_ids: self.declaring_method_ids.insert(method, id),
            appearing_method_ids: self.appearing_method_ids.insert(method, id),
            ..self
        }
    }

    /// A method, and that it is inherited from here.
    pub open spec fn add_inheritable_method(self, method: Seq<u8>, id: (Seq<u8>, Seq<u8>)) -> ClassLikeView {
        ClassLikeView {
            methods: with_item(self.methods, method),
            inheritable_method_ids: self.inheritable_method_ids.insert(method, id),
            ..self
        }
    }

    pub open spec fn add_pseudo_method(self, method: Seq<u8>) -> ClassLikeView {
        ClassLikeView {
            pseudo_methods: with_item(self.pseudo_methods, method),
            ..self
        }
    }

    /// A property that only a docblock declares.
    pub open spec fn add_magic_property(self, property: PropertyView) -> ClassLikeView {
        ClassLikeView {
            magic_properties: self.magic_properties.insert(property.name, property),
            magic_property_ids: self.magic_property_ids.insert(property.name, self.name),
            ..self
        }
    }

    pub open spec fn change_magic_property(self, name: Seq<u8>, property: PropertyView) -> ClassLikeView {
        ClassLikeView {
            magic_properties: self.magic_properties.insert(name, property),
            ..self
        }
    }

    pub open spec fn seal_properties(self, sealed: bool) -> ClassLikeView {
        ClassLikeView {
            has_sealed_properties: Some(sealed),
            ..self
        }
    }

    pub open spec fn seal_methods(self, sealed: bool) -> ClassLikeView {
        ClassLikeView {
            has_sealed_methods: Some(sealed),
            ..self
        }
    }

    /// A property that the class-like declares.
    pub open spec fn add_property_metadata(self, property: PropertyView) -> ClassLikeView {
        ClassLikeView {
            properties: self.properties.insert(property.name, property),
            declaring_property_ids: self.declaring_property_ids.insert(property.name, self.name),
            declaring_property_names: keys_with(self.declaring_property_names, self.declaring_property_ids, property.name),
            appearing_property_ids: self.appearing_property_ids.insert(property.name, self.name),
            initialized_properties: if property.flags.has_default {
                with_item(self.initialized_properties, property.name)
            } else {
                self.initialized_properties
            },
            ..self
        }
    }

    pub open spec fn add_constant(self, constant: ClassLikeConstantView) -> ClassLikeView {
        ClassLikeView {
            constants: self.constants.insert(constant.name, constant),
            ..self
        }
    }

    pub open spec fn add_enum_case(self, case: EnumCaseView) -> ClassLikeView {
        ClassLikeView {
            enum_cases: self.enum_cases.insert(case.name, case),
            enum_case_names: keys_with(self.enum_case_names, self.enum_cases, case.name),
            ..self
        }
    }
}

impl ClassLikeMetadata {
    pub fn report(&mut self, issue: Issue)
        ensures
            final(self)@ == old(self)@.report(issue@),
    {
        broadcast use lemma_views_push;

        self.issues.push(issue);
        assert(self@ =~= old(self)@.report(issue@));
    }

    /// The flags that hold, and those of `flags`.
    pub fn add_flags(&mut self, flags: MetadataFlags)
        ensures
            final(self)@ == old(self)@.add_flags(flags),
    {
        self.flags = self.flags.union(flags);
        assert(self@ =~= old(self)@.add_flags(flags));
    }

    pub fn add_direct_parent_interface(&mut self, name: Word)
        ensures
            final(self)@ == old(self)@.add_direct_parent_interface(name@),
    {
        let _ = self.all_parent_interfaces.insert(copy_word(name.as_slice()));
        let _ = self.direct_parent_interfaces.insert(name);
        assert(self@ =~= old(self)@.add_direct_parent_interface(name@));
    }

    pub fn set_parent_class(&mut self, name: Word)
        ensures
            final(self)@ == old(self)@.set_parent_class(name@),
    {
        let _ = self.all_parent_classes.insert(copy_word(name.as_slice()));
        self.direct_parent_class = Some(name);
        assert(self@ =~= old(self)@.set_parent_class(name@));
    }

    pub fn add_used_trait(&mut self, name: Word)
        ensures
            final(self)@ == old(self)@.add_used_trait(name@),
    {
        let _ = self.used_traits.insert(name);
        assert(self@ =~= old(self)@.add_used_trait(name@));
    }

    pub fn add_trait_alias(&mut self, method: Word, alias: Word)
        ensures
            final(self)@ == old(self)@.add_trait_alias(method@, alias@),
    {
        self.trait_alias_map.insert(method, alias);
        assert(self@ =~= old(self)@.add_trait_alias(method@, alias@));
    }

    pub fn add_trait_visibility(&mut self, method: Word, visibility: Visibility)
        ensures
            final(self)@ == old(self)@.add_trait_visibility(method@, visibility),
    {
        self.trait_visibility_map.insert(method, visibility);
        assert(self@ =~= old(self)@.add_trait_visibility(method@, visibility));
    }

    pub fn add_trait_final(&mut self, method: Word)
        ensures
            final(self)@ == old(self)@.add_trait_final(method@),
    {
        let _ = self.trait_final_map.insert(method);
        assert(self@ =~= old(self)@.add_trait_final(method@));
    }

    pub fn add_template_type(&mut self, name: Word, definition: GenericTemplate)
        ensures
            final(self)@ == old(self)@.add_template_type(name@, definition@),
    {
        self.template_types.insert(name, definition);
        assert(self@ =~= old(self)@.add_template_type(name@, definition@));
    }

    pub fn add_template_readonly(&mut self, name: Word)
        ensures
            final(self)@ == old(self)@.add_template_readonly(name@),
    {
        let _ = self.template_readonly.insert(name);
        assert(self@ =~= old(self)@.add_template_readonly(name@));
    }

    pub fn add_template_variance(&mut self, variance: Variance)
        ensures
            final(self)@ == old(self)@.add_template_variance(variance),
    {
        broadcast use lemma_views_push;

        self.template_variance.push(variance);
        assert(self@ =~= old(self)@.add_template_variance(variance));
    }

    pub fn add_template_extended_offset(&mut self, name: Word, types: TypeList)
        ensures
            final(self)@ == old(self)@.add_template_extended_offset(name@, types@),
    {
        self.template_extended_offsets.insert(name, types);
        assert(self@ =~= old(self)@.add_template_extended_offset(name@, types@));
    }

    pub fn set_extends_count(&mut self, name: Word, count: usize)
        ensures
            final(self)@ == old(self)@.set_extends_count(name@, count),
    {
        self.template_type_extends_count.insert(name, count);
        assert(self@ =~= old(self)@.set_extends_count(name@, count));
    }

    pub fn set_implements_count(&mut self, name: Word, count: usize)
        ensures
            final(self)@ == old(self)@.set_implements_count(name@, count),
    {
        self.template_type_implements_count.insert(name, count);
        assert(self@ =~= old(self)@.set_implements_count(name@, count));
    }

    pub fn set_uses_count(&mut self, name: Word, count: usize)
        ensures
            final(self)@ == old(self)@.set_uses_count(name@, count),
    {
        self.template_type_uses_count.insert(name, count);
        assert(self@ =~= old(self)@.set_uses_count(name@, count));
    }

    pub fn add_imported_alias(&mut self, alias: Word, import: ImportedTypeAlias)
        ensures
            final(self)@ == old(self)@.add_imported_alias(alias@, import@),
    {
        self.imported_type_aliases.insert(alias, import);
        assert(self@ =~= old(self)@.add_imported_alias(alias@, import@));
    }

    pub fn add_type_alias(&mut self, alias: Word, aliased: TypeMetadata)
        ensures
            final(self)@ == old(self)@.add_type_alias(alias@, aliased@),
    {
        self.type_aliases.insert(alias, aliased);
        assert(self@ =~= old(self)@.add_type_alias(alias@, aliased@));
    }

    pub fn add_require_extends(&mut self, name: Word)
        ensures
            final(self)@ == old(self)@.add_require_extends(name@),
    {
        let _ = self.require_extends.insert(name);
        assert(self@ =~= old(self)@.add_require_extends(name@));
    }

    pub fn add_require_implements(&mut self, name: Word)
        ensures
            final(self)@ == old(self)@.add_require_implements(name@),
    {
        let _ = self.require_implements.insert(name);
        assert(self@ =~= old(self)@.add_require_implements(name@));
    }

    pub fn add_permitted_inheritor(&mut self, name: Word)
        ensures
            final(self)@ == old(self)@.add_permitted_inheritor(name@),
    {
        let mut known: WordSet = match &self.permitted_inheritors {
            Some(known) => known.copy(),
            None => WordSet::new(),
        };
        let ghost before = known@;
        let _ = known.insert(name);
        assert(before.len() == 0 ==> known@ =~= seq![name@]);
        self.permitted_inheritors = Some(known);
        assert(self@ =~= old(self)@.add_permitted_inheritor(name@));
    }

    pub fn add_mixin(&mut self, mixin: TypeMetadata)
        ensures
            final(self)@ == old(self)@.add_mixin(mixin@),
    {
        broadcast use lemma_views_push;

        self.mixins.push(mixin);
        assert(self@ =~= old(self)@.add_mixin(mixin@));
    }

    pub fn add_declaring_method_id(&mut self, method: Word, id: MethodIdentifier)
        ensures
            final(self)@ == old(self)@.add_declaring_method_id(method@, id@),
    {
        self.appearing_method_ids.insert(
            copy_word(method.as_slice()),
            MethodIdentifier::new(&id.class_name, &id.method_name),
        );
        self.declaring_method_ids.insert(method, id);
        assert(self@ =~= old(self)@.add_declaring_method_id(method@, id@));
    }

    /// A method, and that it is inherited from here.
    pub fn add_inheritable_method(&mut self, method: Word, id: MethodIdentifier)
        ensures
            final(self)@ == old(self)@.add_inheritable_method(method@, id@),
    {
        let _ = self.methods.insert(copy_word(method.as_slice()));
        self.inheritable_method_ids.insert(method, id);
        assert(self@ =~= old(self)@.add_inheritable_method(method@, id@));
    }

    pub fn add_pseudo_method(&mut self, method: Word)
        ensures
            final(self)@ == old(self)@.add_pseudo_method(method@),
    {
        let _ = self.pseudo_methods.insert(method);
        assert(self@ =~= old(self)@.add_pseudo_method(method@));
    }

    /// A property that only a docblock declares.
    pub fn add_magic_property(&mut self, property: PropertyMetadata)
        ensures
            final(self)@ == old(self)@.add_magic_property(property@),
    {
        self.magic_property_ids.insert(copy_word(property.name.as_slice()), copy_word(self.name.as_slice()));
        self.magic_properties.insert(copy_word(property.name.as_slice()), property);
        assert(self@ =~= old(self)@.add_magic_property(property@));
    }

    pub fn change_magic_property(&mut self, name: Word, property: PropertyMetadata)
        ensures
            final(self)@ == old(self)@.change_magic_property(name@, property@),
    {
        self.magic_properties.insert(name, property);
        assert(self@ =~= old(self)@.change_magic_property(name@, property@));
    }

    pub fn seal_properties(&mut self, sealed: bool)
        ensures
            final(self)@ == old(self)@.seal_properties(sealed),
    {
        self.has_sealed_properties = Some(sealed);
        assert(self@ =~= old(self)@.seal_properties(sealed));
    }

    pub fn seal_methods(&mut self, sealed: bool)
        ensures
            final(self)@ == old(self)@.seal_methods(sealed),
    {
        self.has_sealed_methods = Some(sealed);
        assert(self@ =~= old(self)@.seal_methods(sealed));
    }

    /// A property that the class-like declares.
    pub fn add_property_metadata(&mut self, property: PropertyMetadata)
        ensures
            final(self)@ == old(self)@.add_property_metadata(property@),
    {
        self.declaring_property_ids.insert(copy_word(property.name.as_slice()), copy_word(self.name.as_slice()));
        self.appearing_property_ids.insert(copy_word(property.name.as_slice()), copy_word(self.name.as_slice()));
        if property.flags.has_default {
            let _ = self.initialized_properties.insert(copy_word(property.name.as_slice()));
        }
        self.properties.insert(copy_word(property.name.as_slice()), property);
        assert(self@ =~= old(self)@.add_property_metadata(property@));
    }

    pub fn add_constant(&mut self, constant: ClassLikeConstantMetadata)
        ensures
            final(self)@ == old(self)@.add_constant(constant@),
    {
        self.constants.insert(copy_word(constant.name.as_slice()), constant);
        assert(self@ =~= old(self)@.add_constant(constant@));
    }

    pub fn add_enum_case(&mut self, case: EnumCaseMetadata)
        ensures
            final(self)@ == old(self)@.add_enum_case(case@),
    {
        self.enum_cases.insert(copy_word(case.name.as_slice()), case);
        assert(self@ =~= old(self)@.add_enum_case(case@));
    }
}

} // verus!

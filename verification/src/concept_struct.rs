//! The struct of a concept: its definition, and how it becomes an entity and is read from one.
use crate::fields::{
    all_forms, are_printable, are_usable, components_to_fields, doc_attribute, field_models,
    fields_of, path_references, printable_components_have_fields, quote_all_forms,
    quote_doc_attribute, quote_path_references, ComponentField, FieldForm, FieldModel,
};
use crate::items::{Concept, ConceptId, ItemMap, PrintError, TypePrinter};
use crate::text::{joined, trimmed};
use crate::tokens::{is_identifier, stream_tokens, template, Quote, Template, Token};
use proc_macro2::TokenStream;
use vstd::prelude::*;

verus! {

/// The name of a concept for documentation: its own name, or else its identifier.
pub open spec fn display_name(concept: Concept) -> Seq<char> {
    match concept.name {
        Some(name) => name@,
        None => concept.id@,
    }
}

/// The paths of the concepts that a concept extends, for documentation.
pub open spec fn extended_paths(items: ItemMap, extends: Seq<ConceptId>) -> Seq<Seq<char>> {
    extends.map_values(|id: ConceptId| items.concept(id).display_path@)
}

/// The paths of the concepts that a concept extends, each between backquotes.
pub open spec fn quoted_extended_paths(items: ItemMap, extends: Seq<ConceptId>) -> Seq<Seq<char>> {
    extends.map_values(|id: ConceptId| "`"@ + items.concept(id).display_path@ + "`"@)
}

/// The first line of the documentation of a concept's struct.
pub open spec fn struct_headline(concept: Concept) -> Seq<char> {
    let title = "**"@ + display_name(concept) + "**"@;
    match concept.description {
        Some(description) => title + ": "@ + description@,
        None => title,
    }
}

/// The documentation of a concept's struct.
pub open spec fn struct_doc(items: ItemMap, concept: Concept) -> Seq<char> {
    let headline = struct_headline(concept) + "\n\n"@;
    if concept.extends@.len() > 0 {
        trimmed(
            headline + "**Extends**: "@ + joined(
                quoted_extended_paths(items, concept.extends@),
                ", "@,
            ) + "\n\n"@,
        )
    } else {
        trimmed(headline)
    }
}

/// The name of the struct that holds the optional components of a concept.
pub open spec fn optional_name(id: Seq<char>) -> Seq<char> {
    id + "Optional"@
}

/// The documentation of the struct that holds the optional components of a concept.
pub open spec fn optional_doc(id: Seq<char>) -> Seq<char> {
    "Optional part of ["@ + id + "]."@
}

/// `#[derive(Clone, Debug)]`
pub open spec fn after_derive(attributes: Seq<Token>) -> Seq<Token> {
    attributes.punct('#').brackets(
        template().ident("derive").parens(template().ident("Clone").punct(',').ident("Debug")),
    )
}

/// `/// Optional components.` and `pub optional: name,`, where there are optional components
pub open spec fn optional_reference(
    id: Seq<char>,
    optional: Seq<FieldModel>,
) -> Seq<Token> {
    if optional.len() > 0 {
        template().punct('#').brackets(
            template().ident("doc").punct('=').raw_string(" Optional components."@),
        ).ident("pub").ident("optional").punct(':').name(optional_name(id)).punct(',')
    } else {
        template()
    }
}

/// The definition of a concept's struct.
pub open spec fn struct_definition(
    doc: Seq<char>,
    id: Seq<char>,
    required: Seq<FieldModel>,
    optional: Seq<FieldModel>,
) -> Seq<Token> {
    after_derive(doc_attribute(doc)).ident("pub").ident("struct").name(id).braces(
        all_forms(FieldForm::Definition, required).tokens(optional_reference(id, optional)),
    )
}

/// The definition of the struct that holds the optional components, where there are any.
pub open spec fn optional_struct_definition(
    id: Seq<char>,
    optional: Seq<FieldModel>,
) -> Seq<Token> {
    if optional.len() > 0 {
        doc_attribute(optional_doc(id)).punct('#').brackets(
            template().ident("derive").parens(
                template().ident("Clone").punct(',').ident("Debug").punct(',').ident("Default"),
            ),
        ).ident("pub").ident("struct").name(optional_name(id)).braces(
            all_forms(FieldForm::OptionDefinition, optional),
        )
    } else {
        template()
    }
}

/// `fn make(self) -> Entity`: the entity with the components of the struct.
pub open spec fn make_method(
    required: Seq<FieldModel>,
    optional: Seq<FieldModel>,
) -> Seq<Token> {
    template().ident("fn").ident("make").parens(template().ident("self")).joint('-').punct(
        '>',
    ).ident("Entity").braces(
        template().ident("let").ident("mut").ident("entity").punct('=').ident("Entity").joint(
            ':',
        ).punct(':').ident("new").parens(template()).tokens(
            all_forms(FieldForm::WithCall, required),
        ).punct(';').tokens(all_forms(FieldForm::SetIfSome, optional)).ident("entity"),
    )
}

/// `-> Option<Self> { Some(Self { ... }) }`, with the initializers of the required components
/// and, where there are optional ones, of the struct that holds them
pub open spec fn after_reading(
    signature: Seq<Token>,
    optional_id: Seq<char>,
    required_form: FieldForm,
    required: Seq<FieldModel>,
    optional_form: FieldForm,
    optional: Seq<FieldModel>,
) -> Seq<Token> {
    let initializers = all_forms(required_form, required);
    let members = if optional.len() > 0 {
        initializers.ident("optional").punct(':').name(optional_id).braces(
            all_forms(optional_form, optional),
        )
    } else {
        initializers
    };
    signature.joint('-').punct('>').ident("Option").punct('<').ident("Self").punct('>').braces(
        template().ident("Some").parens(template().ident("Self").braces(members)),
    )
}

/// `fn get_spawned(id: EntityId)`: the struct, read from a spawned entity.
pub open spec fn get_spawned_method(
    id: Seq<char>,
    required: Seq<FieldModel>,
    optional: Seq<FieldModel>,
) -> Seq<Token> {
    after_reading(
        template().ident("fn").ident("get_spawned").parens(
            template().ident("id").punct(':').ident("EntityId"),
        ),
        optional_name(id),
        FieldForm::Spawned,
        required,
        FieldForm::SpawnedOption,
        optional,
    )
}

/// `fn get_unspawned(entity: &Entity)`: the struct, read from an entity that is not spawned.
pub open spec fn get_unspawned_method(
    id: Seq<char>,
    required: Seq<FieldModel>,
    optional: Seq<FieldModel>,
) -> Seq<Token> {
    after_reading(
        template().ident("fn").ident("get_unspawned").parens(
            template().ident("entity").punct(':').punct('&').ident("Entity"),
        ),
        optional_name(id),
        FieldForm::Unspawned,
        required,
        FieldForm::UnspawnedOption,
        optional,
    )
}

/// `fn contained_by_spawned(id: EntityId) -> bool` and
/// `fn contained_by_unspawned(entity: &Entity) -> bool`: whether an entity has all the required
/// components.
pub open spec fn contained_by_methods(required: Seq<FieldModel>) -> Seq<Token> {
    template().ident("fn").ident("contained_by_spawned").parens(
        template().ident("id").punct(':').ident("EntityId"),
    ).joint('-').punct('>').ident("bool").braces(
        template().ident("entity").joint(':').punct(':').ident("has_components").parens(
            template().ident("id").punct(',').punct('&').brackets(path_references(required)),
        ),
    ).ident("fn").ident("contained_by_unspawned").parens(
        template().ident("entity").punct(':').punct('&').ident("Entity"),
    ).joint('-').punct('>').ident("bool").braces(
        template().ident("entity").punct('.').ident("has_components").parens(
            template().punct('&').brackets(path_references(required)),
        ),
    )
}

/// The struct of a concept with all that belongs to it.
pub open spec fn struct_tokens(
    api_path: Seq<Token>,
    doc: Seq<char>,
    id: Seq<char>,
    required: Seq<FieldModel>,
    optional: Seq<FieldModel>,
) -> Seq<Token> {
    struct_definition(doc, id, required, optional).tokens(
        optional_struct_definition(id, optional),
    ).ident("impl").tokens(api_path).joint(':').punct(':').ident("ecs").joint(':').punct(
        ':',
    ).ident("Concept").ident("for").name(id).braces(
        make_method(required, optional).tokens(get_spawned_method(id, required, optional)).tokens(
            get_unspawned_method(id, required, optional),
        ).tokens(contained_by_methods(required)),
    )
}

/// Whether the types and the paths of all components of a concept can be printed.
pub open spec fn is_printable(items: ItemMap, printer: TypePrinter, concept: Concept) -> bool {
    &&& are_printable(items, printer, concept.required_components@)
    &&& are_printable(items, printer, concept.optional_components@)
}

/// Whether what the struct of a concept needs is there. Nothing is asked of what stands behind a
/// component that can not be printed; the concepts that the concept extends come last.
pub open spec fn struct_is_writable(
    items: ItemMap,
    printer: TypePrinter,
    concept: Concept,
) -> bool {
    &&& are_usable(items, printer, concept.required_components@)
    &&& are_printable(items, printer, concept.required_components@) ==> are_usable(
        items,
        printer,
        concept.optional_components@,
    )
    &&& is_printable(items, printer, concept) ==> items.has_all_concepts(concept.extends@)
}

/// The struct of a concept, or the error of the first component that cannot be printed: the
/// required components come first, then the optional ones.
pub open spec fn concept_struct(
    items: ItemMap,
    printer: TypePrinter,
    api_path: Seq<Token>,
    concept: Concept,
) -> Result<Seq<Token>, Seq<char>> {
    match fields_of(items, printer, concept.required_components@) {
        Err(message) => Err(message),
        Ok(required) => match fields_of(items, printer, concept.optional_components@) {
            Err(message) => Err(message),
            Ok(optional) => Ok(
                struct_tokens(
                    api_path,
                    struct_doc(items, concept),
                    concept.id@,
                    required,
                    optional,
                ),
            ),
        },
    }
}

/// The words of these definitions are identifiers.
proof fn words_are_identifiers()
    ensures
        is_identifier("Clone"@),
        is_identifier("Concept"@),
        is_identifier("Debug"@),
        is_identifier("Default"@),
        is_identifier("Entity"@),
        is_identifier("EntityId"@),
        is_identifier("Option"@),
        is_identifier("Self"@),
        is_identifier("Some"@),
        is_identifier("bool"@),
        is_identifier("contained_by_spawned"@),
        is_identifier("contained_by_unspawned"@),
        is_identifier("derive"@),
        is_identifier("doc"@),
        is_identifier("ecs"@),
        is_identifier("entity"@),
        is_identifier("fn"@),
        is_identifier("for"@),
        is_identifier("get_spawned"@),
        is_identifier("get_unspawned"@),
        is_identifier("has_components"@),
        is_identifier("id"@),
        is_identifier("impl"@),
        is_identifier("let"@),
        is_identifier("make"@),
        is_identifier("mut"@),
        is_identifier("new"@),
        is_identifier("optional"@),
        is_identifier("pub"@),
        is_identifier("self"@),
        is_identifier("struct"@),
{
    reveal_strlit("Clone");
    reveal_strlit("Concept");
    reveal_strlit("Debug");
    reveal_strlit("Default");
    reveal_strlit("Entity");
    reveal_strlit("EntityId");
    reveal_strlit("Option");
    reveal_strlit("Self");
    reveal_strlit("Some");
    reveal_strlit("bool");
    reveal_strlit("contained_by_spawned");
    reveal_strlit("contained_by_unspawned");
    reveal_strlit("derive");
    reveal_strlit("doc");
    reveal_strlit("ecs");
    reveal_strlit("entity");
    reveal_strlit("fn");
    reveal_strlit("for");
    reveal_strlit("get_spawned");
    reveal_strlit("get_unspawned");
    reveal_strlit("has_components");
    reveal_strlit("id");
    reveal_strlit("impl");
    reveal_strlit("let");
    reveal_strlit("make");
    reveal_strlit("mut");
    reveal_strlit("new");
    reveal_strlit("optional");
    reveal_strlit("pub");
    reveal_strlit("self");
    reveal_strlit("struct");
}

/// Appends the display name of a concept.
pub(crate) fn write_display_name(out: &mut String, concept: &Concept)
    ensures
        final(out)@ == old(out)@ + display_name(*concept),
{
    match &concept.name {
        Some(name) => out.append(name.as_str()),
        None => out.append(concept.id.as_str()),
    }
}

/// Appends the paths of the concepts that a concept extends, each between two marks, with commas
/// between them.
pub(crate) fn write_extended_paths(
    out: &mut String,
    items: &ItemMap,
    extends: &Vec<ConceptId>,
    mark: &str,
)
    requires
        items.has_all_concepts(extends@),
    ensures
        final(out)@ == old(out)@ + joined(
            extends@.map_values(
                |id: ConceptId| mark@ + items.concept(id).display_path@ + mark@,
            ),
            ", "@,
        ),
{
    let ghost start = out@;
    let ghost paths = extends@.map_values(
        |id: ConceptId| mark@ + items.concept(id).display_path@ + mark@,
    );
    let mut i: usize = 0;
    assert(out@ =~= start + joined(paths.take(0), ", "@));
    while i < extends.len()
        invariant
            i <= extends.len(),
            items.has_all_concepts(extends@),
            paths == extends@.map_values(
                |id: ConceptId| mark@ + items.concept(id).display_path@ + mark@,
            ),
            out@ == start + joined(paths.take(i as int), ", "@),
        decreases extends.len() - i,
    {
        assert(paths.take(i + 1).drop_last() =~= paths.take(i as int));
        let extend = items.get_concept(extends[i]);
        if i != 0 {
            out.append(", ");
        }
        out.append(mark);
        out.append(extend.display_path.as_str());
        out.append(mark);
        assert(paths[i as int] == mark@ + extend.display_path@ + mark@);
        assert(out@ =~= start + joined(paths.take(i + 1), ", "@));
        i = i + 1;
    }
    assert(paths.take(i as int) =~= paths);
}

/// The documentation of a concept's struct.
pub fn struct_doc_comment(items: &ItemMap, concept: &Concept) -> (r: String)
    requires
        items.has_all_concepts(concept.extends@),
    ensures
        r@ == struct_doc(*items, *concept),
{
    let mut doc_comment = String::new();
    doc_comment.append("**");
    write_display_name(&mut doc_comment, concept);
    doc_comment.append("**");
    if let Some(description) = &concept.description {
        doc_comment.append(": ");
        doc_comment.append(description.as_str());
    }
    assert(doc_comment@ =~= struct_headline(*concept));
    doc_comment.append("\n\n");
    if concept.extends.len() > 0 {
        doc_comment.append("**Extends**: ");
        write_extended_paths(&mut doc_comment, items, &concept.extends, "`");
        doc_comment.append("\n\n");
        assert(doc_comment@ =~= struct_headline(*concept) + "\n\n"@ + "**Extends**: "@ + joined(
            quoted_extended_paths(*items, concept.extends@),
            ", "@,
        ) + "\n\n"@);
    }
    doc_comment.as_str().trim().to_owned()
}

/// The name of the struct that holds the optional components of a concept.
fn optional_identifier(id: &str) -> (r: String)
    requires
        is_identifier(id@),
    ensures
        r@ == optional_name(id@),
        is_identifier(r@),
{
    let mut name = id.to_owned();
    name.append("Optional");
    proof {
        reveal_strlit("Optional");
        assert(name@[0] == id@[0]);
    }
    name
}

/// The definition of a concept's struct.
fn quote_struct_definition<'a>(
    doc: &str,
    id: &str,
    optional_id: &str,
    required: &Vec<ComponentField<'a>>,
    optional: &Vec<ComponentField<'a>>,
) -> (r: Quote)
    requires
        is_identifier(id@),
        is_identifier(optional_id@),
        optional_id@ == optional_name(id@),
    ensures
        r@ == struct_definition(
            doc@,
            id@,
            field_models(required@),
            field_models(optional@),
        ),
{
    proof {
        words_are_identifiers();
        reveal_strlit(" Optional components.");
    }
    let reference = if optional.len() > 0 {
        Quote::new().punct('#').brackets(
            Quote::new().ident("doc").punct('=').raw_string(" Optional components."),
        ).ident("pub").ident("optional").punct(':').ident(optional_id).punct(',')
    } else {
        Quote::new()
    };
    quote_doc_attribute(doc).punct('#').brackets(
        Quote::new().ident("derive").parens(Quote::new().ident("Clone").punct(',').ident("Debug")),
    ).ident("pub").ident("struct").ident(id).braces(
        quote_all_forms(FieldForm::Definition, required).tokens(reference),
    )
}

/// The definition of the struct that holds the optional components, where there are any.
fn quote_optional_struct_definition<'a>(
    id: &str,
    optional_id: &str,
    optional: &Vec<ComponentField<'a>>,
) -> (r: Quote)
    requires
        is_identifier(optional_id@),
        optional_id@ == optional_name(id@),
    ensures
        r@ == optional_struct_definition(id@, field_models(optional@)),
{
    proof {
        words_are_identifiers();
    }
    if optional.len() > 0 {
        let mut doc = String::new();
        doc.append("Optional part of [");
        doc.append(id);
        doc.append("].");
        assert(doc@ =~= optional_doc(id@));
        quote_doc_attribute(doc.as_str()).punct('#').brackets(
            Quote::new().ident("derive").parens(
                Quote::new().ident("Clone").punct(',').ident("Debug").punct(',').ident("Default"),
            ),
        ).ident("pub").ident("struct").ident(optional_id).braces(
            quote_all_forms(FieldForm::OptionDefinition, optional),
        )
    } else {
        Quote::new()
    }
}

/// `fn make(self) -> Entity`
fn quote_make_method<'a>(
    required: &Vec<ComponentField<'a>>,
    optional: &Vec<ComponentField<'a>>,
) -> (r: Quote)
    ensures
        r@ == make_method(field_models(required@), field_models(optional@)),
{
    proof {
        words_are_identifiers();
    }
    Quote::new().ident("fn").ident("make").parens(Quote::new().ident("self")).joint('-').punct(
        '>',
    ).ident("Entity").braces(
        Quote::new().ident("let").ident("mut").ident("entity").punct('=').ident("Entity").joint(
            ':',
        ).punct(':').ident("new").parens(Quote::new()).tokens(
            quote_all_forms(FieldForm::WithCall, required),
        ).punct(';').tokens(quote_all_forms(FieldForm::SetIfSome, optional)).ident("entity"),
    )
}

/// `-> Option<Self> { Some(Self { ... }) }`
fn quote_reading<'a>(
    signature: Quote,
    optional_id: &str,
    required_form: FieldForm,
    required: &Vec<ComponentField<'a>>,
    optional_form: FieldForm,
    optional: &Vec<ComponentField<'a>>,
) -> (r: Quote)
    requires
        is_identifier(optional_id@),
    ensures
        r@ == after_reading(
            signature@,
            optional_id@,
            required_form,
            field_models(required@),
            optional_form,
            field_models(optional@),
        ),
{
    proof {
        words_are_identifiers();
    }
    let initializers = quote_all_forms(required_form, required);
    let members = if optional.len() > 0 {
        initializers.ident("optional").punct(':').ident(optional_id).braces(
            quote_all_forms(optional_form, optional),
        )
    } else {
        initializers
    };
    signature.joint('-').punct('>').ident("Option").punct('<').ident("Self").punct('>').braces(
        Quote::new().ident("Some").parens(Quote::new().ident("Self").braces(members)),
    )
}

/// `fn contained_by_spawned(id: EntityId) -> bool` and
/// `fn contained_by_unspawned(entity: &Entity) -> bool`
fn quote_contained_by_methods<'a>(required: &Vec<ComponentField<'a>>) -> (r: Quote)
    ensures
        r@ == contained_by_methods(field_models(required@)),
{
    proof {
        words_are_identifiers();
    }
    Quote::new().ident("fn").ident("contained_by_spawned").parens(
        Quote::new().ident("id").punct(':').ident("EntityId"),
    ).joint('-').punct('>').ident("bool").braces(
        Quote::new().ident("entity").joint(':').punct(':').ident("has_components").parens(
            Quote::new().ident("id").punct(',').punct('&').brackets(
                quote_path_references(required),
            ),
        ),
    ).ident("fn").ident("contained_by_unspawned").parens(
        Quote::new().ident("entity").punct(':').punct('&').ident("Entity"),
    ).joint('-').punct('>').ident("bool").braces(
        Quote::new().ident("entity").punct('.').ident("has_components").parens(
            Quote::new().punct('&').brackets(quote_path_references(required)),
        ),
    )
}

/// The struct of a concept with all that belongs to it.
pub fn generate(
    items: &ItemMap,
    type_printer: &TypePrinter,
    guest_api_path: &TokenStream,
    concept: &Concept,
) -> (r: Result<TokenStream, PrintError>)
    requires
        struct_is_writable(*items, *type_printer, *concept),
    ensures
        match r {
            Ok(stream) => concept_struct(
                *items,
                *type_printer,
                stream_tokens(*guest_api_path),
                *concept,
            ) == Ok::<Seq<Token>, Seq<char>>(stream_tokens(stream)),
            Err(error) => concept_struct(
                *items,
                *type_printer,
                stream_tokens(*guest_api_path),
                *concept,
            ) == Err::<Seq<Token>, Seq<char>>(error.message@),
        },
{
    proof {
        words_are_identifiers();
        printable_components_have_fields(*items, *type_printer, concept.required_components@);
        printable_components_have_fields(*items, *type_printer, concept.optional_components@);
    }
    let required = match components_to_fields(items, type_printer, &concept.required_components) {
        Ok(fields) => fields,
        Err(error) => {
            return Err(error);
        },
    };
    let optional = match components_to_fields(items, type_printer, &concept.optional_components) {
        Ok(fields) => fields,
        Err(error) => {
            return Err(error);
        },
    };
    let id = concept.id.as_str();
    let optional_id = optional_identifier(id);
    let doc = struct_doc_comment(items, concept);
    let definition = quote_struct_definition(
        doc.as_str(),
        id,
        optional_id.as_str(),
        &required,
        &optional,
    );
    let optional_definition = quote_optional_struct_definition(
        id,
        optional_id.as_str(),
        &optional,
    );
    let make = quote_make_method(&required, &optional);
    let get_spawned = quote_reading(
        Quote::new().ident("fn").ident("get_spawned").parens(
            Quote::new().ident("id").punct(':').ident("EntityId"),
        ),
        optional_id.as_str(),
        FieldForm::Spawned,
        &required,
        FieldForm::SpawnedOption,
        &optional,
    );
    let get_unspawned = quote_reading(
        Quote::new().ident("fn").ident("get_unspawned").parens(
            Quote::new().ident("entity").punct(':').punct('&').ident("Entity"),
        ),
        optional_id.as_str(),
        FieldForm::Unspawned,
        &required,
        FieldForm::UnspawnedOption,
        &optional,
    );
    let contained_by = quote_contained_by_methods(&required);
    let quote = definition.tokens(optional_definition).ident("impl").stream(guest_api_path).joint(
        ':',
    ).punct(':').ident("ecs").joint(':').punct(':').ident("Concept").ident("for").ident(id).braces(
        make.tokens(get_spawned).tokens(get_unspawned).tokens(contained_by),
    );
    Ok(quote.finish())
}

} // verus!

//! What the code for a concept's struct says, whatever the components of the concept are.
use crate::concept_struct::{
    after_reading, concept_struct, contained_by_methods, display_name, get_spawned_method,
    get_unspawned_method, make_method, optional_struct_definition, struct_definition, struct_doc,
    struct_tokens,
};
use crate::field_laws::{
    every_component_has_a_field, every_field_is_referred_to, every_field_is_used, expected_fields,
    forms_use_the_field, has_path, has_type, refers_to_all, the_first_missing_component_counts,
    uses_fields,
};
use crate::fields::{all_forms, field_of, form_tokens, FieldForm, FieldModel};
use crate::items::{Concept, ConceptComponent, ConceptId, ItemMap, TypePrinter};
use crate::text::{joined, trimmed};
use crate::token_laws::{
    concatenations_come_apart, content, equal_parts_stand_in_order, is_arrow, is_documentation,
    is_group, is_path_sign, is_raw_documentation, is_unit, sign, word,
};
use crate::tokens::{Delimiter, Template, Token};
use vstd::prelude::*;

verus! {

// -------------------------------------------------------------------------------------------
// The methods

/// Whether tokens are the body of `make`: `let mut entity = Entity::new()` with all the required
/// fields, whether or not there are optional ones, then the optional fields, then `entity`.
pub open spec fn makes_entity(
    body: Seq<Token>,
    required: Seq<FieldModel>,
    optional: Seq<FieldModel>,
) -> bool {
    let end = 9 + 3 * required.len() as int;
    &&& body.len() == end + 1 + 11 * optional.len() + 1
    &&& body[0] == word("let")
    &&& body[1] == word("mut")
    &&& body[2] == word("entity")
    &&& body[3] == sign('=')
    &&& body[4] == word("Entity")
    &&& is_path_sign(body, 5)
    &&& body[7] == word("new")
    &&& is_unit(body[8])
    &&& uses_fields(body.subrange(9, end), FieldForm::WithCall, required)
    &&& body[end] == sign(';')
    &&& uses_fields(body.subrange(end + 1, body.len() - 1), FieldForm::SetIfSome, optional)
    &&& body.last() == word("entity")
}

/// Whether the tokens at a place are `fn make(self) -> Entity { ... }`.
pub open spec fn is_make(
    tokens: Seq<Token>,
    at: int,
    required: Seq<FieldModel>,
    optional: Seq<FieldModel>,
) -> bool {
    &&& tokens[at] == word("fn")
    &&& tokens[at + 1] == word("make")
    &&& is_group(tokens[at + 2], Delimiter::Parenthesis)
    &&& content(tokens[at + 2]).len() == 1
    &&& content(tokens[at + 2])[0] == word("self")
    &&& is_arrow(tokens, at + 3)
    &&& tokens[at + 5] == word("Entity")
    &&& is_group(tokens[at + 6], Delimiter::Brace)
    &&& makes_entity(content(tokens[at + 6]), required, optional)
}

/// Whether a token is `(id: EntityId)`.
pub open spec fn takes_id(token: Token) -> bool {
    &&& is_group(token, Delimiter::Parenthesis)
    &&& content(token).len() == 3
    &&& content(token)[0] == word("id")
    &&& content(token)[1] == sign(':')
    &&& content(token)[2] == word("EntityId")
}

/// Whether a token is `(entity: &Entity)`.
pub open spec fn takes_entity(token: Token) -> bool {
    &&& is_group(token, Delimiter::Parenthesis)
    &&& content(token).len() == 4
    &&& content(token)[0] == word("entity")
    &&& content(token)[1] == sign(':')
    &&& content(token)[2] == sign('&')
    &&& content(token)[3] == word("Entity")
}

/// Whether tokens initialize the fields: all the required ones and, where there are optional ones,
/// the struct that holds them.
pub open spec fn initializes(
    members: Seq<Token>,
    optional_id: Seq<char>,
    required_form: FieldForm,
    required: Seq<FieldModel>,
    optional_form: FieldForm,
    optional: Seq<FieldModel>,
) -> bool {
    let n = members.len();
    if optional.len() == 0 {
        uses_fields(members, required_form, required)
    } else {
        &&& n >= 4
        &&& uses_fields(members.take(n - 4), required_form, required)
        &&& members[n - 4] == word("optional")
        &&& members[n - 3] == sign(':')
        &&& members[n - 2] == Token::Ident(optional_id)
        &&& is_group(members[n - 1], Delimiter::Brace)
        &&& uses_fields(content(members[n - 1]), optional_form, optional)
    }
}

/// Whether the tokens at a place are `-> Option<Self> { Some(Self { ... }) }` and initialize the
/// fields.
pub open spec fn gives_struct(
    tokens: Seq<Token>,
    at: int,
    optional_id: Seq<char>,
    required_form: FieldForm,
    required: Seq<FieldModel>,
    optional_form: FieldForm,
    optional: Seq<FieldModel>,
) -> bool {
    let body = content(tokens[at + 6]);
    let value = content(body[1]);
    &&& is_arrow(tokens, at)
    &&& tokens[at + 2] == word("Option")
    &&& tokens[at + 3] == sign('<')
    &&& tokens[at + 4] == word("Self")
    &&& tokens[at + 5] == sign('>')
    &&& is_group(tokens[at + 6], Delimiter::Brace)
    &&& body.len() == 2
    &&& body[0] == word("Some")
    &&& is_group(body[1], Delimiter::Parenthesis)
    &&& value.len() == 2
    &&& value[0] == word("Self")
    &&& is_group(value[1], Delimiter::Brace)
    &&& initializes(
        content(value[1]),
        optional_id,
        required_form,
        required,
        optional_form,
        optional,
    )
}

/// The paths of fields.
pub open spec fn paths(fields: Seq<FieldModel>) -> Seq<Seq<Token>> {
    fields.map_values(|field: FieldModel| field.path)
}

/// Whether the tokens are the five methods of the struct, one after the other and nothing else.
pub open spec fn are_methods(
    tokens: Seq<Token>,
    optional_id: Seq<char>,
    required: Seq<FieldModel>,
    optional: Seq<FieldModel>,
) -> bool {
    let spawned = content(tokens[33]);
    let unspawned = content(tokens[40]);
    &&& tokens.len() == 41
    &&& is_make(tokens, 0, required, optional)
    &&& tokens[7] == word("fn")
    &&& tokens[8] == word("get_spawned")
    &&& takes_id(tokens[9])
    &&& gives_struct(
        tokens,
        10,
        optional_id,
        FieldForm::Spawned,
        required,
        FieldForm::SpawnedOption,
        optional,
    )
    &&& tokens[17] == word("fn")
    &&& tokens[18] == word("get_unspawned")
    &&& takes_entity(tokens[19])
    &&& gives_struct(
        tokens,
        20,
        optional_id,
        FieldForm::Unspawned,
        required,
        FieldForm::UnspawnedOption,
        optional,
    )
    &&& tokens[27] == word("fn")
    &&& tokens[28] == word("contained_by_spawned")
    &&& takes_id(tokens[29])
    &&& is_arrow(tokens, 30)
    &&& tokens[32] == word("bool")
    &&& is_group(tokens[33], Delimiter::Brace)
    &&& asks_for_components(spawned, required)
    &&& tokens[34] == word("fn")
    &&& tokens[35] == word("contained_by_unspawned")
    &&& takes_entity(tokens[36])
    &&& is_arrow(tokens, 37)
    &&& tokens[39] == word("bool")
    &&& is_group(tokens[40], Delimiter::Brace)
    &&& asks_entity_for_components(unspawned, required)
}

/// Whether tokens are `entity::has_components(id, &[...])` with all the required components.
pub open spec fn asks_for_components(tokens: Seq<Token>, required: Seq<FieldModel>) -> bool {
    asks_for_paths(tokens, paths(required))
}

/// Whether tokens are `entity::has_components(id, &[...])` with a reference to each path.
pub open spec fn asks_for_paths(tokens: Seq<Token>, paths: Seq<Seq<Token>>) -> bool {
    let arguments = content(tokens[4]);
    &&& tokens.len() == 5
    &&& tokens[0] == word("entity")
    &&& is_path_sign(tokens, 1)
    &&& tokens[3] == word("has_components")
    &&& is_group(tokens[4], Delimiter::Parenthesis)
    &&& arguments.len() == 4
    &&& arguments[0] == word("id")
    &&& arguments[1] == sign(',')
    &&& arguments[2] == sign('&')
    &&& is_group(arguments[3], Delimiter::Bracket)
    &&& refers_to_all(content(arguments[3]), paths)
}

/// Whether tokens are `entity.has_components(&[...])` with all the required components.
pub open spec fn asks_entity_for_components(
    tokens: Seq<Token>,
    required: Seq<FieldModel>,
) -> bool {
    let arguments = content(tokens[3]);
    &&& tokens.len() == 4
    &&& tokens[0] == word("entity")
    &&& tokens[1] == sign('.')
    &&& tokens[2] == word("has_components")
    &&& is_group(tokens[3], Delimiter::Parenthesis)
    &&& arguments.len() == 2
    &&& arguments[0] == sign('&')
    &&& is_group(arguments[1], Delimiter::Bracket)
    &&& refers_to_all(content(arguments[1]), paths(required))
}

/// Uses of one length take that length for each field.
proof fn uses_have_a_length(form: FieldForm, fields: Seq<FieldModel>, length: nat)
    requires
        form is WithCall && length == 3 || form is SetIfSome && length == 11,
    ensures
        all_forms(form, fields).len() == fields.len() * length,
{
    let parts = fields.map_values(|field: FieldModel| form_tokens(form, field));
    assert forall|i: int| 0 <= i < parts.len() implies (#[trigger] parts[i]).len() == length by {
        forms_use_the_field(form, fields[i]);
    }
    concatenations_come_apart(parts);
    equal_parts_stand_in_order(parts, length);
}

/// `make` starts from a new entity, gives it every required field, then every optional field that
/// is there, and nothing else: what stands before the first semicolon depends on the required fields
/// only, and takes three tokens for each of them.
pub proof fn make_passes_every_field(required: Seq<FieldModel>, optional: Seq<FieldModel>)
    ensures
        make_method(required, optional).len() == 7,
        is_make(make_method(required, optional), 0, required, optional),
{
    uses_have_a_length(FieldForm::WithCall, required, 3);
    uses_have_a_length(FieldForm::SetIfSome, optional, 11);
    every_field_is_used(FieldForm::WithCall, required);
    every_field_is_used(FieldForm::SetIfSome, optional);
    let body = content(make_method(required, optional)[6]);
    let end = 9 + 3 * required.len() as int;
    assert(body.subrange(9, end) =~= all_forms(FieldForm::WithCall, required));
    assert(body.subrange(end + 1, body.len() - 1) =~= all_forms(FieldForm::SetIfSome, optional));
}

/// Reading a struct reads every required field and every optional one.
proof fn reading_reads_every_field(
    signature: Seq<Token>,
    optional_id: Seq<char>,
    required_form: FieldForm,
    required: Seq<FieldModel>,
    optional_form: FieldForm,
    optional: Seq<FieldModel>,
)
    ensures
        ({
            let tokens = after_reading(
                signature,
                optional_id,
                required_form,
                required,
                optional_form,
                optional,
            );
            &&& tokens.len() == signature.len() + 7
            &&& tokens.take(signature.len() as int) == signature
            &&& gives_struct(
                tokens,
                signature.len() as int,
                optional_id,
                required_form,
                required,
                optional_form,
                optional,
            )
        }),
{
    every_field_is_used(required_form, required);
    every_field_is_used(optional_form, optional);
    let tokens = after_reading(
        signature,
        optional_id,
        required_form,
        required,
        optional_form,
        optional,
    );
    assert(tokens.take(signature.len() as int) =~= signature);
    let members = content(content(content(tokens[signature.len() as int + 6])[1])[1]);
    if optional.len() > 0 {
        assert(members.take(members.len() - 4) =~= all_forms(required_form, required));
    } else {
        assert(members == all_forms(required_form, required));
    }
}

/// The five methods of the struct, each over all the fields.
proof fn methods_are_complete(
    id: Seq<char>,
    required: Seq<FieldModel>,
    optional: Seq<FieldModel>,
)
    ensures
        are_methods(
            make_method(required, optional).tokens(
                get_spawned_method(id, required, optional),
            ).tokens(get_unspawned_method(id, required, optional)).tokens(
                contained_by_methods(required),
            ),
            id + "Optional"@,
            required,
            optional,
        ),
{
    let make = make_method(required, optional);
    let spawned = get_spawned_method(id, required, optional);
    let unspawned = get_unspawned_method(id, required, optional);
    let contained = contained_by_methods(required);
    let tokens = make.tokens(spawned).tokens(unspawned).tokens(contained);
    make_passes_every_field(required, optional);
    let takes_an_id = Seq::empty().ident("fn").ident("get_spawned").parens(
        Seq::empty().ident("id").punct(':').ident("EntityId"),
    );
    let takes_an_entity = Seq::empty().ident("fn").ident("get_unspawned").parens(
        Seq::empty().ident("entity").punct(':').punct('&').ident("Entity"),
    );
    reading_reads_every_field(
        takes_an_id,
        id + "Optional"@,
        FieldForm::Spawned,
        required,
        FieldForm::SpawnedOption,
        optional,
    );
    reading_reads_every_field(
        takes_an_entity,
        id + "Optional"@,
        FieldForm::Unspawned,
        required,
        FieldForm::UnspawnedOption,
        optional,
    );
    every_field_is_referred_to(required);
    assert(spawned.len() == 10 && unspawned.len() == 10 && contained.len() == 14);
    assert(spawned.take(3) == takes_an_id);
    assert(unspawned.take(3) == takes_an_entity);
    assert forall|i: int| 0 <= i < 3 implies spawned[i] == #[trigger] takes_an_id[i] by {
        assert(spawned.take(3)[i] == spawned[i]);
    }
    assert forall|i: int| 0 <= i < 3 implies unspawned[i] == #[trigger] takes_an_entity[i] by {
        assert(unspawned.take(3)[i] == unspawned[i]);
    }
    assert forall|i: int| 0 <= i < 7 implies tokens[i] == #[trigger] make[i] by {}
    assert forall|i: int| 0 <= i < 10 implies tokens[i + 7] == #[trigger] spawned[i] by {}
    assert forall|i: int| 0 <= i < 10 implies tokens[i + 17] == #[trigger] unspawned[i] by {}
    assert forall|i: int| 0 <= i < 14 implies tokens[i + 27] == #[trigger] contained[i] by {}
    assert(is_make(make, 0, required, optional));
    assert(is_make(tokens, 0, required, optional));
    same_reading(spawned, 3, tokens, 10);
    same_reading(unspawned, 3, tokens, 20);
    assert(gives_struct(
        tokens,
        10,
        id + "Optional"@,
        FieldForm::Spawned,
        required,
        FieldForm::SpawnedOption,
        optional,
    ));
    assert(gives_struct(
        tokens,
        20,
        id + "Optional"@,
        FieldForm::Unspawned,
        required,
        FieldForm::UnspawnedOption,
        optional,
    ));
    assert(contained[2] == tokens[29] && contained[6] == tokens[33]);
    assert(contained[9] == tokens[36] && contained[13] == tokens[40]);
    assert(contained[0] == tokens[27] && contained[1] == tokens[28]);
    assert(contained[3] == tokens[30] && contained[4] == tokens[31] && contained[5] == tokens[32]);
    assert(contained[7] == tokens[34] && contained[8] == tokens[35]);
    assert(contained[10] == tokens[37] && contained[11] == tokens[38] && contained[12]
        == tokens[39]);
    assert(takes_an_id[0] == tokens[7] && takes_an_id[1] == tokens[8] && takes_an_id[2]
        == tokens[9]);
    assert(takes_an_entity[0] == tokens[17] && takes_an_entity[1] == tokens[18]
        && takes_an_entity[2] == tokens[19]);
}

/// The seven tokens that give a struct stand at the one place as at the other.
proof fn same_reading(from: Seq<Token>, at: int, to: Seq<Token>, place: int)
    requires
        0 <= at,
        from.len() == at + 7,
        0 <= place,
        place + 7 <= to.len(),
        forall|i: int| 0 <= i < from.len() ==> to[i + (place - at)] == #[trigger] from[i],
    ensures
        forall|k: int| 0 <= k < 7 ==> #[trigger] to[place + k] == from[at + k],
{
    assert forall|k: int| 0 <= k < 7 implies #[trigger] to[place + k] == from[at + k] by {
        assert(to[at + k + (place - at)] == from[at + k]);
    }
}

// -------------------------------------------------------------------------------------------
// The whole

/// Whether two tokens at a place are `#[derive(Clone, Debug)]`, with `Default` behind these where
/// it is asked for.
pub open spec fn derives(tokens: Seq<Token>, at: int, default: bool) -> bool {
    let inner = content(tokens[at + 1]);
    let names = content(inner[1]);
    &&& tokens[at] == sign('#')
    &&& is_group(tokens[at + 1], Delimiter::Bracket)
    &&& inner.len() == 2
    &&& inner[0] == word("derive")
    &&& is_group(inner[1], Delimiter::Parenthesis)
    &&& names.len() == if default { 5nat } else { 3nat }
    &&& names[0] == word("Clone")
    &&& names[1] == sign(',')
    &&& names[2] == word("Debug")
    &&& default ==> names[3] == sign(',') && names[4] == word("Default")
}

/// Whether the tokens at a place define a struct of that name; what it holds stands in the last of
/// them.
pub open spec fn defines_struct(
    tokens: Seq<Token>,
    at: int,
    doc: Seq<char>,
    default: bool,
    id: Seq<char>,
) -> bool {
    &&& is_documentation(tokens, at, doc)
    &&& derives(tokens, at + 2, default)
    &&& tokens[at + 4] == word("pub")
    &&& tokens[at + 5] == word("struct")
    &&& tokens[at + 6] == Token::Ident(id)
    &&& is_group(tokens[at + 7], Delimiter::Brace)
}

/// Whether tokens are the fields of the struct: one for each required component and, where there
/// are optional ones, one for the struct that holds them.
pub open spec fn has_fields(
    tokens: Seq<Token>,
    optional_id: Seq<char>,
    required: Seq<FieldModel>,
    optional: Seq<FieldModel>,
) -> bool {
    let n = tokens.len();
    if optional.len() == 0 {
        uses_fields(tokens, FieldForm::Definition, required)
    } else {
        &&& n >= 7
        &&& uses_fields(tokens.take(n - 7), FieldForm::Definition, required)
        &&& is_raw_documentation(tokens, n - 7, " Optional components."@)
        &&& tokens[n - 5] == word("pub")
        &&& tokens[n - 4] == word("optional")
        &&& tokens[n - 3] == sign(':')
        &&& tokens[n - 2] == Token::Ident(optional_id)
        &&& tokens[n - 1] == sign(',')
    }
}

/// Whether the tokens at a place are `impl api::ecs::Concept for Id { ... }` with the five methods,
/// and nothing stands behind them.
pub open spec fn implements_concept(
    tokens: Seq<Token>,
    at: int,
    api_path: Seq<Token>,
    id: Seq<char>,
    required: Seq<FieldModel>,
    optional: Seq<FieldModel>,
) -> bool {
    let e = at + 1 + api_path.len();
    &&& tokens.len() == e + 9
    &&& tokens[at] == word("impl")
    &&& tokens.subrange(at + 1, e) == api_path
    &&& is_path_sign(tokens, e)
    &&& tokens[e + 2] == word("ecs")
    &&& is_path_sign(tokens, e + 3)
    &&& tokens[e + 5] == word("Concept")
    &&& tokens[e + 6] == word("for")
    &&& tokens[e + 7] == Token::Ident(id)
    &&& is_group(tokens[e + 8], Delimiter::Brace)
    &&& are_methods(content(tokens[e + 8]), id + "Optional"@, required, optional)
}

/// Whether tokens are the struct of a concept with all that belongs to it.
pub open spec fn is_concept_struct(
    tokens: Seq<Token>,
    api_path: Seq<Token>,
    doc: Seq<char>,
    id: Seq<char>,
    required: Seq<FieldModel>,
    optional: Seq<FieldModel>,
) -> bool {
    &&& tokens.len() > 16
    &&& defines_struct(tokens, 0, doc, false, id)
    &&& has_fields(content(tokens[7]), id + "Optional"@, required, optional)
    &&& if optional.len() == 0 {
        implements_concept(tokens, 8, api_path, id, required, optional)
    } else {
        &&& defines_struct(tokens, 8, "Optional part of ["@ + id + "]."@, true, id + "Optional"@)
        &&& uses_fields(content(tokens[15]), FieldForm::OptionDefinition, optional)
        &&& implements_concept(tokens, 16, api_path, id, required, optional)
    }
}

/// The definition of the struct defines every required field.
proof fn definition_is_complete(
    doc: Seq<char>,
    id: Seq<char>,
    required: Seq<FieldModel>,
    optional: Seq<FieldModel>,
)
    ensures
        struct_definition(doc, id, required, optional).len() == 8,
        defines_struct(struct_definition(doc, id, required, optional), 0, doc, false, id),
        has_fields(
            content(struct_definition(doc, id, required, optional)[7]),
            id + "Optional"@,
            required,
            optional,
        ),
{
    every_field_is_used(FieldForm::Definition, required);
    let fields = content(struct_definition(doc, id, required, optional)[7]);
    if optional.len() > 0 {
        assert(fields.take(fields.len() - 7) =~= all_forms(FieldForm::Definition, required));
    } else {
        assert(fields =~= all_forms(FieldForm::Definition, required));
    }
}

/// The code for a struct is the struct, where there are optional components a second struct with
/// these, and the implementation of the trait.
proof fn struct_code_is_complete(
    api_path: Seq<Token>,
    doc: Seq<char>,
    id: Seq<char>,
    required: Seq<FieldModel>,
    optional: Seq<FieldModel>,
)
    ensures
        is_concept_struct(
            struct_tokens(api_path, doc, id, required, optional),
            api_path,
            doc,
            id,
            required,
            optional,
        ),
{
    let tokens = struct_tokens(api_path, doc, id, required, optional);
    let first = struct_definition(doc, id, required, optional);
    let second = optional_struct_definition(id, optional);
    definition_is_complete(doc, id, required, optional);
    methods_are_complete(id, required, optional);
    every_field_is_used(FieldForm::OptionDefinition, optional);
    let at = if optional.len() == 0 { 8int } else { 16int };
    let e = at + 1 + api_path.len();
    assert(second.len() == at - 8);
    assert(tokens.len() == e + 9);
    assert forall|i: int| 0 <= i < 8 implies tokens[i] == #[trigger] first[i] by {}
    assert forall|i: int| 0 <= i < second.len() implies tokens[i + 8] == #[trigger] second[i] by {}
    assert(tokens.subrange(at + 1, e) =~= api_path);
    assert(first[0] == tokens[0] && first[1] == tokens[1] && first[2] == tokens[2] && first[3]
        == tokens[3] && first[4] == tokens[4] && first[5] == tokens[5] && first[6] == tokens[6]
        && first[7] == tokens[7]);
    if optional.len() > 0 {
        assert(second[0] == tokens[8] && second[1] == tokens[9] && second[2] == tokens[10]
            && second[3] == tokens[11] && second[4] == tokens[12] && second[5] == tokens[13]
            && second[6] == tokens[14] && second[7] == tokens[15]);
        assert(defines_struct(
            second,
            0,
            "Optional part of ["@ + id + "]."@,
            true,
            id + "Optional"@,
        ));
    }
    assert(implements_concept(tokens, at, api_path, id, required, optional));
}

/// Whether the types and the paths of components are there.
pub open spec fn are_complete(
    items: ItemMap,
    printer: TypePrinter,
    parts: Seq<ConceptComponent>,
) -> bool {
    forall|i: int|
        0 <= i < parts.len() ==> has_type(items, printer, #[trigger] parts[i]) && has_path(
            items,
            parts[i],
        )
}

/// The struct of a concept defines, makes, reads and asks for every one of its components, in
/// order and nothing else, whether it has optional components or not.
pub proof fn structs_use_every_component(
    items: ItemMap,
    printer: TypePrinter,
    api_path: Seq<Token>,
    concept: Concept,
)
    requires
        are_complete(items, printer, concept.required_components@),
        are_complete(items, printer, concept.optional_components@),
    ensures
        concept_struct(items, printer, api_path, concept) is Ok,
        is_concept_struct(
            concept_struct(items, printer, api_path, concept)->Ok_0,
            api_path,
            struct_doc(items, concept),
            concept.id@,
            expected_fields(items, printer, concept.required_components@),
            expected_fields(items, printer, concept.optional_components@),
        ),
{
    every_component_has_a_field(items, printer, concept.required_components@);
    every_component_has_a_field(items, printer, concept.optional_components@);
    struct_code_is_complete(
        api_path,
        struct_doc(items, concept),
        concept.id@,
        expected_fields(items, printer, concept.required_components@),
        expected_fields(items, printer, concept.optional_components@),
    );
}

/// Whether a component is the first of some whose type or path is missing.
pub open spec fn is_first_missing(
    items: ItemMap,
    printer: TypePrinter,
    parts: Seq<ConceptComponent>,
    first: int,
) -> bool {
    &&& 0 <= first < parts.len()
    &&& forall|i: int|
        0 <= i < first ==> has_type(items, printer, #[trigger] parts[i]) && has_path(
            items,
            parts[i],
        )
    &&& !has_type(items, printer, parts[first]) || !has_path(items, parts[first])
}

/// A struct fails with the error of the first component whose type or path is missing. The required
/// components come first.
pub proof fn structs_fail_on_the_first_missing_component(
    items: ItemMap,
    printer: TypePrinter,
    api_path: Seq<Token>,
    concept: Concept,
    first: int,
)
    ensures
        is_first_missing(items, printer, concept.required_components@, first) ==> concept_struct(
            items,
            printer,
            api_path,
            concept,
        ) == Err::<Seq<Token>, Seq<char>>(
            field_of(items, printer, concept.required_components@[first])->Err_0,
        ),
        are_complete(items, printer, concept.required_components@) && is_first_missing(
            items,
            printer,
            concept.optional_components@,
            first,
        ) ==> concept_struct(items, printer, api_path, concept) == Err::<Seq<Token>, Seq<char>>(
            field_of(items, printer, concept.optional_components@[first])->Err_0,
        ),
{
    if is_first_missing(items, printer, concept.required_components@, first) {
        the_first_missing_component_counts(
            items,
            printer,
            concept.required_components@,
            first,
        );
    }
    if are_complete(items, printer, concept.required_components@) && is_first_missing(
        items,
        printer,
        concept.optional_components@,
        first,
    ) {
        every_component_has_a_field(items, printer, concept.required_components@);
        the_first_missing_component_counts(
            items,
            printer,
            concept.optional_components@,
            first,
        );
    }
}

// -------------------------------------------------------------------------------------------
// Documentation

/// The name of a concept in documentation is its own name, or else its identifier.
pub proof fn concepts_are_called_by_their_names(concept: Concept)
    ensures
        concept.name matches Some(name) ==> display_name(concept) == name@,
        concept.name is None ==> display_name(concept) == concept.id@,
{
}

/// The paths of the concepts that a concept extends, each between two marks: concepts are counted
/// from the first.
pub open spec fn marked_paths(items: ItemMap, extends: Seq<ConceptId>, mark: Seq<char>) -> Seq<
    Seq<char>,
> {
    Seq::new(
        extends.len(),
        |i: int| mark + items.concepts@[extends[i].0 as int].display_path@ + mark,
    )
}

/// The documentation of a struct is, without the white space at its ends, a line with the name of
/// the concept and its description, and a line with the concepts that it extends, if there are any.
pub proof fn struct_documentation_tells_all(items: ItemMap, concept: Concept)
    ensures
        ({
            let name = match concept.name {
                Some(name) => name@,
                None => concept.id@,
            };
            let described = match concept.description {
                Some(text) => ": "@ + text@,
                None => Seq::empty(),
            };
            let extended = if concept.extends@.len() == 0 {
                Seq::empty()
            } else {
                "**Extends**: "@ + joined(marked_paths(items, concept.extends@, "`"@), ", "@)
                    + "\n\n"@
            };
            struct_doc(items, concept) == trimmed(
                "**"@ + name + "**"@ + described + "\n\n"@ + extended,
            )
        }),
{
    let name = match concept.name {
        Some(name) => name@,
        None => concept.id@,
    };
    let described = match concept.description {
        Some(text) => ": "@ + text@,
        None => Seq::empty(),
    };
    let head = "**"@ + name + "**"@ + described + "\n\n"@;
    assert(crate::concept_struct::struct_headline(concept) + "\n\n"@ =~= head);
    if concept.extends@.len() == 0 {
        assert(head + Seq::<char>::empty() =~= head);
    } else {
        let marked = marked_paths(items, concept.extends@, "`"@);
        assert(crate::concept_struct::quoted_extended_paths(items, concept.extends@) =~= marked);
        let line = "**Extends**: "@ + joined(marked, ", "@) + "\n\n"@;
        assert(head + "**Extends**: "@ + joined(marked, ", "@) + "\n\n"@ =~= head + line);
    }
}

} // verus!

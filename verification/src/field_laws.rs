//! What the fields of a concept's struct come from, and what the code for a field says.
use crate::fields::{
    all_forms, field_definition, field_doc, field_of, fields_of, form_tokens, path_references,
    FieldForm, FieldModel,
};
use crate::items::{Component, ConceptComponent, ItemMap, ResolvableValue, TypePrinter};
use crate::semipretty::semipretty;
use crate::token_laws::{
    calls, comes_apart, comes_apart_at_commas, concatenations_come_apart, content,
    is_documentation, is_group, is_path_sign, refers_to, separated_lists_come_apart, sign, word,
};
use crate::tokens::{stream_tokens, Delimiter, Token};
use crate::values::value_tokens;
use vstd::prelude::*;

verus! {

// -------------------------------------------------------------------------------------------
// Where a field comes from

/// The component that a part of a concept names: components are counted from the first.
pub open spec fn named_component(items: ItemMap, part: ConceptComponent) -> Component {
    items.components@[part.component.0 as int]
}

/// Whether the type of a component can be printed.
pub open spec fn has_type(items: ItemMap, printer: TypePrinter, part: ConceptComponent) -> bool {
    printer.types@[named_component(items, part).type_.0 as int] is Ok
}

/// Whether a component has a path.
pub open spec fn has_path(items: ItemMap, part: ConceptComponent) -> bool {
    named_component(items, part).path is Ok
}

/// The type of a component, printed.
pub open spec fn type_of(items: ItemMap, printer: TypePrinter, part: ConceptComponent) -> Seq<
    Token,
> {
    stream_tokens(printer.types@[named_component(items, part).type_.0 as int]->Ok_0)
}

/// The path of a component.
pub open spec fn path_of(items: ItemMap, part: ConceptComponent) -> Seq<Token> {
    stream_tokens(named_component(items, part).path->Ok_0)
}

/// The field of a component whose type and path are there.
pub open spec fn expected_field(
    items: ItemMap,
    printer: TypePrinter,
    part: ConceptComponent,
) -> FieldModel {
    FieldModel {
        doc: field_doc(items, part),
        id: named_component(items, part).id@,
        ty: type_of(items, printer, part),
        path: path_of(items, part),
    }
}

/// The fields of components whose types and paths are there.
pub open spec fn expected_fields(
    items: ItemMap,
    printer: TypePrinter,
    parts: Seq<ConceptComponent>,
) -> Seq<FieldModel> {
    parts.map_values(|part: ConceptComponent| expected_field(items, printer, part))
}

/// A field has the name, the type and the path of the component that the concept names. Where the
/// type can not be printed, its error is the result, whatever the path is; where only the path is
/// missing, the error of the path is.
pub proof fn fields_come_from_their_components(
    items: ItemMap,
    printer: TypePrinter,
    part: ConceptComponent,
)
    ensures
        has_type(items, printer, part) && has_path(items, part) ==> field_of(items, printer, part)
            == Ok::<FieldModel, Seq<char>>(expected_field(items, printer, part)),
        !has_type(items, printer, part) ==> field_of(items, printer, part) == Err::<
            FieldModel,
            Seq<char>,
        >(printer.types@[named_component(items, part).type_.0 as int]->Err_0.message@),
        has_type(items, printer, part) && !has_path(items, part) ==> field_of(items, printer, part)
            == Err::<FieldModel, Seq<char>>(named_component(items, part).path->Err_0.message@),
{
}

/// There is a field for every component and in the same order, if all types and paths are there.
pub proof fn every_component_has_a_field(
    items: ItemMap,
    printer: TypePrinter,
    parts: Seq<ConceptComponent>,
)
    requires
        forall|i: int|
            0 <= i < parts.len() ==> has_type(items, printer, #[trigger] parts[i]) && has_path(
                items,
                parts[i],
            ),
    ensures
        fields_of(items, printer, parts) == Ok::<Seq<FieldModel>, Seq<char>>(
            expected_fields(items, printer, parts),
        ),
    decreases parts.len(),
{
    if parts.len() > 0 {
        let rest = parts.drop_last();
        assert forall|i: int| 0 <= i < rest.len() implies has_type(
            items,
            printer,
            #[trigger] rest[i],
        ) && has_path(items, rest[i]) by {
            assert(rest[i] == parts[i]);
        }
        every_component_has_a_field(items, printer, rest);
        assert(parts.last() == parts[parts.len() - 1]);
        assert(expected_fields(items, printer, parts) =~= expected_fields(
            items,
            printer,
            rest,
        ).push(expected_field(items, printer, parts.last())));
    } else {
        assert(expected_fields(items, printer, parts) =~= seq![]);
    }
}

/// The first component whose type or path is missing decides the error.
pub proof fn the_first_missing_component_counts(
    items: ItemMap,
    printer: TypePrinter,
    parts: Seq<ConceptComponent>,
    first: int,
)
    requires
        0 <= first < parts.len(),
        forall|i: int|
            0 <= i < first ==> has_type(items, printer, #[trigger] parts[i]) && has_path(
                items,
                parts[i],
            ),
        !has_type(items, printer, parts[first]) || !has_path(items, parts[first]),
    ensures
        fields_of(items, printer, parts) == Err::<Seq<FieldModel>, Seq<char>>(
            field_of(items, printer, parts[first])->Err_0,
        ),
    decreases parts.len(),
{
    let rest = parts.drop_last();
    if first == parts.len() - 1 {
        assert forall|i: int| 0 <= i < rest.len() implies has_type(
            items,
            printer,
            #[trigger] rest[i],
        ) && has_path(items, rest[i]) by {
            assert(rest[i] == parts[i]);
        }
        every_component_has_a_field(items, printer, rest);
        assert(parts.last() == parts[first]);
    } else {
        assert forall|i: int| 0 <= i < first implies has_type(
            items,
            printer,
            #[trigger] rest[i],
        ) && has_path(items, rest[i]) by {
            assert(rest[i] == parts[i]);
        }
        assert(rest[first] == parts[first]);
        the_first_missing_component_counts(items, printer, rest, first);
    }
}

// -------------------------------------------------------------------------------------------
// Documentation

/// The paragraphs on a component, each of which is there or not for a reason of its own.
pub open spec fn field_paragraphs(items: ItemMap, part: ConceptComponent) -> Seq<Seq<char>> {
    let component = named_component(items, part);
    let path = "**Component**: `"@ + component.display_path@ + "`"@;
    let suggested = match part.value.suggested {
        Some(ResolvableValue::Resolved { value, .. }) => Some(
            "**Suggested value**: `"@ + semipretty(value_tokens(items, value)) + "`"@,
        ),
        _ => None,
    };
    let description = match part.value.description {
        Some(text) => Some("**Description**: "@ + text@),
        None => None,
    };
    let general = match component.description {
        Some(text) => Some("**Component description**: "@ + text@),
        None => None,
    };
    present(present(present(Seq::empty().push(path), suggested), description), general)
}

/// The texts, and after them the other one where there is one.
pub open spec fn present(texts: Seq<Seq<char>>, other: Option<Seq<char>>) -> Seq<Seq<char>> {
    match other {
        Some(text) => texts.push(text),
        None => texts,
    }
}

/// The documentation of a field is its paragraphs one after the other, each with an empty line
/// behind it: the path, then the suggested value where it is resolved, then what the concept says
/// about the component, then what the component says about itself.
pub proof fn field_documentation_is_its_paragraphs(items: ItemMap, part: ConceptComponent)
    ensures
        field_doc(items, part) == field_paragraphs(items, part).map_values(
            |text: Seq<char>| text + "\n\n"@,
        ).flatten(),
{
    reveal_strlit("`\n\n");
    reveal_strlit("`");
    reveal_strlit("\n\n");
    let all = field_paragraphs(items, part);
    let ended = all.map_values(|text: Seq<char>| text + "\n\n"@);
    reveal_with_fuel(Seq::<_>::flatten, 5);
    assert("`\n\n"@ =~= "`"@ + "\n\n"@);
    if all.len() > 1 {
        assert(ended.drop_first().first() == ended[1]);
    }
    if all.len() > 2 {
        assert(ended.drop_first().drop_first().first() == ended[2]);
    }
    if all.len() > 3 {
        assert(ended.drop_first().drop_first().drop_first().first() == ended[3]);
    }
    assert(field_doc(items, part) =~= ended.flatten());
}

// -------------------------------------------------------------------------------------------
// Code

/// Whether tokens define a field: the documentation, the name and the type of the component, the
/// type in an `Option` where the component is optional.
pub open spec fn defines_field(tokens: Seq<Token>, field: FieldModel, use_option: bool) -> bool {
    let ty = tokens.subrange(5, tokens.len() - 1);
    &&& tokens.len() >= 6
    &&& is_documentation(tokens, 0, field.doc)
    &&& tokens[2] == word("pub")
    &&& tokens[3] == Token::Ident(field.id)
    &&& tokens[4] == sign(':')
    &&& tokens.last() == sign(',')
    &&& if use_option {
        &&& ty.len() == field.ty.len() + 3
        &&& ty[0] == word("Option")
        &&& ty[1] == sign('<')
        &&& ty.subrange(2, ty.len() - 1) == field.ty
        &&& ty.last() == sign('>')
    } else {
        ty == field.ty
    }
}

/// Whether tokens are `.with(path(), self.id)`.
pub open spec fn passes_field(tokens: Seq<Token>, field: FieldModel) -> bool {
    let arguments = content(tokens[2]);
    let n = field.path.len() as int;
    &&& tokens.len() == 3
    &&& tokens[0] == sign('.')
    &&& tokens[1] == word("with")
    &&& is_group(tokens[2], Delimiter::Parenthesis)
    &&& arguments.len() == n + 5
    &&& calls(arguments.take(n + 1), field.path)
    &&& arguments[n + 1] == sign(',')
    &&& arguments[n + 2] == word("self")
    &&& arguments[n + 3] == sign('.')
    &&& arguments[n + 4] == Token::Ident(field.id)
}

/// Whether tokens are `if let Some(id) = self.optional.id { entity.set(path(), id); }`.
pub open spec fn sets_field(tokens: Seq<Token>, field: FieldModel) -> bool {
    let body = content(tokens[10]);
    let arguments = content(body[3]);
    let n = field.path.len() as int;
    &&& tokens.len() == 11
    &&& tokens[0] == word("if")
    &&& tokens[1] == word("let")
    &&& tokens[2] == word("Some")
    &&& is_group(tokens[3], Delimiter::Parenthesis)
    &&& content(tokens[3]).len() == 1
    &&& content(tokens[3])[0] == Token::Ident(field.id)
    &&& tokens[4] == sign('=')
    &&& tokens[5] == word("self")
    &&& tokens[6] == sign('.')
    &&& tokens[7] == word("optional")
    &&& tokens[8] == sign('.')
    &&& tokens[9] == Token::Ident(field.id)
    &&& is_group(tokens[10], Delimiter::Brace)
    &&& body.len() == 5
    &&& body[0] == word("entity")
    &&& body[1] == sign('.')
    &&& body[2] == word("set")
    &&& is_group(body[3], Delimiter::Parenthesis)
    &&& body[4] == sign(';')
    &&& arguments.len() == n + 3
    &&& calls(arguments.take(n + 1), field.path)
    &&& arguments[n + 1] == sign(',')
    &&& arguments[n + 2] == Token::Ident(field.id)
}

/// Whether the tokens behind a place are `?,` for a required component, or `,` for an optional one.
pub open spec fn ends_reading(tokens: Seq<Token>, at: int, required: bool) -> bool {
    if required {
        tokens.len() == at + 2 && tokens[at] == sign('?') && tokens[at + 1] == sign(',')
    } else {
        tokens.len() == at + 1 && tokens[at] == sign(',')
    }
}

/// Whether tokens are `id: entity::get_component(id, path())?,`, for an optional component without
/// the question mark.
pub open spec fn reads_spawned(tokens: Seq<Token>, field: FieldModel, required: bool) -> bool {
    let arguments = content(tokens[6]);
    &&& ends_reading(tokens, 7, required)
    &&& tokens[0] == Token::Ident(field.id)
    &&& tokens[1] == sign(':')
    &&& tokens[2] == word("entity")
    &&& is_path_sign(tokens, 3)
    &&& tokens[5] == word("get_component")
    &&& is_group(tokens[6], Delimiter::Parenthesis)
    &&& arguments.len() > 2
    &&& arguments[0] == word("id")
    &&& arguments[1] == sign(',')
    &&& calls(arguments.skip(2), field.path)
}

/// Whether tokens are `id: entity.get(path())?,`, for an optional component without the question
/// mark.
pub open spec fn reads_unspawned(tokens: Seq<Token>, field: FieldModel, required: bool) -> bool {
    &&& ends_reading(tokens, 6, required)
    &&& tokens[0] == Token::Ident(field.id)
    &&& tokens[1] == sign(':')
    &&& tokens[2] == word("entity")
    &&& tokens[3] == sign('.')
    &&& tokens[4] == word("get")
    &&& is_group(tokens[5], Delimiter::Parenthesis)
    &&& calls(content(tokens[5]), field.path)
}

/// Whether tokens use a field in that way.
pub open spec fn uses_field(tokens: Seq<Token>, form: FieldForm, field: FieldModel) -> bool {
    match form {
        FieldForm::Definition => defines_field(tokens, field, false),
        FieldForm::OptionDefinition => defines_field(tokens, field, true),
        FieldForm::WithCall => passes_field(tokens, field),
        FieldForm::SetIfSome => sets_field(tokens, field),
        FieldForm::Spawned => reads_spawned(tokens, field, true),
        FieldForm::SpawnedOption => reads_spawned(tokens, field, false),
        FieldForm::Unspawned => reads_unspawned(tokens, field, true),
        FieldForm::UnspawnedOption => reads_unspawned(tokens, field, false),
    }
}

/// The definition of a field reads as the documentation, the name and the type of the field.
pub proof fn definitions_define_the_field(field: FieldModel, use_option: bool)
    ensures
        defines_field(field_definition(field, use_option), field, use_option),
{
    let tokens = field_definition(field, use_option);
    let ty = tokens.subrange(5, tokens.len() - 1);
    if use_option {
        assert(ty.subrange(2, ty.len() - 1) =~= field.ty);
    } else {
        assert(ty =~= field.ty);
    }
}

/// The code for a field names that field and its path, in each of the ways in which it is used.
pub proof fn forms_use_the_field(form: FieldForm, field: FieldModel)
    ensures
        uses_field(form_tokens(form, field), form, field),
{
    let tokens = form_tokens(form, field);
    let n = field.path.len() as int;
    match form {
        FieldForm::Definition => definitions_define_the_field(field, false),
        FieldForm::OptionDefinition => definitions_define_the_field(field, true),
        FieldForm::WithCall => {
            let arguments = content(tokens[2]);
            assert(arguments.take(n + 1).take(n) =~= field.path);
        },
        FieldForm::SetIfSome => {
            let arguments = content(content(tokens[10])[3]);
            assert(arguments.take(n + 1).take(n) =~= field.path);
        },
        FieldForm::Spawned => {
            assert(content(tokens[6]).skip(2).take(n) =~= field.path);
        },
        FieldForm::SpawnedOption => {
            assert(content(tokens[6]).skip(2).take(n) =~= field.path);
        },
        FieldForm::Unspawned => {
            assert(content(tokens[5]).take(n) =~= field.path);
        },
        FieldForm::UnspawnedOption => {
            assert(content(tokens[5]).take(n) =~= field.path);
        },
    }
}

/// Whether tokens use each of the fields in that way, one after the other and nothing else.
pub open spec fn uses_fields(
    tokens: Seq<Token>,
    form: FieldForm,
    fields: Seq<FieldModel>,
) -> bool {
    exists|parts: Seq<Seq<Token>>|
        {
            &&& #[trigger] comes_apart(tokens, parts)
            &&& parts.len() == fields.len()
            &&& forall|i: int|
                0 <= i < fields.len() ==> uses_field(#[trigger] parts[i], form, fields[i])
        }
}

/// The code for fields uses every one of them, in order, and nothing else.
pub proof fn every_field_is_used(form: FieldForm, fields: Seq<FieldModel>)
    ensures
        uses_fields(all_forms(form, fields), form, fields),
{
    let parts = fields.map_values(|field: FieldModel| form_tokens(form, field));
    concatenations_come_apart(parts);
    assert forall|i: int| 0 <= i < fields.len() implies uses_field(
        #[trigger] parts[i],
        form,
        fields[i],
    ) by {
        forms_use_the_field(form, fields[i]);
    }
    assert(comes_apart(all_forms(form, fields), parts));
}

/// Whether tokens are references to the calls of the paths, with commas between them and nothing
/// else.
pub open spec fn refers_to_all(tokens: Seq<Token>, paths: Seq<Seq<Token>>) -> bool {
    exists|parts: Seq<Seq<Token>>|
        {
            &&& #[trigger] comes_apart_at_commas(tokens, parts)
            &&& parts.len() == paths.len()
            &&& forall|i: int| 0 <= i < paths.len() ==> refers_to(#[trigger] parts[i], paths[i])
        }
}

/// The references to the paths of fields name the path of every field, in order, and nothing else.
pub proof fn every_field_is_referred_to(fields: Seq<FieldModel>)
    ensures
        refers_to_all(
            path_references(fields),
            fields.map_values(|field: FieldModel| field.path),
        ),
{
    let paths = fields.map_values(|field: FieldModel| field.path);
    let parts = fields.map_values(
        |field: FieldModel| crate::fields::path_reference(field.path),
    );
    separated_lists_come_apart(parts);
    assert forall|i: int| 0 <= i < paths.len() implies refers_to(#[trigger] parts[i], paths[i]) by {
        references_refer(paths[i]);
    }
    assert(comes_apart_at_commas(path_references(fields), parts));
}

/// A reference to a path is `&` and the call of the path.
pub proof fn references_refer(path: Seq<Token>)
    ensures
        refers_to(crate::fields::path_reference(path), path),
        calls(crate::fields::path_call(path), path),
{
    let reference = crate::fields::path_reference(path);
    assert(reference.skip(1).take(path.len() as int) =~= path);
    assert(crate::fields::path_call(path).take(path.len() as int) =~= path);
}

} // verus!

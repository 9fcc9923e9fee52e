//! What the functions of a concept say, whatever the components of the concept are.
use crate::concept_functions::{
    component_list_doc, component_types, concept_functions, concept_is, concept_make,
    concept_tuple, definition_line, definition_lines, function_doc, guest_is_function,
    host_is_function, insert_description, make_function, paths_of, suggested_values,
    tuple_function, typed_component, with_value,
};
use crate::concept_struct::extended_paths;
use crate::field_laws::{
    has_path, named_component, path_of, references_refer, refers_to_all, type_of,
};
use crate::fields::{path_call, path_reference};
use crate::items::{Concept, ConceptComponent, Context, ItemMap, TypePrinter};
use crate::semipretty::semipretty;
use crate::struct_laws::{are_complete, asks_for_paths, marked_paths, takes_id};
use crate::text::joined;
use crate::token_laws::{
    allows, allows_in_clippy, calls, comes_apart, comes_apart_at_commas,
    concatenations_come_apart, content, equal_parts_stand_in_order, is_arrow, is_documentation,
    is_group, is_path_sign, is_unit, separated_lists_come_apart, sign, word,
};
use crate::tokens::{concatenated, Delimiter, Template, Token};
use crate::values::value_tokens;
use vstd::prelude::*;

verus! {

// -------------------------------------------------------------------------------------------
// Components

/// The paths of components.
pub open spec fn expected_paths(items: ItemMap, parts: Seq<ConceptComponent>) -> Seq<Seq<Token>> {
    parts.map_values(|part: ConceptComponent| path_of(items, part))
}

/// The types of components.
pub open spec fn expected_types(
    items: ItemMap,
    printer: TypePrinter,
    parts: Seq<ConceptComponent>,
) -> Seq<Seq<Token>> {
    parts.map_values(|part: ConceptComponent| type_of(items, printer, part))
}

/// The expressions of the suggested values of components.
pub open spec fn expected_values(items: ItemMap, parts: Seq<ConceptComponent>) -> Seq<Seq<Token>> {
    parts.map_values(
        |part: ConceptComponent| value_tokens(items, part.value.suggested->0->Resolved_value),
    )
}

/// There is a path for every component and in the same order, if all of them have one.
pub proof fn every_component_has_its_path(items: ItemMap, parts: Seq<ConceptComponent>)
    requires
        forall|i: int| 0 <= i < parts.len() ==> has_path(items, #[trigger] parts[i]),
    ensures
        paths_of(items, parts) == Ok::<Seq<Seq<Token>>, Seq<char>>(expected_paths(items, parts)),
    decreases parts.len(),
{
    if parts.len() > 0 {
        let rest = parts.drop_last();
        assert forall|i: int| 0 <= i < rest.len() implies has_path(items, #[trigger] rest[i]) by {
            assert(rest[i] == parts[i]);
        }
        every_component_has_its_path(items, rest);
        assert(parts.last() == parts[parts.len() - 1]);
        assert(expected_paths(items, parts) =~= expected_paths(items, rest).push(
            path_of(items, parts.last()),
        ));
    } else {
        assert(expected_paths(items, parts) =~= seq![]);
    }
}

/// The first component without a path decides the error.
pub proof fn the_first_missing_path_counts(
    items: ItemMap,
    parts: Seq<ConceptComponent>,
    first: int,
)
    requires
        0 <= first < parts.len(),
        forall|i: int| 0 <= i < first ==> has_path(items, #[trigger] parts[i]),
        !has_path(items, parts[first]),
    ensures
        paths_of(items, parts) == Err::<Seq<Seq<Token>>, Seq<char>>(
            named_component(items, parts[first]).path->Err_0.message@,
        ),
    decreases parts.len(),
{
    let rest = parts.drop_last();
    assert forall|i: int| 0 <= i < first implies has_path(items, #[trigger] rest[i]) by {
        assert(rest[i] == parts[i]);
    }
    if first == parts.len() - 1 {
        every_component_has_its_path(items, rest);
        assert(parts.last() == parts[first]);
    } else {
        assert(rest[first] == parts[first]);
        the_first_missing_path_counts(items, rest, first);
    }
}

// -------------------------------------------------------------------------------------------
// Documentation

/// The lines on the components of a concept: the path, the type and the suggested value of each.
pub open spec fn expected_lines(
    items: ItemMap,
    printer: TypePrinter,
    parts: Seq<ConceptComponent>,
) -> Seq<Seq<char>> {
    Seq::new(
        parts.len(),
        |i: int|
            "  \""@ + named_component(items, parts[i]).display_path@ + "\": "@ + semipretty(
                type_of(items, printer, parts[i]),
            ) + " = "@ + parts[i].value.suggested->0->Resolved_display@ + ",\n"@,
    )
}

/// There is a line for every component, in order.
proof fn every_component_has_a_line(
    items: ItemMap,
    printer: TypePrinter,
    parts: Seq<ConceptComponent>,
)
    requires
        are_complete(items, printer, parts),
    ensures
        definition_lines(items, printer, parts) == expected_lines(
            items,
            printer,
            parts,
        ).flatten(),
    decreases parts.len(),
{
    let lines = expected_lines(items, printer, parts);
    if parts.len() > 0 {
        let rest = parts.drop_last();
        assert(are_complete(items, printer, rest)) by {
            assert(forall|i: int| 0 <= i < rest.len() ==> #[trigger] rest[i] == parts[i]);
        }
        every_component_has_a_line(items, printer, rest);
        let rest_lines = expected_lines(items, printer, rest);
        assert(rest_lines =~= lines.drop_last());
        assert(parts.last() == parts[parts.len() - 1]);
        assert(crate::field_laws::has_type(items, printer, parts.last()));
        assert(lines.last() == definition_line(items, printer, parts.last()));
        rest_lines.lemma_flatten_push(lines.last());
        assert(rest_lines.push(lines.last()) =~= lines);
    }
}

/// The list of a concept's components shows the concepts that it extends, if there are any, and a
/// line for every required component, in order.
pub proof fn component_lists_are_complete(
    items: ItemMap,
    printer: TypePrinter,
    concept: Concept,
)
    requires
        are_complete(items, printer, concept.required_components@),
    ensures
        ({
            let extended = if concept.extends@.len() == 0 {
                Seq::empty()
            } else {
                "**Extends**: "@ + joined(
                    marked_paths(items, concept.extends@, Seq::empty()),
                    ", "@,
                ) + "\n\n"@
            };
            component_list_doc(items, printer, concept) == extended
                + "**Definition**:\n```ignore\n{\n"@ + expected_lines(
                items,
                printer,
                concept.required_components@,
            ).flatten() + "}\n```\n"@
        }),
{
    every_component_has_a_line(items, printer, concept.required_components@);
    let bare = marked_paths(items, concept.extends@, Seq::empty());
    assert forall|i: int| 0 <= i < bare.len() implies #[trigger] bare[i] == extended_paths(
        items,
        concept.extends@,
    )[i] by {
        let path = items.concepts@[concept.extends@[i].0 as int].display_path@;
        assert(Seq::<char>::empty() + path + Seq::<char>::empty() =~= path);
    }
    assert(extended_paths(items, concept.extends@) =~= bare);
}

/// The text of a function's documentation: a sentence with the name of the concept in it, the
/// description of the concept, if it has one, and the list of its components.
pub open spec fn expected_doc(
    before: &str,
    after: &str,
    items: ItemMap,
    printer: TypePrinter,
    concept: Concept,
) -> Seq<char> {
    let name = match concept.name {
        Some(name) => name@,
        None => concept.id@,
    };
    let description = match concept.description {
        Some(text) => text@,
        None => Seq::empty(),
    };
    before@ + name + after@ + description + "\n\n"@ + component_list_doc(items, printer, concept)
}

// -------------------------------------------------------------------------------------------
// Making an entity

/// Whether tokens are `.with(path(), value)`.
pub open spec fn passes_value(tokens: Seq<Token>, path: Seq<Token>, value: Seq<Token>) -> bool {
    let arguments = content(tokens[2]);
    let n = path.len() as int;
    &&& tokens.len() == 3
    &&& tokens[0] == sign('.')
    &&& tokens[1] == word("with")
    &&& is_group(tokens[2], Delimiter::Parenthesis)
    &&& arguments.len() == n + 2 + value.len()
    &&& calls(arguments.take(n + 1), path)
    &&& arguments[n + 1] == sign(',')
    &&& arguments.skip(n + 2) == value
}

/// Whether tokens are `.with(path(), value)` for each path and value, in order and nothing else.
pub open spec fn passes_values(
    tokens: Seq<Token>,
    paths: Seq<Seq<Token>>,
    values: Seq<Seq<Token>>,
) -> bool {
    exists|parts: Seq<Seq<Token>>|
        {
            &&& #[trigger] comes_apart(tokens, parts)
            &&& parts.len() == paths.len()
            &&& forall|i: int|
                0 <= i < paths.len() ==> passes_value(#[trigger] parts[i], paths[i], values[i])
        }
}

/// Whether tokens are the function that makes an entity: a new one, with every component.
pub open spec fn is_make_function(
    tokens: Seq<Token>,
    name: Seq<char>,
    doc: Seq<char>,
    paths: Seq<Seq<Token>>,
    values: Seq<Seq<Token>>,
) -> bool {
    let body = content(tokens[13]);
    &&& tokens.len() == 14
    &&& allows_in_clippy(tokens, 0, "approx_constant")
    &&& allows(tokens, 2, "non_snake_case")
    &&& is_documentation(tokens, 4, doc)
    &&& tokens[6] == word("pub")
    &&& tokens[7] == word("fn")
    &&& tokens[8] == Token::Ident("make_"@ + name)
    &&& is_unit(tokens[9])
    &&& is_arrow(tokens, 10)
    &&& tokens[12] == word("Entity")
    &&& is_group(tokens[13], Delimiter::Brace)
    &&& body.len() == 5 + 3 * paths.len()
    &&& body[0] == word("Entity")
    &&& is_path_sign(body, 1)
    &&& body[3] == word("new")
    &&& is_unit(body[4])
    &&& passes_values(body.skip(5), paths, values)
}

/// The function that makes an entity gives it every component with its value, in order.
proof fn make_function_is_complete(
    name: Seq<char>,
    doc: Seq<char>,
    paths: Seq<Seq<Token>>,
    values: Seq<Seq<Token>>,
)
    ensures
        is_make_function(make_function(name, doc, paths, values), name, doc, paths, values),
{
    let tokens = make_function(name, doc, paths, values);
    let parts = Seq::new(paths.len(), |i: int| with_value(paths[i], values[i]));
    assert forall|i: int| 0 <= i < paths.len() implies passes_value(
        #[trigger] parts[i],
        paths[i],
        values[i],
    ) by {
        let arguments = content(parts[i][2]);
        let n = paths[i].len() as int;
        assert(arguments.take(n + 1).take(n) =~= paths[i]);
        assert(arguments.skip(n + 2) =~= values[i]);
    }
    concatenations_come_apart(parts);
    equal_parts_stand_in_order(parts, 3);
    let body = content(tokens[13]);
    assert(body.skip(5) =~= concatenated(parts));
    assert(comes_apart(body.skip(5), parts));
}

/// The function that makes an entity of a concept gives it every required component with the value
/// that the concept suggests for it, in order and nothing else.
pub proof fn make_gives_every_component(items: ItemMap, printer: TypePrinter, concept: Concept)
    requires
        forall|i: int|
            0 <= i < concept.required_components@.len() ==> has_path(
                items,
                #[trigger] concept.required_components@[i],
            ),
    ensures
        concept_make(items, printer, concept) is Ok,
        is_make_function(
            concept_make(items, printer, concept)->Ok_0,
            concept.id@,
            expected_doc("Makes a *", "*.\n\n", items, printer, concept),
            expected_paths(items, concept.required_components@),
            expected_values(items, concept.required_components@),
        ),
{
    let parts = concept.required_components@;
    every_component_has_its_path(items, parts);
    make_function_is_complete(
        concept.id@,
        expected_doc("Makes a *", "*.\n\n", items, printer, concept),
        expected_paths(items, parts),
        expected_values(items, parts),
    );
    assert(suggested_values(items, parts) =~= expected_values(items, parts));
    assert(function_doc("Makes a *", "*.\n\n", items, printer, concept) =~= expected_doc(
        "Makes a *",
        "*.\n\n",
        items,
        printer,
        concept,
    ));
}

// -------------------------------------------------------------------------------------------
// Testing an entity

/// Whether tokens are the function that tests an entity in guest code.
pub open spec fn is_guest_test(
    tokens: Seq<Token>,
    name: Seq<char>,
    doc: Seq<char>,
    paths: Seq<Seq<Token>>,
) -> bool {
    &&& tokens.len() == 12
    &&& is_documentation(tokens, 0, doc)
    &&& allows(tokens, 2, "non_snake_case")
    &&& tokens[4] == word("pub")
    &&& tokens[5] == word("fn")
    &&& tokens[6] == Token::Ident("is_"@ + name)
    &&& takes_id(tokens[7])
    &&& is_arrow(tokens, 8)
    &&& tokens[10] == word("bool")
    &&& is_group(tokens[11], Delimiter::Brace)
    &&& asks_for_paths(content(tokens[11]), paths)
}

/// Whether tokens are `set.insert(path().desc());`.
pub open spec fn inserts_description(tokens: Seq<Token>, path: Seq<Token>) -> bool {
    let argument = content(tokens[3]);
    let n = path.len() as int;
    &&& tokens.len() == 5
    &&& tokens[0] == word("set")
    &&& tokens[1] == sign('.')
    &&& tokens[2] == word("insert")
    &&& is_group(tokens[3], Delimiter::Parenthesis)
    &&& tokens[4] == sign(';')
    &&& argument.len() == n + 4
    &&& calls(argument.take(n + 1), path)
    &&& argument[n + 1] == sign('.')
    &&& argument[n + 2] == word("desc")
    &&& is_unit(argument[n + 3])
}

/// Whether tokens are `set.insert(path().desc());` for each path, in order and nothing else.
pub open spec fn inserts_descriptions(tokens: Seq<Token>, paths: Seq<Seq<Token>>) -> bool {
    exists|parts: Seq<Seq<Token>>|
        {
            &&& #[trigger] comes_apart(tokens, parts)
            &&& parts.len() == paths.len()
            &&& forall|i: int|
                0 <= i < paths.len() ==> inserts_description(#[trigger] parts[i], paths[i])
        }
}

/// Whether tokens are the block that collects the descriptions of components in a set.
pub open spec fn collects_descriptions(tokens: Seq<Token>, paths: Seq<Seq<Token>>) -> bool {
    &&& tokens.len() == 14 + 5 * paths.len()
    &&& tokens[0] == word("let")
    &&& tokens[1] == word("mut")
    &&& tokens[2] == word("set")
    &&& tokens[3] == sign('=')
    &&& tokens[4] == word("crate")
    &&& is_path_sign(tokens, 5)
    &&& tokens[7] == word("ComponentSet")
    &&& is_path_sign(tokens, 8)
    &&& tokens[10] == word("new")
    &&& is_unit(tokens[11])
    &&& tokens[12] == sign(';')
    &&& inserts_descriptions(tokens.subrange(13, tokens.len() - 1), paths)
    &&& tokens.last() == word("set")
}

/// Whether a token is `(world: &crate::World, id: EntityId)`.
pub open spec fn takes_world(token: Token) -> bool {
    let inner = content(token);
    &&& is_group(token, Delimiter::Parenthesis)
    &&& inner.len() == 11
    &&& inner[0] == word("world")
    &&& inner[1] == sign(':')
    &&& inner[2] == sign('&')
    &&& inner[3] == word("crate")
    &&& is_path_sign(inner, 4)
    &&& inner[6] == word("World")
    &&& inner[7] == sign(',')
    &&& inner[8] == word("id")
    &&& inner[9] == sign(':')
    &&& inner[10] == word("EntityId")
}

/// Whether tokens are the function that tests an entity on the host.
pub open spec fn is_host_test(
    tokens: Seq<Token>,
    name: Seq<char>,
    doc: Seq<char>,
    paths: Seq<Seq<Token>>,
) -> bool {
    let body = content(tokens[11]);
    let arguments = content(body[3]);
    &&& tokens.len() == 12
    &&& is_documentation(tokens, 0, doc)
    &&& allows(tokens, 2, "non_snake_case")
    &&& tokens[4] == word("pub")
    &&& tokens[5] == word("fn")
    &&& tokens[6] == Token::Ident("is_"@ + name)
    &&& takes_world(tokens[7])
    &&& is_arrow(tokens, 8)
    &&& tokens[10] == word("bool")
    &&& is_group(tokens[11], Delimiter::Brace)
    &&& body.len() == 4
    &&& body[0] == word("world")
    &&& body[1] == sign('.')
    &&& body[2] == word("has_components")
    &&& is_group(body[3], Delimiter::Parenthesis)
    &&& arguments.len() == 4
    &&& arguments[0] == word("id")
    &&& arguments[1] == sign(',')
    &&& arguments[2] == sign('&')
    &&& is_group(arguments[3], Delimiter::Brace)
    &&& collects_descriptions(content(arguments[3]), paths)
}

/// The functions that test an entity ask for every path, in order.
proof fn tests_are_complete(name: Seq<char>, doc: Seq<char>, paths: Seq<Seq<Token>>)
    ensures
        is_guest_test(guest_is_function(name, doc, paths), name, doc, paths),
        is_host_test(host_is_function(name, doc, paths), name, doc, paths),
{
    let references = paths.map_values(|path: Seq<Token>| path_reference(path));
    separated_lists_come_apart(references);
    let insertions = paths.map_values(|path: Seq<Token>| insert_description(path));
    concatenations_come_apart(insertions);
    assert forall|i: int| 0 <= i < paths.len() implies crate::token_laws::refers_to(
        #[trigger] references[i],
        paths[i],
    ) by {
        references_refer(paths[i]);
    }
    assert forall|i: int| 0 <= i < paths.len() implies inserts_description(
        #[trigger] insertions[i],
        paths[i],
    ) by {
        let argument = content(insertions[i][3]);
        let n = paths[i].len() as int;
        assert(argument.take(n + 1).take(n) =~= paths[i]);
    }
    equal_parts_stand_in_order(insertions, 5);
    let guest = guest_is_function(name, doc, paths);
    let list = content(content(content(guest[11])[4])[3]);
    assert(comes_apart_at_commas(list, references));
    assert(refers_to_all(list, paths));
    let host = host_is_function(name, doc, paths);
    let block = content(content(content(host[11])[3])[3]);
    assert(block.subrange(13, block.len() - 1) =~= concatenated(insertions));
    assert(comes_apart(block.subrange(13, block.len() - 1), insertions));
}

/// The function that tests an entity for a concept asks for every required component, however many
/// there are, in order and nothing else: in guest code by a list of references, on the host by a
/// set.
pub proof fn tests_ask_for_every_component(
    items: ItemMap,
    printer: TypePrinter,
    context: Context,
    concept: Concept,
)
    requires
        forall|i: int|
            0 <= i < concept.required_components@.len() ==> has_path(
                items,
                #[trigger] concept.required_components@[i],
            ),
    ensures
        concept_is(items, printer, context, concept) is Ok,
        ({
            let tokens = concept_is(items, printer, context, concept)->Ok_0;
            let doc = expected_doc(
                "Checks if the entity is a *",
                "*.\n\n",
                items,
                printer,
                concept,
            );
            let paths = expected_paths(items, concept.required_components@);
            if context is Host {
                is_host_test(tokens, concept.id@, doc, paths)
            } else {
                is_guest_test(tokens, concept.id@, doc, paths)
            }
        }),
{
    let doc = expected_doc("Checks if the entity is a *", "*.\n\n", items, printer, concept);
    let paths = expected_paths(items, concept.required_components@);
    every_component_has_its_path(items, concept.required_components@);
    tests_are_complete(concept.id@, doc, paths);
    assert(function_doc("Checks if the entity is a *", "*.\n\n", items, printer, concept) =~= doc);
}

// -------------------------------------------------------------------------------------------
// Listing the components

/// Whether tokens are `Component<type>`.
pub open spec fn is_typed_component(tokens: Seq<Token>, ty: Seq<Token>) -> bool {
    &&& tokens.len() == ty.len() + 3
    &&& tokens[0] == word("Component")
    &&& tokens[1] == sign('<')
    &&& tokens.subrange(2, tokens.len() - 1) == ty
    &&& tokens.last() == sign('>')
}

/// Whether tokens are `Component<type>` for each type, with commas between them and nothing else.
pub open spec fn lists_types(tokens: Seq<Token>, types: Seq<Seq<Token>>) -> bool {
    exists|parts: Seq<Seq<Token>>|
        {
            &&& #[trigger] comes_apart_at_commas(tokens, parts)
            &&& parts.len() == types.len()
            &&& forall|i: int|
                0 <= i < types.len() ==> is_typed_component(#[trigger] parts[i], types[i])
        }
}

/// Whether tokens are the call of each path, with commas between them and nothing else.
pub open spec fn calls_all(tokens: Seq<Token>, paths: Seq<Seq<Token>>) -> bool {
    exists|parts: Seq<Seq<Token>>|
        {
            &&& #[trigger] comes_apart_at_commas(tokens, parts)
            &&& parts.len() == paths.len()
            &&& forall|i: int| 0 <= i < paths.len() ==> calls(#[trigger] parts[i], paths[i])
        }
}

/// Whether tokens are the function that gives the components as a tuple.
pub open spec fn is_tuple_function(
    tokens: Seq<Token>,
    name: Seq<char>,
    doc: Seq<char>,
    paths: Seq<Seq<Token>>,
    types: Seq<Seq<Token>>,
) -> bool {
    let body = content(tokens[13]);
    &&& tokens.len() == 14
    &&& is_documentation(tokens, 0, doc)
    &&& allows_in_clippy(tokens, 2, "type_complexity")
    &&& allows(tokens, 4, "non_snake_case")
    &&& tokens[6] == word("pub")
    &&& tokens[7] == word("fn")
    &&& tokens[8] == Token::Ident("tuple_"@ + name)
    &&& is_unit(tokens[9])
    &&& is_arrow(tokens, 10)
    &&& is_group(tokens[12], Delimiter::Parenthesis)
    &&& lists_types(content(tokens[12]), types)
    &&& is_group(tokens[13], Delimiter::Brace)
    &&& body.len() == 1
    &&& is_group(body[0], Delimiter::Parenthesis)
    &&& calls_all(content(body[0]), paths)
}

/// The function that gives the components has every type and every path, in order.
proof fn tuple_function_is_complete(
    name: Seq<char>,
    doc: Seq<char>,
    paths: Seq<Seq<Token>>,
    types: Seq<Seq<Token>>,
)
    ensures
        is_tuple_function(tuple_function(name, doc, paths, types), name, doc, paths, types),
{
    let tokens = tuple_function(name, doc, paths, types);
    let typed = types.map_values(|ty: Seq<Token>| typed_component(ty));
    let called = paths.map_values(|path: Seq<Token>| path_call(path));
    separated_lists_come_apart(typed);
    separated_lists_come_apart(called);
    assert forall|i: int| 0 <= i < types.len() implies is_typed_component(
        #[trigger] typed[i],
        types[i],
    ) by {
        assert(typed[i].subrange(2, typed[i].len() - 1) =~= types[i]);
    }
    assert forall|i: int| 0 <= i < paths.len() implies calls(#[trigger] called[i], paths[i]) by {
        references_refer(paths[i]);
    }
    assert(comes_apart_at_commas(content(tokens[12]), typed));
    assert(comes_apart_at_commas(content(content(tokens[13])[0]), called));
}

/// The function that lists the components of a concept gives the type and the path of every
/// required component, in order and nothing else.
pub proof fn tuples_list_every_component(items: ItemMap, printer: TypePrinter, concept: Concept)
    requires
        are_complete(items, printer, concept.required_components@),
    ensures
        concept_tuple(items, printer, concept) is Ok,
        is_tuple_function(
            concept_tuple(items, printer, concept)->Ok_0,
            concept.id@,
            expected_doc(
                "Returns the components that comprise *",
                "* as a tuple.\n\n",
                items,
                printer,
                concept,
            ),
            expected_paths(items, concept.required_components@),
            expected_types(items, printer, concept.required_components@),
        ),
{
    let parts = concept.required_components@;
    let doc = expected_doc(
        "Returns the components that comprise *",
        "* as a tuple.\n\n",
        items,
        printer,
        concept,
    );
    every_component_has_its_path(items, parts);
    tuple_function_is_complete(
        concept.id@,
        doc,
        expected_paths(items, parts),
        expected_types(items, printer, parts),
    );
    assert forall|i: int| 0 <= i < parts.len() implies component_types(items, printer, parts)[i]
        == #[trigger] expected_types(items, printer, parts)[i] by {
        assert(crate::field_laws::has_type(items, printer, parts[i]));
    }
    assert(component_types(items, printer, parts) =~= expected_types(items, printer, parts));
    assert(function_doc(
        "Returns the components that comprise *",
        "* as a tuple.\n\n",
        items,
        printer,
        concept,
    ) =~= doc);
}

// -------------------------------------------------------------------------------------------
// All of them

/// The functions of a concept are the one that makes an entity, the one that tests an entity and
/// the one that lists the components, in this order and nothing else.
pub proof fn functions_stand_in_order(
    items: ItemMap,
    printer: TypePrinter,
    context: Context,
    concept: Concept,
)
    requires
        are_complete(items, printer, concept.required_components@),
    ensures
        concept_functions(items, printer, context, concept) is Ok,
        ({
            let all = concept_functions(items, printer, context, concept)->Ok_0;
            &&& all.len() == 40
            &&& all.subrange(0, 14) == concept_make(items, printer, concept)->Ok_0
            &&& all.subrange(14, 26) == concept_is(items, printer, context, concept)->Ok_0
            &&& all.subrange(26, 40) == concept_tuple(items, printer, concept)->Ok_0
        }),
{
    let parts = concept.required_components@;
    assert forall|i: int| 0 <= i < parts.len() implies has_path(items, #[trigger] parts[i]) by {
        assert(crate::field_laws::has_type(items, printer, parts[i]));
    }
    make_gives_every_component(items, printer, concept);
    tests_ask_for_every_component(items, printer, context, concept);
    tuples_list_every_component(items, printer, concept);
    let all = concept_functions(items, printer, context, concept)->Ok_0;
    assert(all.subrange(0, 14) =~= concept_make(items, printer, concept)->Ok_0);
    assert(all.subrange(14, 26) =~= concept_is(items, printer, context, concept)->Ok_0);
    assert(all.subrange(26, 40) =~= concept_tuple(items, printer, concept)->Ok_0);
}

/// Each function fails with the error of the first required component without a path.
pub proof fn functions_fail_on_the_first_missing_path(
    items: ItemMap,
    printer: TypePrinter,
    context: Context,
    concept: Concept,
    first: int,
)
    requires
        0 <= first < concept.required_components@.len(),
        forall|i: int|
            0 <= i < first ==> has_path(items, #[trigger] concept.required_components@[i]),
        !has_path(items, concept.required_components@[first]),
    ensures
        ({
            let message = named_component(
                items,
                concept.required_components@[first],
            ).path->Err_0.message@;
            let error = Err::<Seq<Token>, Seq<char>>(message);
            &&& concept_make(items, printer, concept) == error
            &&& concept_is(items, printer, context, concept) == error
            &&& concept_tuple(items, printer, concept) == error
            &&& concept_functions(items, printer, context, concept) == error
        }),
{
    the_first_missing_path_counts(items, concept.required_components@, first);
}

} // verus!

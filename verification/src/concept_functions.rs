//! The functions of a concept: one that makes an entity with the suggested values, one that
//! tests an entity, and one that lists the components.
use crate::concept_struct::{
    display_name, extended_paths, write_display_name, write_extended_paths,
};
use crate::fields::{
    copy_error, doc_attribute, path_call, path_reference, quote_doc_attribute, quote_path_call,
    quote_path_reference,
};
use crate::items::{
    printed, Concept, ConceptComponent, ConceptComponents, ConceptId, Context, ItemMap, PrintError,
    ResolvableValue, TypePrinter, Value,
};
use crate::semipretty::{semipretty, write_stream};
use crate::text::joined;
use crate::tokens::{
    comma_separated, comma_separated_step, concatenated, concatenated_step, is_identifier,
    nothing_before, stream_tokens, template, Quote, Template, Token,
};
use crate::values::{value_to_token_stream, value_tokens};
use proc_macro2::TokenStream;
use vstd::prelude::*;

verus! {

// -------------------------------------------------------------------------------------------
// What the functions need of a component

/// Whether a component has a suggested value that is resolved.
pub open spec fn is_suggested(part: ConceptComponent) -> bool {
    part.value.suggested matches Some(ResolvableValue::Resolved { .. })
}

/// The suggested value of a component.
pub open spec fn suggested_value(part: ConceptComponent) -> Value {
    part.value.suggested->0->value
}

/// The text that shows the suggested value of a component.
pub open spec fn suggested_text(part: ConceptComponent) -> Seq<char> {
    part.value.suggested->0->display@
}

/// The printed type of a component.
pub open spec fn component_type(
    items: ItemMap,
    printer: TypePrinter,
    part: ConceptComponent,
) -> Result<Seq<Token>, Seq<char>> {
    printer.type_tokens(items.component(part.component).type_)
}

/// Whether every component has a suggested value that is resolved.
pub open spec fn are_suggested(parts: Seq<ConceptComponent>) -> bool {
    forall|i: int| 0 <= i < parts.len() ==> is_suggested(#[trigger] parts[i])
}

/// Whether every component has a type that can be printed.
pub open spec fn are_typed(
    items: ItemMap,
    printer: TypePrinter,
    parts: Seq<ConceptComponent>,
) -> bool {
    forall|i: int|
        0 <= i < parts.len() ==> {
            &&& items.has_component((#[trigger] parts[i]).component)
            &&& printer.knows(items.component(parts[i].component).type_)
            &&& component_type(items, printer, parts[i]) is Ok
        }
}

/// Whether all is there that the documentation of a concept's functions shows.
pub open spec fn is_documentable(items: ItemMap, printer: TypePrinter, concept: Concept) -> bool {
    &&& items.has_all_concepts(concept.extends@)
    &&& are_typed(items, printer, concept.required_components@)
    &&& are_suggested(concept.required_components@)
}

/// Whether every component has a path.
pub open spec fn have_paths(items: ItemMap, parts: Seq<ConceptComponent>) -> bool {
    forall|i: int|
        0 <= i < parts.len() ==> items.component((#[trigger] parts[i]).component).path is Ok
}

/// Whether the suggested values of components are in the map. Nothing is asked of a value whose
/// component has no path or stands behind one without a path.
pub open spec fn have_values(items: ItemMap, parts: Seq<ConceptComponent>) -> bool {
    forall|i: int|
        0 <= i < parts.len() && have_paths(items, parts.take(i + 1)) ==> items.has_suggested(
            (#[trigger] parts[i]).value,
        )
}

/// The paths of components, or the error of the first that has none.
pub open spec fn paths_of(items: ItemMap, parts: Seq<ConceptComponent>) -> Result<
    Seq<Seq<Token>>,
    Seq<char>,
>
    decreases parts.len(),
{
    if parts.len() == 0 {
        Ok(seq![])
    } else {
        match paths_of(items, parts.drop_last()) {
            Err(message) => Err(message),
            Ok(paths) => match printed(items.component(parts.last().component).path) {
                Err(message) => Err(message),
                Ok(path) => Ok(paths.push(path)),
            },
        }
    }
}

// -------------------------------------------------------------------------------------------
// Documentation

/// The line on a component in the definition of a concept.
pub open spec fn definition_line(
    items: ItemMap,
    printer: TypePrinter,
    part: ConceptComponent,
) -> Seq<char> {
    "  \""@ + items.component(part.component).display_path@ + "\": "@ + semipretty(
        component_type(items, printer, part)->Ok_0,
    ) + " = "@ + suggested_text(part) + ",\n"@
}

/// The lines on the components in the definition of a concept.
pub open spec fn definition_lines(
    items: ItemMap,
    printer: TypePrinter,
    parts: Seq<ConceptComponent>,
) -> Seq<char>
    decreases parts.len(),
{
    if parts.len() == 0 {
        seq![]
    } else {
        definition_lines(items, printer, parts.drop_last()) + definition_line(
            items,
            printer,
            parts.last(),
        )
    }
}

/// The concepts that a concept extends, where there are any.
pub open spec fn extends_paragraph(items: ItemMap, concept: Concept) -> Seq<char> {
    if concept.extends@.len() > 0 {
        "**Extends**: "@ + joined(extended_paths(items, concept.extends@), ", "@) + "\n\n"@
    } else {
        seq![]
    }
}

/// The list of a concept's components for documentation.
pub open spec fn component_list_doc(
    items: ItemMap,
    printer: TypePrinter,
    concept: Concept,
) -> Seq<char> {
    extends_paragraph(items, concept) + "**Definition**:\n```ignore\n{\n"@ + definition_lines(
        items,
        printer,
        concept.required_components@,
    ) + "}\n```\n"@
}

/// The documentation of a concept's function: a sentence with the name of the concept in it, the
/// description of the concept and the list of its components.
pub open spec fn function_doc(
    before: &str,
    after: &str,
    items: ItemMap,
    printer: TypePrinter,
    concept: Concept,
) -> Seq<char> {
    let description = match concept.description {
        Some(description) => description@,
        None => seq![],
    };
    before@ + display_name(concept) + after@ + description + "\n\n"@ + component_list_doc(
        items,
        printer,
        concept,
    )
}

// -------------------------------------------------------------------------------------------
// Code

/// `.with(path(), value)`
pub open spec fn with_value(path: Seq<Token>, value: Seq<Token>) -> Seq<Token> {
    template().punct('.').ident("with").parens(path_call(path).punct(',').tokens(value))
}

/// `set.insert(path().desc());`
pub open spec fn insert_description(path: Seq<Token>) -> Seq<Token> {
    template().ident("set").punct('.').ident("insert").parens(
        path_call(path).punct('.').ident("desc").parens(template()),
    ).punct(';')
}

/// `Component<type>`
pub open spec fn typed_component(ty: Seq<Token>) -> Seq<Token> {
    template().ident("Component").punct('<').tokens(ty).punct('>')
}

/// `#[allow(non_snake_case)]`
pub open spec fn after_allow_case(attributes: Seq<Token>) -> Seq<Token> {
    attributes.punct('#').brackets(
        template().ident("allow").parens(template().ident("non_snake_case")),
    )
}

/// The function that makes an entity with the suggested values.
pub open spec fn make_function(
    name: Seq<char>,
    doc: Seq<char>,
    paths: Seq<Seq<Token>>,
    values: Seq<Seq<Token>>,
) -> Seq<Token> {
    after_allow_case(
        template().punct('#').brackets(
            template().ident("allow").parens(
                template().ident("clippy").joint(':').punct(':').ident("approx_constant"),
            ),
        ),
    ).tokens(doc_attribute(doc)).ident("pub").ident("fn").name("make_"@ + name).parens(
        template(),
    ).joint('-').punct('>').ident("Entity").braces(
        template().ident("Entity").joint(':').punct(':').ident("new").parens(template()).tokens(
            concatenated(Seq::new(paths.len(), |i: int| with_value(paths[i], values[i]))),
        ),
    )
}

/// The function that tests, on the host, whether an entity has the components.
pub open spec fn host_is_function(
    name: Seq<char>,
    doc: Seq<char>,
    paths: Seq<Seq<Token>>,
) -> Seq<Token> {
    after_allow_case(doc_attribute(doc)).ident("pub").ident("fn").name("is_"@ + name).parens(
        template().ident("world").punct(':').punct('&').ident("crate").joint(':').punct(':').ident(
            "World",
        ).punct(',').ident("id").punct(':').ident("EntityId"),
    ).joint('-').punct('>').ident("bool").braces(
        template().ident("world").punct('.').ident("has_components").parens(
            template().ident("id").punct(',').punct('&').braces(
                template().ident("let").ident("mut").ident("set").punct('=').ident("crate").joint(
                    ':',
                ).punct(':').ident("ComponentSet").joint(':').punct(':').ident("new").parens(
                    template(),
                ).punct(';').tokens(
                    concatenated(paths.map_values(|path: Seq<Token>| insert_description(path))),
                ).ident("set"),
            ),
        ),
    )
}

/// The function that tests, in guest code, whether an entity has the components.
pub open spec fn guest_is_function(
    name: Seq<char>,
    doc: Seq<char>,
    paths: Seq<Seq<Token>>,
) -> Seq<Token> {
    after_allow_case(doc_attribute(doc)).ident("pub").ident("fn").name("is_"@ + name).parens(
        template().ident("id").punct(':').ident("EntityId"),
    ).joint('-').punct('>').ident("bool").braces(
        template().ident("entity").joint(':').punct(':').ident("has_components").parens(
            template().ident("id").punct(',').punct('&').brackets(
                comma_separated(paths.map_values(|path: Seq<Token>| path_reference(path))),
            ),
        ),
    )
}

/// The function that gives the components as a tuple.
pub open spec fn tuple_function(
    name: Seq<char>,
    doc: Seq<char>,
    paths: Seq<Seq<Token>>,
    types: Seq<Seq<Token>>,
) -> Seq<Token> {
    after_allow_case(
        doc_attribute(doc).punct('#').brackets(
            template().ident("allow").parens(
                template().ident("clippy").joint(':').punct(':').ident("type_complexity"),
            ),
        ),
    ).ident("pub").ident("fn").name("tuple_"@ + name).parens(template()).joint('-').punct(
        '>',
    ).parens(comma_separated(types.map_values(|ty: Seq<Token>| typed_component(ty)))).braces(
        template().parens(comma_separated(paths.map_values(|path: Seq<Token>| path_call(path)))),
    )
}

/// The suggested values of components, as expressions.
pub open spec fn suggested_values(items: ItemMap, parts: Seq<ConceptComponent>) -> Seq<
    Seq<Token>,
> {
    parts.map_values(|part: ConceptComponent| value_tokens(items, suggested_value(part)))
}

/// The printed types of components.
pub open spec fn component_types(
    items: ItemMap,
    printer: TypePrinter,
    parts: Seq<ConceptComponent>,
) -> Seq<Seq<Token>> {
    parts.map_values(|part: ConceptComponent| component_type(items, printer, part)->Ok_0)
}

/// The function that makes an entity of a concept, or the error of the first required component
/// that has no path.
pub open spec fn concept_make(
    items: ItemMap,
    printer: TypePrinter,
    concept: Concept,
) -> Result<Seq<Token>, Seq<char>> {
    match paths_of(items, concept.required_components@) {
        Err(message) => Err(message),
        Ok(paths) => Ok(
            make_function(
                concept.id@,
                function_doc("Makes a *", "*.\n\n", items, printer, concept),
                paths,
                suggested_values(items, concept.required_components@),
            ),
        ),
    }
}

/// The function that tests an entity for a concept, or the error of the first required component
/// that has no path.
pub open spec fn concept_is(
    items: ItemMap,
    printer: TypePrinter,
    context: Context,
    concept: Concept,
) -> Result<Seq<Token>, Seq<char>> {
    let doc = function_doc("Checks if the entity is a *", "*.\n\n", items, printer, concept);
    match paths_of(items, concept.required_components@) {
        Err(message) => Err(message),
        Ok(paths) => match context {
            Context::Host => Ok(host_is_function(concept.id@, doc, paths)),
            _ => Ok(guest_is_function(concept.id@, doc, paths)),
        },
    }
}

/// The function that lists the components of a concept, or the error of the first required
/// component that has no path.
pub open spec fn concept_tuple(
    items: ItemMap,
    printer: TypePrinter,
    concept: Concept,
) -> Result<Seq<Token>, Seq<char>> {
    match paths_of(items, concept.required_components@) {
        Err(message) => Err(message),
        Ok(paths) => Ok(
            tuple_function(
                concept.id@,
                function_doc(
                    "Returns the components that comprise *",
                    "* as a tuple.\n\n",
                    items,
                    printer,
                    concept,
                ),
                paths,
                component_types(items, printer, concept.required_components@),
            ),
        ),
    }
}

/// The functions of a concept one after the other, or the first error among them.
pub open spec fn concept_functions(
    items: ItemMap,
    printer: TypePrinter,
    context: Context,
    concept: Concept,
) -> Result<Seq<Token>, Seq<char>> {
    match concept_make(items, printer, concept) {
        Err(message) => Err(message),
        Ok(make) => match concept_is(items, printer, context, concept) {
            Err(message) => Err(message),
            Ok(is) => match concept_tuple(items, printer, concept) {
                Err(message) => Err(message),
                Ok(tuple) => Ok(make.tokens(is).tokens(tuple)),
            },
        },
    }
}

// -------------------------------------------------------------------------------------------

/// The words of these functions are identifiers.
proof fn words_are_identifiers()
    ensures
        is_identifier("Component"@),
        is_identifier("ComponentSet"@),
        is_identifier("Entity"@),
        is_identifier("EntityId"@),
        is_identifier("World"@),
        is_identifier("allow"@),
        is_identifier("approx_constant"@),
        is_identifier("bool"@),
        is_identifier("clippy"@),
        is_identifier("crate"@),
        is_identifier("desc"@),
        is_identifier("entity"@),
        is_identifier("fn"@),
        is_identifier("has_components"@),
        is_identifier("id"@),
        is_identifier("insert"@),
        is_identifier("is_"@),
        is_identifier("let"@),
        is_identifier("make_"@),
        is_identifier("mut"@),
        is_identifier("new"@),
        is_identifier("non_snake_case"@),
        is_identifier("pub"@),
        is_identifier("set"@),
        is_identifier("tuple_"@),
        is_identifier("type_complexity"@),
        is_identifier("with"@),
        is_identifier("world"@),
{
    reveal_strlit("Component");
    reveal_strlit("ComponentSet");
    reveal_strlit("Entity");
    reveal_strlit("EntityId");
    reveal_strlit("World");
    reveal_strlit("allow");
    reveal_strlit("approx_constant");
    reveal_strlit("bool");
    reveal_strlit("clippy");
    reveal_strlit("crate");
    reveal_strlit("desc");
    reveal_strlit("entity");
    reveal_strlit("fn");
    reveal_strlit("has_components");
    reveal_strlit("id");
    reveal_strlit("insert");
    reveal_strlit("is_");
    reveal_strlit("let");
    reveal_strlit("make_");
    reveal_strlit("mut");
    reveal_strlit("new");
    reveal_strlit("non_snake_case");
    reveal_strlit("pub");
    reveal_strlit("set");
    reveal_strlit("tuple_");
    reveal_strlit("type_complexity");
    reveal_strlit("with");
    reveal_strlit("world");
}

/// An error among the first components is the error of all of them.
proof fn first_error_counts(items: ItemMap, parts: Seq<ConceptComponent>, i: int)
    requires
        0 <= i <= parts.len(),
        paths_of(items, parts.take(i)) is Err,
    ensures
        paths_of(items, parts) == paths_of(items, parts.take(i)),
    decreases parts.len() - i,
{
    if i == parts.len() {
        assert(parts.take(i) =~= parts);
    } else {
        assert(parts.take(i + 1).drop_last() =~= parts.take(i));
        first_error_counts(items, parts, i + 1);
    }
}

/// The tokens of streams.
pub open spec fn all_tokens(streams: Seq<&TokenStream>) -> Seq<Seq<Token>> {
    streams.map_values(|stream: &TokenStream| stream_tokens(*stream))
}

/// There are paths if and only if every component has one.
pub(crate) proof fn components_with_paths(items: ItemMap, parts: Seq<ConceptComponent>)
    ensures
        paths_of(items, parts) is Ok <==> have_paths(items, parts),
    decreases parts.len(),
{
    if parts.len() > 0 {
        let rest = parts.drop_last();
        components_with_paths(items, rest);
        assert(parts.last() == parts[parts.len() - 1]);
        assert forall|i: int| 0 <= i < rest.len() implies rest[i] == #[trigger] parts[i] by {}
        if have_paths(items, parts) {
            assert forall|i: int| 0 <= i < rest.len() implies items.component(
                (#[trigger] rest[i]).component,
            ).path is Ok by {
                assert(rest[i] == parts[i]);
            }
        }
    }
}

/// The paths of components, or the error of the first that has none.
fn component_paths<'a>(items: &'a ItemMap, parts: &ConceptComponents) -> (r: Result<
    Vec<&'a TokenStream>,
    PrintError,
>)
    requires
        forall|i: int|
            0 <= i < parts@.len() ==> items.has_component((#[trigger] parts@[i]).component),
    ensures
        match r {
            Ok(paths) => paths_of(*items, parts@) == Ok::<Seq<Seq<Token>>, Seq<char>>(
                all_tokens(paths@),
            ),
            Err(error) => paths_of(*items, parts@) == Err::<Seq<Seq<Token>>, Seq<char>>(
                error.message@,
            ),
        },
{
    let mut paths: Vec<&'a TokenStream> = Vec::new();
    let mut i: usize = 0;
    assert(all_tokens(paths@) =~= seq![]);
    while i < parts.len()
        invariant
            i <= parts@.len(),
            forall|i: int|
                0 <= i < parts@.len() ==> items.has_component((#[trigger] parts@[i]).component),
            paths_of(*items, parts@.take(i as int)) == Ok::<Seq<Seq<Token>>, Seq<char>>(
                all_tokens(paths@),
            ),
        decreases parts@.len() - i,
    {
        assert(parts@.take(i + 1).drop_last() =~= parts@.take(i as int));
        match &items.get_component(parts.get(i).component).path {
            Ok(path) => {
                let ghost before = all_tokens(paths@);
                paths.push(path);
                assert(all_tokens(paths@) =~= before.push(stream_tokens(*path)));
            },
            Err(error) => {
                proof {
                    first_error_counts(*items, parts@, i + 1);
                }
                return Err(copy_error(error));
            },
        }
        i = i + 1;
    }
    assert(parts@.take(i as int) =~= parts@);
    Ok(paths)
}

/// The list of a concept's components for documentation.
pub fn generate_component_list_doc_comment(
    items: &ItemMap,
    type_printer: &TypePrinter,
    concept: &Concept,
) -> (r: String)
    requires
        is_documentable(*items, *type_printer, *concept),
    ensures
        r@ == component_list_doc(*items, *type_printer, *concept),
{
    let mut output = String::new();
    if concept.extends.len() > 0 {
        output.append("**Extends**: ");
        write_extended_paths(&mut output, items, &concept.extends, "");
        output.append("\n\n");
        proof {
            reveal_strlit("");
            assert(concept.extends@.map_values(
                |id: ConceptId| ""@ + items.concept(id).display_path@ + ""@,
            ) =~= extended_paths(*items, concept.extends@)) by {
                assert forall|i: int| 0 <= i < concept.extends@.len() implies ""@ + (
                #[trigger] items.concept(concept.extends@[i])).display_path@ + ""@
                    == items.concept(concept.extends@[i]).display_path@ by {
                    let path = items.concept(concept.extends@[i]).display_path@;
                    assert(""@ + path + ""@ =~= path);
                }
            }
        }
    }
    assert(output@ =~= extends_paragraph(*items, *concept));
    output.append("**Definition**:\n```ignore\n{\n");
    let parts = &concept.required_components;
    let ghost start = output@;
    assert(output@ =~= start + definition_lines(*items, *type_printer, parts@.take(0)));
    let mut i: usize = 0;
    while i < parts.len()
        invariant
            i <= parts@.len(),
            are_typed(*items, *type_printer, parts@),
            are_suggested(parts@),
            output@ == start + definition_lines(*items, *type_printer, parts@.take(i as int)),
        decreases parts@.len() - i,
    {
        let ghost before = output@;
        let part = parts.get(i);
        assert(parts@.take(i + 1).drop_last() =~= parts@.take(i as int));
        assert(is_suggested(*part));
        let component = items.get_component(part.component);
        output.append("  \"");
        output.append(component.display_path.as_str());
        output.append("\": ");
        if let Ok(ty) = type_printer.get(component.type_) {
            write_stream(&mut output, ty);
        }
        output.append(" = ");
        if let Some(ResolvableValue::Resolved { display, .. }) = &part.value.suggested {
            output.append(display.as_str());
        }
        output.append(",\n");
        assert(output@ =~= before + definition_line(*items, *type_printer, *part));
        assert(output@ =~= start + definition_lines(*items, *type_printer, parts@.take(i + 1)));
        i = i + 1;
    }
    assert(parts@.take(i as int) =~= parts@);
    output.append("}\n```\n");
    assert(output@ =~= component_list_doc(*items, *type_printer, *concept));
    output
}

/// The documentation of a concept's function.
fn function_doc_comment(
    before: &str,
    after: &str,
    items: &ItemMap,
    type_printer: &TypePrinter,
    concept: &Concept,
) -> (r: String)
    requires
        is_documentable(*items, *type_printer, *concept),
    ensures
        r@ == function_doc(before, after, *items, *type_printer, *concept),
{
    let mut doc = before.to_owned();
    write_display_name(&mut doc, concept);
    doc.append(after);
    if let Some(description) = &concept.description {
        doc.append(description.as_str());
    }
    doc.append("\n\n");
    let list = generate_component_list_doc_comment(items, type_printer, concept);
    doc.append(list.as_str());
    assert(doc@ =~= function_doc(before, after, *items, *type_printer, *concept));
    doc
}

/// An identifier with a prefix.
fn prefixed(prefix: &str, id: &str) -> (r: String)
    requires
        is_identifier(prefix@),
        is_identifier(id@),
    ensures
        r@ == prefix@ + id@,
        is_identifier(r@),
{
    let mut name = prefix.to_owned();
    name.append(id);
    assert(name@[0] == prefix@[0]);
    name
}

/// `#[allow(non_snake_case)]`
fn quote_allow_case(attributes: Quote) -> (r: Quote)
    ensures
        r@ == after_allow_case(attributes@),
{
    proof {
        words_are_identifiers();
    }
    attributes.punct('#').brackets(
        Quote::new().ident("allow").parens(Quote::new().ident("non_snake_case")),
    )
}

/// The suggested value of a component, as an expression.
fn suggested_expression(items: &ItemMap, part: &ConceptComponent) -> (r: TokenStream)
    requires
        items.has_suggested(part.value),
        is_suggested(*part),
    ensures
        stream_tokens(r) == value_tokens(*items, suggested_value(*part)),
{
    match &part.value.suggested {
        Some(ResolvableValue::Resolved { value, .. }) => value_to_token_stream(items, value),
        _ => TokenStream::new(),
    }
}

/// The function that makes an entity with the suggested values.
pub fn generate_make(items: &ItemMap, type_printer: &TypePrinter, concept: &Concept) -> (r: Result<
    TokenStream,
    PrintError,
>)
    requires
        is_documentable(*items, *type_printer, *concept),
        have_values(*items, concept.required_components@),
    ensures
        match r {
            Ok(stream) => concept_make(*items, *type_printer, *concept) == Ok::<
                Seq<Token>,
                Seq<char>,
            >(stream_tokens(stream)),
            Err(error) => concept_make(*items, *type_printer, *concept) == Err::<
                Seq<Token>,
                Seq<char>,
            >(error.message@),
        },
{
    proof {
        words_are_identifiers();
    }
    let doc = function_doc_comment("Makes a *", "*.\n\n", items, type_printer, concept);
    let name = prefixed("make_", concept.id.as_str());
    let parts = &concept.required_components;
    let paths = match component_paths(items, parts) {
        Ok(paths) => paths,
        Err(error) => {
            return Err(error);
        },
    };
    let ghost path_tokens = all_tokens(paths@);
    let ghost values = suggested_values(*items, parts@);
    let ghost calls = Seq::new(
        path_tokens.len(),
        |i: int| with_value(path_tokens[i], values[i]),
    );
    proof {
        paths_are_as_many(*items, parts@);
        components_with_paths(*items, parts@);
        assert forall|i: int| 0 <= i < parts@.len() implies items.has_suggested(
            (#[trigger] parts@[i]).value,
        ) by {
            assert forall|j: int| 0 <= j < parts@.take(i + 1).len() implies items.component(
                (#[trigger] parts@.take(i + 1)[j]).component,
            ).path is Ok by {
                assert(parts@.take(i + 1)[j] == parts@[j]);
            }
            assert(have_paths(*items, parts@.take(i + 1)));
        }
    }
    let mut body = Quote::new().ident("Entity").joint(':').punct(':').ident("new").parens(
        Quote::new(),
    );
    let ghost start = body@;
    assert(body@ =~= start.tokens(concatenated(calls.take(0))));
    let mut i: usize = 0;
    while i < parts.len()
        invariant
            i <= parts@.len(),
            parts@.len() == paths@.len(),
            are_suggested(parts@),
            forall|i: int|
                0 <= i < parts@.len() ==> items.has_suggested((#[trigger] parts@[i]).value),
            path_tokens == all_tokens(paths@),
            values == suggested_values(*items, parts@),
            calls == Seq::new(
                path_tokens.len(),
                |i: int| with_value(path_tokens[i], values[i]),
            ),
            body@ == start.tokens(concatenated(calls.take(i as int))),
        decreases parts@.len() - i,
    {
        proof {
            concatenated_step(calls, i as int);
            words_are_identifiers();
        }
        let ghost before = body@;
        assert(is_suggested(parts@[i as int]));
        let value = suggested_expression(items, parts.get(i));
        body = body.tokens(
            Quote::new().punct('.').ident("with").parens(
                quote_path_call(paths[i]).punct(',').stream(&value),
            ),
        );
        assert(body@ == before.tokens(calls[i as int]));
        assert(body@ =~= start.tokens(concatenated(calls.take(i + 1))));
        i = i + 1;
    }
    assert(calls.take(i as int) =~= calls);
    let quote = quote_allow_case(
        Quote::new().punct('#').brackets(
            Quote::new().ident("allow").parens(
                Quote::new().ident("clippy").joint(':').punct(':').ident("approx_constant"),
            ),
        ),
    ).tokens(quote_doc_attribute(doc.as_str())).ident("pub").ident("fn").ident(
        name.as_str(),
    ).parens(Quote::new()).joint('-').punct('>').ident("Entity").braces(body);
    Ok(quote.finish())
}

/// There is one path for each component.
proof fn paths_are_as_many(items: ItemMap, parts: Seq<ConceptComponent>)
    ensures
        match paths_of(items, parts) {
            Ok(paths) => paths.len() == parts.len(),
            Err(_) => true,
        },
    decreases parts.len(),
{
    if parts.len() > 0 {
        paths_are_as_many(items, parts.drop_last());
    }
}

/// References to paths, with commas between them.
fn quote_references(paths: &Vec<&TokenStream>) -> (r: Quote)
    ensures
        r@ == comma_separated(
            all_tokens(paths@).map_values(|path: Seq<Token>| path_reference(path)),
        ),
{
    proof {
        nothing_before();
    }
    let ghost parts = all_tokens(paths@).map_values(|path: Seq<Token>| path_reference(path));
    let mut quote = Quote::new();
    let mut i: usize = 0;
    while i < paths.len()
        invariant
            i <= paths.len(),
            parts == all_tokens(paths@).map_values(|path: Seq<Token>| path_reference(path)),
            quote@ == comma_separated(parts.take(i as int)),
            forall|tokens: Seq<Token>| #[trigger] (Seq::<Token>::empty() + tokens) == tokens,
        decreases paths.len() - i,
    {
        proof {
            comma_separated_step(parts, i as int);
        }
        if i != 0 {
            quote = quote.punct(',');
        }
        quote = quote.tokens(quote_path_reference(paths[i]));
        i = i + 1;
    }
    assert(parts.take(i as int) =~= parts);
    quote
}

/// Calls of paths, with commas between them.
fn quote_calls(paths: &Vec<&TokenStream>) -> (r: Quote)
    ensures
        r@ == comma_separated(all_tokens(paths@).map_values(|path: Seq<Token>| path_call(path))),
{
    proof {
        nothing_before();
    }
    let ghost parts = all_tokens(paths@).map_values(|path: Seq<Token>| path_call(path));
    let mut quote = Quote::new();
    let mut i: usize = 0;
    while i < paths.len()
        invariant
            i <= paths.len(),
            parts == all_tokens(paths@).map_values(|path: Seq<Token>| path_call(path)),
            quote@ == comma_separated(parts.take(i as int)),
            forall|tokens: Seq<Token>| #[trigger] (Seq::<Token>::empty() + tokens) == tokens,
        decreases paths.len() - i,
    {
        proof {
            comma_separated_step(parts, i as int);
        }
        if i != 0 {
            quote = quote.punct(',');
        }
        quote = quote.tokens(quote_path_call(paths[i]));
        i = i + 1;
    }
    assert(parts.take(i as int) =~= parts);
    quote
}

/// Insertions of the descriptions of components.
fn quote_insertions(paths: &Vec<&TokenStream>) -> (r: Quote)
    ensures
        r@ == concatenated(
            all_tokens(paths@).map_values(|path: Seq<Token>| insert_description(path)),
        ),
{
    let ghost parts = all_tokens(paths@).map_values(|path: Seq<Token>| insert_description(path));
    let mut quote = Quote::new();
    let mut i: usize = 0;
    while i < paths.len()
        invariant
            i <= paths.len(),
            parts == all_tokens(paths@).map_values(|path: Seq<Token>| insert_description(path)),
            quote@ == concatenated(parts.take(i as int)),
        decreases paths.len() - i,
    {
        proof {
            concatenated_step(parts, i as int);
            words_are_identifiers();
        }
        quote = quote.tokens(
            Quote::new().ident("set").punct('.').ident("insert").parens(
                quote_path_call(paths[i]).punct('.').ident("desc").parens(Quote::new()),
            ).punct(';'),
        );
        i = i + 1;
    }
    assert(parts.take(i as int) =~= parts);
    quote
}

/// The function that tests whether an entity has the components.
pub fn generate_is(
    items: &ItemMap,
    type_printer: &TypePrinter,
    context: &Context,
    concept: &Concept,
) -> (r: Result<TokenStream, PrintError>)
    requires
        is_documentable(*items, *type_printer, *concept),
    ensures
        match r {
            Ok(stream) => concept_is(*items, *type_printer, *context, *concept) == Ok::<
                Seq<Token>,
                Seq<char>,
            >(stream_tokens(stream)),
            Err(error) => concept_is(*items, *type_printer, *context, *concept) == Err::<
                Seq<Token>,
                Seq<char>,
            >(error.message@),
        },
{
    proof {
        words_are_identifiers();
    }
    let doc = function_doc_comment(
        "Checks if the entity is a *",
        "*.\n\n",
        items,
        type_printer,
        concept,
    );
    let name = prefixed("is_", concept.id.as_str());
    let paths = match component_paths(items, &concept.required_components) {
        Ok(paths) => paths,
        Err(error) => {
            return Err(error);
        },
    };
    let head = quote_allow_case(quote_doc_attribute(doc.as_str())).ident("pub").ident("fn").ident(
        name.as_str(),
    );
    let quote = match context {
        Context::Host => head.parens(
            Quote::new().ident("world").punct(':').punct('&').ident("crate").joint(':').punct(
                ':',
            ).ident("World").punct(',').ident("id").punct(':').ident("EntityId"),
        ).joint('-').punct('>').ident("bool").braces(
            Quote::new().ident("world").punct('.').ident("has_components").parens(
                Quote::new().ident("id").punct(',').punct('&').braces(
                    Quote::new().ident("let").ident("mut").ident("set").punct('=').ident(
                        "crate",
                    ).joint(':').punct(':').ident("ComponentSet").joint(':').punct(':').ident(
                        "new",
                    ).parens(Quote::new()).punct(';').tokens(quote_insertions(&paths)).ident("set"),
                ),
            ),
        ),
        Context::GuestApi(_) | Context::GuestUser(_) => head.parens(
            Quote::new().ident("id").punct(':').ident("EntityId"),
        ).joint('-').punct('>').ident("bool").braces(
            Quote::new().ident("entity").joint(':').punct(':').ident("has_components").parens(
                Quote::new().ident("id").punct(',').punct('&').brackets(quote_references(&paths)),
            ),
        ),
    };
    Ok(quote.finish())
}

/// The function that gives the components as a tuple.
pub fn generate_concept(items: &ItemMap, type_printer: &TypePrinter, concept: &Concept) -> (r:
    Result<TokenStream, PrintError>)
    requires
        is_documentable(*items, *type_printer, *concept),
    ensures
        match r {
            Ok(stream) => concept_tuple(*items, *type_printer, *concept) == Ok::<
                Seq<Token>,
                Seq<char>,
            >(stream_tokens(stream)),
            Err(error) => concept_tuple(*items, *type_printer, *concept) == Err::<
                Seq<Token>,
                Seq<char>,
            >(error.message@),
        },
{
    proof {
        words_are_identifiers();
        nothing_before();
    }
    let doc = function_doc_comment(
        "Returns the components that comprise *",
        "* as a tuple.\n\n",
        items,
        type_printer,
        concept,
    );
    let name = prefixed("tuple_", concept.id.as_str());
    let parts = &concept.required_components;
    let paths = match component_paths(items, parts) {
        Ok(paths) => paths,
        Err(error) => {
            return Err(error);
        },
    };
    let ghost types = component_types(*items, *type_printer, parts@).map_values(
        |ty: Seq<Token>| typed_component(ty),
    );
    let mut tuple = Quote::new();
    let mut i: usize = 0;
    while i < parts.len()
        invariant
            i <= parts@.len(),
            are_typed(*items, *type_printer, parts@),
            types == component_types(*items, *type_printer, parts@).map_values(
                |ty: Seq<Token>| typed_component(ty),
            ),
            tuple@ == comma_separated(types.take(i as int)),
            forall|tokens: Seq<Token>| #[trigger] (Seq::<Token>::empty() + tokens) == tokens,
        decreases parts@.len() - i,
    {
        proof {
            comma_separated_step(types, i as int);
            words_are_identifiers();
        }
        if i != 0 {
            tuple = tuple.punct(',');
        }
        let component = items.get_component(parts.get(i).component);
        match type_printer.get(component.type_) {
            Ok(ty) => {
                tuple = tuple.tokens(
                    Quote::new().ident("Component").punct('<').stream(ty).punct('>'),
                );
            },
            Err(error) => {
                return Err(copy_error(error));
            },
        }
        i = i + 1;
    }
    assert(types.take(i as int) =~= types);
    let quote = quote_allow_case(
        quote_doc_attribute(doc.as_str()).punct('#').brackets(
            Quote::new().ident("allow").parens(
                Quote::new().ident("clippy").joint(':').punct(':').ident("type_complexity"),
            ),
        ),
    ).ident("pub").ident("fn").ident(name.as_str()).parens(Quote::new()).joint('-').punct(
        '>',
    ).parens(tuple).braces(Quote::new().parens(quote_calls(&paths)));
    Ok(quote.finish())
}

/// The functions of a concept.
pub fn generate(
    items: &ItemMap,
    type_printer: &TypePrinter,
    context: &Context,
    concept: &Concept,
) -> (r: Result<TokenStream, PrintError>)
    requires
        is_documentable(*items, *type_printer, *concept),
        have_values(*items, concept.required_components@),
    ensures
        match r {
            Ok(stream) => concept_functions(*items, *type_printer, *context, *concept) == Ok::<
                Seq<Token>,
                Seq<char>,
            >(stream_tokens(stream)),
            Err(error) => concept_functions(*items, *type_printer, *context, *concept) == Err::<
                Seq<Token>,
                Seq<char>,
            >(error.message@),
        },
{
    proof {
        nothing_before();
    }
    let make_concept = match generate_make(items, type_printer, concept) {
        Ok(stream) => stream,
        Err(error) => {
            return Err(error);
        },
    };
    let is_concept = match generate_is(items, type_printer, context, concept) {
        Ok(stream) => stream,
        Err(error) => {
            return Err(error);
        },
    };
    let concept_fn = match generate_concept(items, type_printer, concept) {
        Ok(stream) => stream,
        Err(error) => {
            return Err(error);
        },
    };
    Ok(Quote::new().stream(&make_concept).stream(&is_concept).stream(&concept_fn).finish())
}

} // verus!

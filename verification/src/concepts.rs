//! Code for the concepts of a scope.
use crate::concept_functions::{are_suggested, components_with_paths, concept_functions};
use crate::concept_struct::{concept_struct, is_printable, struct_is_writable};
use crate::fields::{printable_components_are_usable, printable_components_have_fields};
use crate::items::{
    Concept, Context, ItemMap, PrintError, Scope, ScopedConcept, TypePrinter,
};
use crate::tokens::{
    concatenated, is_identifier, nothing_before, raw_string_ok, stream_tokens, template, Quote,
    Template, Token,
};
use proc_macro2::TokenStream;
use vstd::prelude::*;

verus! {

/// The code for a concept: its struct and after that its functions, or the first error.
pub open spec fn concept_code(
    items: ItemMap,
    printer: TypePrinter,
    context: Context,
    api_path: Seq<Token>,
    concept: Concept,
) -> Result<Seq<Token>, Seq<char>> {
    match concept_struct(items, printer, api_path, concept) {
        Err(message) => Err(message),
        Ok(new) => match concept_functions(items, printer, context, concept) {
            Err(message) => Err(message),
            Ok(old) => Ok(new.tokens(old)),
        },
    }
}

/// The code for the relevant ones of some concepts, in order, or the first error.
pub open spec fn all_concepts_code(
    items: ItemMap,
    printer: TypePrinter,
    context: Context,
    api_path: Seq<Token>,
    scoped: Seq<ScopedConcept>,
) -> Result<Seq<Seq<Token>>, Seq<char>>
    decreases scoped.len(),
{
    if scoped.len() == 0 {
        Ok(seq![])
    } else {
        match all_concepts_code(items, printer, context, api_path, scoped.drop_last()) {
            Err(message) => Err(message),
            Ok(codes) => if scoped.last().relevant {
                match concept_code(
                    items,
                    printer,
                    context,
                    api_path,
                    items.concept(scoped.last().concept),
                ) {
                    Err(message) => Err(message),
                    Ok(code) => Ok(codes.push(code)),
                }
            } else {
                Ok(codes)
            },
        }
    }
}

/// Whether all the relevant ones of some concepts can be printed.
pub open spec fn all_printable(
    items: ItemMap,
    printer: TypePrinter,
    scoped: Seq<ScopedConcept>,
) -> bool {
    forall|i: int|
        0 <= i < scoped.len() && (#[trigger] scoped[i]).relevant ==> is_printable(
            items,
            printer,
            items.concept(scoped[i].concept),
        )
}

/// Whether what the code for a concept needs is there: what its struct needs, and where that can
/// be printed, suggested values for the functions.
pub open spec fn concept_is_writable(
    items: ItemMap,
    printer: TypePrinter,
    concept: Concept,
) -> bool {
    &&& struct_is_writable(items, printer, concept)
    &&& is_printable(items, printer, concept) ==> are_suggested(concept.required_components@)
}

/// Whether what the code for the relevant ones of some concepts needs is there. Nothing is asked of
/// a concept that stands behind one that can not be printed.
pub open spec fn all_writable(
    items: ItemMap,
    printer: TypePrinter,
    scoped: Seq<ScopedConcept>,
) -> bool {
    forall|i: int|
        0 <= i < scoped.len() && (#[trigger] scoped[i]).relevant && all_printable(
            items,
            printer,
            scoped.take(i),
        ) ==> {
            &&& items.has_concept(scoped[i].concept)
            &&& concept_is_writable(items, printer, items.concept(scoped[i].concept))
        }
}

/// A line of documentation.
pub open spec fn after_doc_line(attributes: Seq<Token>, line: &str) -> Seq<Token> {
    attributes.punct('#').brackets(template().ident("doc").punct('=').raw_string(line@))
}

/// The module that holds the code for concepts.
pub open spec fn concepts_module(api_path: Seq<Token>, codes: Seq<Seq<Token>>) -> Seq<Token> {
    after_doc_line(
        after_doc_line(
            after_doc_line(
                template(),
                " Auto-generated concept definitions. Concepts are collections of components that describe some form of gameplay concept.",
            ),
            "",
        ),
        " They do not have any runtime representation outside of the components that compose them.",
    ).ident("pub").ident("mod").ident("concepts").braces(
        template().ident("use").tokens(api_path).joint(':').punct(':').ident("prelude").joint(
            ':',
        ).punct(':').punct('*').punct(';').tokens(concatenated(codes)),
    )
}

/// The code for the concepts of a scope: nothing on the host and where no concept is relevant,
/// otherwise the first error, or one module.
pub open spec fn scope_code(
    context: Context,
    items: ItemMap,
    printer: TypePrinter,
    scoped: Seq<ScopedConcept>,
) -> Result<Seq<Token>, Seq<char>> {
    match context.api_path() {
        None => Ok(template()),
        Some(api_path) => match all_concepts_code(items, printer, context, api_path, scoped) {
            Err(message) => Err(message),
            Ok(codes) => if codes.len() == 0 {
                Ok(template())
            } else {
                Ok(concepts_module(api_path, codes))
            },
        },
    }
}

// -------------------------------------------------------------------------------------------
// Laws

/// On the host no code is generated, whatever the scope holds.
pub proof fn host_has_no_concepts(
    items: ItemMap,
    printer: TypePrinter,
    scoped: Seq<ScopedConcept>,
)
    ensures
        scope_code(Context::Host, items, printer, scoped) == Ok::<Seq<Token>, Seq<char>>(
            template(),
        ),
{
}

/// Where no concept is relevant no code is generated, in any context.
pub proof fn irrelevant_concepts_give_nothing(
    context: Context,
    items: ItemMap,
    printer: TypePrinter,
    scoped: Seq<ScopedConcept>,
)
    requires
        forall|i: int| 0 <= i < scoped.len() ==> !(#[trigger] scoped[i]).relevant,
    ensures
        scope_code(context, items, printer, scoped) == Ok::<Seq<Token>, Seq<char>>(template()),
{
    if let Some(api_path) = context.api_path() {
        no_code_for_irrelevant(context, items, printer, api_path, scoped);
    }
}

/// There is no code for concepts of which none is relevant.
proof fn no_code_for_irrelevant(
    context: Context,
    items: ItemMap,
    printer: TypePrinter,
    api_path: Seq<Token>,
    scoped: Seq<ScopedConcept>,
)
    requires
        forall|i: int| 0 <= i < scoped.len() ==> !(#[trigger] scoped[i]).relevant,
    ensures
        all_concepts_code(items, printer, context, api_path, scoped) == Ok::<
            Seq<Seq<Token>>,
            Seq<char>,
        >(seq![]),
    decreases scoped.len(),
{
    if scoped.len() > 0 {
        assert(!scoped[scoped.len() - 1].relevant);
        no_code_for_irrelevant(context, items, printer, api_path, scoped.drop_last());
    }
}

/// The relevant ones of some concepts.
pub open spec fn relevant_concepts(scoped: Seq<ScopedConcept>) -> Seq<ScopedConcept> {
    scoped.filter(|s: ScopedConcept| s.relevant)
}

/// A concept that is not relevant has no part in the code: leaving all of them out gives the
/// same result.
pub proof fn only_relevant_concepts_count(
    context: Context,
    items: ItemMap,
    printer: TypePrinter,
    scoped: Seq<ScopedConcept>,
)
    ensures
        scope_code(context, items, printer, scoped) == scope_code(
            context,
            items,
            printer,
            relevant_concepts(scoped),
        ),
{
    if let Some(api_path) = context.api_path() {
        same_code_for_relevant(context, items, printer, api_path, scoped);
    }
}

/// The code for some concepts is that for the relevant ones among them.
proof fn same_code_for_relevant(
    context: Context,
    items: ItemMap,
    printer: TypePrinter,
    api_path: Seq<Token>,
    scoped: Seq<ScopedConcept>,
)
    ensures
        all_concepts_code(items, printer, context, api_path, scoped) == all_concepts_code(
            items,
            printer,
            context,
            api_path,
            relevant_concepts(scoped),
        ),
    decreases scoped.len(),
{
    reveal(Seq::filter);
    if scoped.len() > 0 {
        same_code_for_relevant(context, items, printer, api_path, scoped.drop_last());
        let rest = relevant_concepts(scoped.drop_last());
        if scoped.last().relevant {
            assert(relevant_concepts(scoped) == rest.push(scoped.last()));
            assert(rest.push(scoped.last()).drop_last() =~= rest);
        } else {
            assert(relevant_concepts(scoped) == rest);
        }
    }
}

/// The code for a concept is written if and only if the types and the paths of all its components
/// can be printed.
pub proof fn printable_concepts_are_written(
    context: Context,
    items: ItemMap,
    printer: TypePrinter,
    api_path: Seq<Token>,
    concept: Concept,
)
    ensures
        concept_struct(items, printer, api_path, concept) is Ok <==> is_printable(
            items,
            printer,
            concept,
        ),
        concept_code(items, printer, context, api_path, concept) is Ok <==> is_printable(
            items,
            printer,
            concept,
        ),
{
    printable_components_have_fields(items, printer, concept.required_components@);
    printable_components_have_fields(items, printer, concept.optional_components@);
    components_with_paths(items, concept.required_components@);
}

/// Generating code succeeds on the host, and elsewhere if and only if all the relevant concepts can
/// be printed.
pub proof fn printable_scopes_are_written(
    context: Context,
    items: ItemMap,
    printer: TypePrinter,
    scoped: Seq<ScopedConcept>,
)
    ensures
        scope_code(context, items, printer, scoped) is Ok <==> (context is Host || all_printable(
            items,
            printer,
            scoped,
        )),
{
    if let Some(api_path) = context.api_path() {
        all_printable_are_written(context, items, printer, api_path, scoped);
    }
}

/// There is code for some concepts if and only if the relevant ones can be printed.
proof fn all_printable_are_written(
    context: Context,
    items: ItemMap,
    printer: TypePrinter,
    api_path: Seq<Token>,
    scoped: Seq<ScopedConcept>,
)
    ensures
        all_concepts_code(items, printer, context, api_path, scoped) is Ok <==> all_printable(
            items,
            printer,
            scoped,
        ),
    decreases scoped.len(),
{
    if scoped.len() > 0 {
        let rest = scoped.drop_last();
        let last = items.concept(scoped.last().concept);
        all_printable_are_written(context, items, printer, api_path, rest);
        printable_concepts_are_written(context, items, printer, api_path, last);
        assert(all_printable(items, printer, scoped) <==> all_printable(items, printer, rest) && (
        scoped.last().relevant ==> is_printable(items, printer, last))) by {
            if all_printable(items, printer, scoped) {
                assert forall|i: int|
                    0 <= i < rest.len() && (#[trigger] rest[i]).relevant implies is_printable(
                    items,
                    printer,
                    items.concept(rest[i].concept),
                ) by {
                    assert(rest[i] == scoped[i]);
                }
                assert(scoped.last() == scoped[scoped.len() - 1]);
            }
            if all_printable(items, printer, rest) {
                assert(forall|i: int| 0 <= i < rest.len() ==> rest[i] == #[trigger] scoped[i]);
            }
        }
    }
}

// -------------------------------------------------------------------------------------------

/// The words of the module are identifiers, and its documentation fits raw strings.
proof fn words_are_identifiers()
    ensures
        is_identifier("concepts"@),
        is_identifier("doc"@),
        is_identifier("mod"@),
        is_identifier("prelude"@),
        is_identifier("pub"@),
        is_identifier("use"@),
        raw_string_ok(
            " Auto-generated concept definitions. Concepts are collections of components that describe some form of gameplay concept."@,
        ),
        raw_string_ok(""@),
        raw_string_ok(
            " They do not have any runtime representation outside of the components that compose them."@,
        ),
{
    reveal_strlit("concepts");
    reveal_strlit("doc");
    reveal_strlit("mod");
    reveal_strlit("prelude");
    reveal_strlit("pub");
    reveal_strlit("use");
    reveal_strlit(
        " Auto-generated concept definitions. Concepts are collections of components that describe some form of gameplay concept.",
    );
    reveal_strlit("");
    reveal_strlit(
        " They do not have any runtime representation outside of the components that compose them.",
    );
}

/// An error among the first concepts is the error of all of them.
proof fn first_concept_error_counts(
    items: ItemMap,
    printer: TypePrinter,
    context: Context,
    api_path: Seq<Token>,
    scoped: Seq<ScopedConcept>,
    i: int,
)
    requires
        0 <= i <= scoped.len(),
        all_concepts_code(items, printer, context, api_path, scoped.take(i)) is Err,
    ensures
        all_concepts_code(items, printer, context, api_path, scoped) == all_concepts_code(
            items,
            printer,
            context,
            api_path,
            scoped.take(i),
        ),
    decreases scoped.len() - i,
{
    if i == scoped.len() {
        assert(scoped.take(i) =~= scoped);
    } else {
        assert(scoped.take(i + 1).drop_last() =~= scoped.take(i));
        first_concept_error_counts(items, printer, context, api_path, scoped, i + 1);
    }
}

/// The code for a concept: its struct and its functions.
pub fn generate_one(
    items: &ItemMap,
    type_printer: &TypePrinter,
    context: &Context,
    guest_api_path: &TokenStream,
    concept: &Concept,
) -> (r: Result<TokenStream, PrintError>)
    requires
        concept_is_writable(*items, *type_printer, *concept),
    ensures
        match r {
            Ok(stream) => concept_code(
                *items,
                *type_printer,
                *context,
                stream_tokens(*guest_api_path),
                *concept,
            ) == Ok::<Seq<Token>, Seq<char>>(stream_tokens(stream)),
            Err(error) => concept_code(
                *items,
                *type_printer,
                *context,
                stream_tokens(*guest_api_path),
                *concept,
            ) == Err::<Seq<Token>, Seq<char>>(error.message@),
        },
{
    proof {
        nothing_before();
        printable_concepts_are_written(
            *context,
            *items,
            *type_printer,
            stream_tokens(*guest_api_path),
            *concept,
        );
    }
    let new = match crate::concept_struct::generate(items, type_printer, guest_api_path, concept) {
        Ok(stream) => stream,
        Err(error) => {
            return Err(error);
        },
    };
    proof {
        printable_components_are_usable(*items, *type_printer, concept.required_components@);
    }
    let old_style = match crate::concept_functions::generate(
        items,
        type_printer,
        context,
        concept,
    ) {
        Ok(stream) => stream,
        Err(error) => {
            return Err(error);
        },
    };
    Ok(Quote::new().stream(&new).stream(&old_style).finish())
}

/// Adds a line of documentation.
fn quote_doc_line(attributes: Quote, line: &str) -> (r: Quote)
    requires
        raw_string_ok(line@),
    ensures
        r@ == after_doc_line(attributes@, line),
{
    proof {
        words_are_identifiers();
    }
    attributes.punct('#').brackets(Quote::new().ident("doc").punct('=').raw_string(line))
}

/// The code for the concepts of a scope.
pub fn generate(
    context: Context,
    items: &ItemMap,
    type_printer: &TypePrinter,
    scope: &Scope,
) -> (r: Result<TokenStream, PrintError>)
    requires
        context !is Host ==> all_writable(*items, *type_printer, scope.concepts@),
    ensures
        match r {
            Ok(stream) => scope_code(context, *items, *type_printer, scope.concepts@) == Ok::<
                Seq<Token>,
                Seq<char>,
            >(stream_tokens(stream)),
            Err(error) => scope_code(context, *items, *type_printer, scope.concepts@) == Err::<
                Seq<Token>,
                Seq<char>,
            >(error.message@),
        },
{
    let guest_api_path = match context.guest_api_path() {
        Some(path) => path,
        None => {
            // Concept generation is not supported on the host.
            return Ok(TokenStream::new());
        },
    };
    let ghost api_path = stream_tokens(*guest_api_path);
    let scoped = &scope.concepts;
    let ghost mut codes: Seq<Seq<Token>> = seq![];
    let mut concepts = Quote::new();
    let mut any = false;
    let mut i: usize = 0;
    while i < scoped.len()
        invariant
            i <= scoped.len(),
            *scoped == scope.concepts,
            api_path == stream_tokens(*guest_api_path),
            context.api_path() == Some(api_path),
            all_writable(*items, *type_printer, scoped@),
            all_concepts_code(*items, *type_printer, context, api_path, scoped@.take(i as int))
                == Ok::<Seq<Seq<Token>>, Seq<char>>(codes),
            concepts@ == concatenated(codes),
            any == (codes.len() > 0),
        decreases scoped.len() - i,
    {
        assert(scoped@.take(i + 1).drop_last() =~= scoped@.take(i as int));
        if scoped[i].relevant {
            proof {
                all_printable_are_written(
                    context,
                    *items,
                    *type_printer,
                    api_path,
                    scoped@.take(i as int),
                );
            }
            let concept = items.get_concept(scoped[i].concept);
            match generate_one(items, type_printer, &context, guest_api_path, concept) {
                Ok(code) => {
                    concepts = concepts.stream(&code);
                    proof {
                        let before = codes;
                        codes = codes.push(stream_tokens(code));
                        assert(codes.drop_last() =~= before);
                    }
                    any = true;
                },
                Err(error) => {
                    proof {
                        first_concept_error_counts(
                            *items,
                            *type_printer,
                            context,
                            api_path,
                            scoped@,
                            i + 1,
                        );
                    }
                    return Err(error);
                },
            }
        }
        i = i + 1;
    }
    assert(scoped@.take(i as int) =~= scoped@);
    if !any {
        return Ok(TokenStream::new());
    }
    proof {
        words_are_identifiers();
    }
    let quote = quote_doc_line(
        quote_doc_line(
            quote_doc_line(
                Quote::new(),
                " Auto-generated concept definitions. Concepts are collections of components that describe some form of gameplay concept.",
            ),
            "",
        ),
        " They do not have any runtime representation outside of the components that compose them.",
    ).ident("pub").ident("mod").ident("concepts").braces(
        Quote::new().ident("use").stream(guest_api_path).joint(':').punct(':').ident(
            "prelude",
        ).joint(':').punct(':').punct('*').punct(';').tokens(concepts),
    );
    Ok(quote.finish())
}

} // verus!

//! What the module with the concepts of a scope holds, whatever the concepts are.
use crate::concept_functions::concept_functions;
use crate::concept_struct::concept_struct;
use crate::concepts::{all_concepts_code, concept_code, scope_code};
use crate::function_laws::functions_stand_in_order;
use crate::items::{Concept, Context, ItemMap, ScopedConcept, TypePrinter};
use crate::struct_laws::{
    are_complete, is_first_missing, structs_fail_on_the_first_missing_component,
    structs_use_every_component,
};
use crate::token_laws::{
    comes_apart, concatenations_come_apart, content, is_group, is_path_sign, is_raw_documentation,
    sign, word,
};
use crate::tokens::{concatenated, stream_tokens, Delimiter, Token};
use vstd::prelude::*;

verus! {

/// The concept that a part of a scope names: concepts are counted from the first.
pub open spec fn named_concept(items: ItemMap, scoped: ScopedConcept) -> Concept {
    items.concepts@[scoped.concept.0 as int]
}

/// Whether the types and the paths of all components of a concept are there.
pub open spec fn is_complete(items: ItemMap, printer: TypePrinter, concept: Concept) -> bool {
    &&& are_complete(items, printer, concept.required_components@)
    &&& are_complete(items, printer, concept.optional_components@)
}

/// Whether the types and the paths of all components of the relevant concepts are there.
pub open spec fn all_complete(
    items: ItemMap,
    printer: TypePrinter,
    scoped: Seq<ScopedConcept>,
) -> bool {
    forall|i: int|
        0 <= i < scoped.len() && (#[trigger] scoped[i]).relevant ==> is_complete(
            items,
            printer,
            named_concept(items, scoped[i]),
        )
}

/// The path by which guest code reaches the API.
pub open spec fn guest_path(context: Context) -> Seq<Token> {
    match context {
        Context::GuestApi(path) => stream_tokens(path),
        Context::GuestUser(path) => stream_tokens(path),
        Context::Host => Seq::empty(),
    }
}

/// The code for a concept is its struct and, behind it, its functions, and nothing else.
pub proof fn concept_code_is_struct_and_functions(
    items: ItemMap,
    printer: TypePrinter,
    context: Context,
    api_path: Seq<Token>,
    concept: Concept,
)
    requires
        is_complete(items, printer, concept),
    ensures
        concept_code(items, printer, context, api_path, concept) is Ok,
        ({
            let code = concept_code(items, printer, context, api_path, concept)->Ok_0;
            let struct_code = concept_struct(items, printer, api_path, concept)->Ok_0;
            &&& code.len() == struct_code.len() + 40
            &&& code.take(struct_code.len() as int) == struct_code
            &&& code.skip(struct_code.len() as int) == concept_functions(
                items,
                printer,
                context,
                concept,
            )->Ok_0
        }),
{
    structs_use_every_component(items, printer, api_path, concept);
    functions_stand_in_order(items, printer, context, concept);
    let code = concept_code(items, printer, context, api_path, concept)->Ok_0;
    let struct_code = concept_struct(items, printer, api_path, concept)->Ok_0;
    let functions = concept_functions(items, printer, context, concept)->Ok_0;
    assert(code.take(struct_code.len() as int) =~= struct_code);
    assert(code.skip(struct_code.len() as int) =~= functions);
}

/// The codes of the relevant ones of some concepts.
pub open spec fn expected_codes(
    items: ItemMap,
    printer: TypePrinter,
    context: Context,
    api_path: Seq<Token>,
    scoped: Seq<ScopedConcept>,
) -> Seq<Seq<Token>> {
    let relevant = scoped.filter(|s: ScopedConcept| s.relevant);
    Seq::new(
        relevant.len(),
        |i: int|
            concept_code(
                items,
                printer,
                context,
                api_path,
                named_concept(items, relevant[i]),
            )->Ok_0,
    )
}

/// There is a code for every relevant concept, in order.
proof fn every_relevant_concept_has_code(
    items: ItemMap,
    printer: TypePrinter,
    context: Context,
    api_path: Seq<Token>,
    scoped: Seq<ScopedConcept>,
)
    requires
        all_complete(items, printer, scoped),
    ensures
        all_concepts_code(items, printer, context, api_path, scoped) == Ok::<
            Seq<Seq<Token>>,
            Seq<char>,
        >(expected_codes(items, printer, context, api_path, scoped)),
    decreases scoped.len(),
{
    reveal(Seq::filter);
    let codes = expected_codes(items, printer, context, api_path, scoped);
    if scoped.len() > 0 {
        let rest = scoped.drop_last();
        assert forall|i: int|
            0 <= i < rest.len() && (#[trigger] rest[i]).relevant implies is_complete(
            items,
            printer,
            named_concept(items, rest[i]),
        ) by {
            assert(rest[i] == scoped[i]);
        }
        every_relevant_concept_has_code(items, printer, context, api_path, rest);
        let rest_codes = expected_codes(items, printer, context, api_path, rest);
        let last = scoped.last();
        assert(last == scoped[scoped.len() - 1]);
        let kept = rest.filter(|s: ScopedConcept| s.relevant);
        if last.relevant {
            concept_code_is_struct_and_functions(
                items,
                printer,
                context,
                api_path,
                named_concept(items, last),
            );
            assert(scoped.filter(|s: ScopedConcept| s.relevant) == kept.push(last));
            assert(codes =~= rest_codes.push(
                concept_code(
                    items,
                    printer,
                    context,
                    api_path,
                    named_concept(items, last),
                )->Ok_0,
            ));
        } else {
            assert(scoped.filter(|s: ScopedConcept| s.relevant) == kept);
            assert(codes =~= rest_codes);
        }
    } else {
        assert(codes =~= seq![]);
    }
}

/// Whether tokens are `use api::prelude::*;` at the front of a module.
pub open spec fn uses_prelude(tokens: Seq<Token>, api_path: Seq<Token>) -> bool {
    let e = 1 + api_path.len() as int;
    &&& tokens.len() >= e + 7
    &&& tokens[0] == word("use")
    &&& tokens.subrange(1, e) == api_path
    &&& is_path_sign(tokens, e)
    &&& tokens[e + 2] == word("prelude")
    &&& is_path_sign(tokens, e + 3)
    &&& tokens[e + 5] == sign('*')
    &&& tokens[e + 6] == sign(';')
}

/// What stands in a module behind `use api::prelude::*;`.
pub open spec fn behind_prelude(tokens: Seq<Token>, api_path: Seq<Token>) -> Seq<Token> {
    tokens.skip(api_path.len() as int + 8)
}

/// Whether tokens are the documented module `concepts`; what it holds stands in the last of them.
pub open spec fn is_concepts_module(tokens: Seq<Token>) -> bool {
    &&& tokens.len() == 10
    &&& is_raw_documentation(
        tokens,
        0,
        " Auto-generated concept definitions. Concepts are collections of components that describe some form of gameplay concept."@,
    )
    &&& is_raw_documentation(tokens, 2, ""@)
    &&& is_raw_documentation(
        tokens,
        4,
        " They do not have any runtime representation outside of the components that compose them."@,
    )
    &&& tokens[6] == word("pub")
    &&& tokens[7] == word("mod")
    &&& tokens[8] == word("concepts")
    &&& is_group(tokens[9], Delimiter::Brace)
}

/// The code for the concepts of a scope, in a guest context and without errors, is one module that
/// holds the prelude and behind it the codes of all the relevant concepts, in the order of the scope
/// and nothing else. Where no concept is relevant there is no module.
pub proof fn modules_hold_every_relevant_concept(
    context: Context,
    items: ItemMap,
    printer: TypePrinter,
    scoped: Seq<ScopedConcept>,
)
    requires
        context !is Host,
        all_complete(items, printer, scoped),
    ensures
        scope_code(context, items, printer, scoped) is Ok,
        ({
            let api_path = guest_path(context);
            let tokens = scope_code(context, items, printer, scoped)->Ok_0;
            let codes = expected_codes(items, printer, context, api_path, scoped);
            if codes.len() == 0 {
                tokens.len() == 0
            } else {
                &&& is_concepts_module(tokens)
                &&& uses_prelude(content(tokens[9]), api_path)
                &&& comes_apart(behind_prelude(content(tokens[9]), api_path), codes)
            }
        }),
{
    let api_path = guest_path(context);
    let tokens = scope_code(context, items, printer, scoped)->Ok_0;
    let codes = expected_codes(items, printer, context, api_path, scoped);
    every_relevant_concept_has_code(items, printer, context, api_path, scoped);
    concatenations_come_apart(codes);
    if codes.len() > 0 {
        let body = content(tokens[9]);
        assert(body.subrange(1, 1 + api_path.len() as int) =~= api_path);
        assert(behind_prelude(body, api_path) =~= concatenated(codes));
    }
}

/// The concepts of two scopes, one behind the other, have the codes of the one and behind them the
/// codes of the other: leaving out the first concepts takes exactly their codes off the front.
pub proof fn modules_add_up(
    context: Context,
    items: ItemMap,
    printer: TypePrinter,
    first: Seq<ScopedConcept>,
    second: Seq<ScopedConcept>,
)
    requires
        context !is Host,
        all_complete(items, printer, first),
        all_complete(items, printer, second),
        first.filter(|s: ScopedConcept| s.relevant).len() > 0,
        second.filter(|s: ScopedConcept| s.relevant).len() > 0,
    ensures
        ({
            let api_path = guest_path(context);
            let one = scope_code(context, items, printer, first)->Ok_0;
            let two = scope_code(context, items, printer, second)->Ok_0;
            let both = scope_code(context, items, printer, first + second)->Ok_0;
            behind_prelude(content(both[9]), api_path) == behind_prelude(content(one[9]), api_path)
                + behind_prelude(content(two[9]), api_path)
        }),
{
    let api_path = guest_path(context);
    let all = first + second;
    assert forall|i: int| 0 <= i < all.len() && (#[trigger] all[i]).relevant implies is_complete(
        items,
        printer,
        named_concept(items, all[i]),
    ) by {
        if i < first.len() {
            assert(all[i] == first[i]);
        } else {
            assert(all[i] == second[i - first.len()]);
        }
    }
    modules_hold_every_relevant_concept(context, items, printer, first);
    modules_hold_every_relevant_concept(context, items, printer, second);
    modules_hold_every_relevant_concept(context, items, printer, all);
    let one = expected_codes(items, printer, context, api_path, first);
    let two = expected_codes(items, printer, context, api_path, second);
    let both = expected_codes(items, printer, context, api_path, all);
    Seq::filter_distributes_over_add(first, second, |s: ScopedConcept| s.relevant);
    assert(both =~= one + two);
    vstd::seq_lib::lemma_flatten_concat(one, two);
}

/// Where the struct of a relevant concept fails, and no relevant concept before it does, its error
/// is the result.
pub proof fn the_first_failing_concept_counts(
    context: Context,
    items: ItemMap,
    printer: TypePrinter,
    scoped: Seq<ScopedConcept>,
    first: int,
    missing: int,
)
    requires
        context !is Host,
        0 <= first < scoped.len(),
        scoped[first].relevant,
        all_complete(items, printer, scoped.take(first)),
        ({
            let concept = named_concept(items, scoped[first]);
            ||| is_first_missing(items, printer, concept.required_components@, missing)
            ||| are_complete(items, printer, concept.required_components@) && is_first_missing(
                items,
                printer,
                concept.optional_components@,
                missing,
            )
        }),
    ensures
        scope_code(context, items, printer, scoped) == Err::<Seq<Token>, Seq<char>>(
            concept_struct(
                items,
                printer,
                guest_path(context),
                named_concept(items, scoped[first]),
            )->Err_0,
        ),
{
    let api_path = guest_path(context);
    structs_fail_on_the_first_missing_component(
        items,
        printer,
        api_path,
        named_concept(items, scoped[first]),
        missing,
    );
    every_relevant_concept_has_code(items, printer, context, api_path, scoped.take(first));
    assert(scoped.take(first + 1).drop_last() =~= scoped.take(first));
    error_stays(context, items, printer, api_path, scoped, first + 1);
}

/// An error among the first concepts is the error of all of them.
proof fn error_stays(
    context: Context,
    items: ItemMap,
    printer: TypePrinter,
    api_path: Seq<Token>,
    scoped: Seq<ScopedConcept>,
    i: int,
)
    requires
        0 <= i <= scoped.len(),
        all_concepts_code(items, printer, context, api_path, scoped.take(i)) is Err,
    ensures
        all_concepts_code(items, printer, context, api_path, scoped) == all_concepts_code(
            items,
            printer,
            context,
            api_path,
            scoped.take(i),
        ),
    decreases scoped.len() - i,
{
    if i == scoped.len() {
        assert(scoped.take(i) =~= scoped);
    } else {
        assert(scoped.take(i + 1).drop_last() =~= scoped.take(i));
        error_stays(context, items, printer, api_path, scoped, i + 1);
    }
}

} // verus!

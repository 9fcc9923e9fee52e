use ambient_runtime::concept_functions::{
    generate_component_list_doc_comment, generate_concept, generate_is, generate_make,
};
use ambient_runtime::concept_struct::struct_doc_comment;
use ambient_runtime::concepts::generate;
use ambient_runtime::fields::component_to_field;
use ambient_runtime::floats::F32Literal;
use ambient_runtime::items::{
    Component, ComponentId, Concept, ConceptComponent, ConceptComponents, ConceptId, ConceptValue,
    Context, Identifier, ItemMap, PrintError, ResolvableValue, ScalarValue, Scope,
    ScopedConcept, Type, TypeId, TypeInner, TypePrinter, Value,
};
use ambient_runtime::semipretty::SemiprettyTokenStream;
use proc_macro2::TokenStream;
use quote::ToTokens;

fn code(text: &str) -> TokenStream {
    text.parse().unwrap()
}

fn name(text: &str) -> Identifier {
    Identifier::new(text).unwrap()
}

fn error(message: &str) -> PrintError {
    PrintError { message: message.to_string() }
}

fn component(id: &str, type_: usize, description: Option<&str>) -> Component {
    Component {
        id: name(id),
        description: description.map(str::to_string),
        type_: TypeId(type_),
        display_path: format!("core::{id}"),
        path: Ok(code(&format!("crate::core::components::{id}"))),
    }
}

fn part(
    component: ComponentId,
    description: Option<&str>,
    suggested: Option<ResolvableValue>,
) -> ConceptComponent {
    ConceptComponent {
        component,
        value: ConceptValue { description: description.map(str::to_string), suggested },
    }
}

fn parts(list: Vec<ConceptComponent>) -> ConceptComponents {
    let mut parts = ConceptComponents::new();
    for part in list {
        parts.insert(part);
    }
    parts
}

fn resolved(value: Value, display: &str) -> Option<ResolvableValue> {
    Some(ResolvableValue::Resolved { value, display: display.to_string() })
}

fn health_value() -> Value {
    Value::Scalar(ScalarValue::F32(
        F32Literal::new(100.5f32.to_token_stream()).unwrap(),
    ))
}

fn tags_value() -> Value {
    Value::Vec(vec![
        ScalarValue::String("a".to_string()),
        ScalarValue::String("b\"c".to_string()),
    ])
}

fn concept(id: &str) -> Concept {
    Concept {
        id: name(id),
        name: None,
        description: None,
        display_path: format!("core::{id}"),
        extends: vec![],
        required_components: parts(vec![]),
        optional_components: parts(vec![]),
    }
}

/// `f32`, `Vec<String>` and a type that can not be printed.
fn printer() -> TypePrinter {
    TypePrinter {
        types: vec![Ok(code("f32")), Ok(code("Vec<String>")), Err(error("no such type"))],
    }
}

/// Two components that can be printed, one without a path and one without a type.
fn items() -> ItemMap {
    let mut items = ItemMap::new();
    for id in ["F32", "Strings", "Unknown"] {
        items.add_type(Type { id: name(id), inner: TypeInner::Other });
    }
    items.add_component(component("health", 0, Some("How healthy.")));
    items.add_component(component("tags", 1, None));
    items.add_component(Component {
        path: Err(error("no such path")),
        ..component("lost", 0, None)
    });
    items.add_component(component("untyped", 2, None));
    items
}

fn unit() -> Concept {
    Concept {
        name: Some("Fighting unit".to_string()),
        description: Some("A unit.".to_string()),
        extends: vec![ConceptId(0), ConceptId(1)],
        required_components: parts(vec![
            part(ComponentId(0), Some("Starts full."), resolved(health_value(), "100.5")),
            part(ComponentId(1), None, resolved(tags_value(), "[\"a\", \"b\\\"c\"]")),
        ]),
        optional_components: parts(vec![part(ComponentId(1), None, None)]),
        ..concept("Unit")
    }
}

fn scope(concepts: &[(ConceptId, bool)]) -> Scope {
    Scope {
        concepts: concepts
            .iter()
            .map(|(concept, relevant)| ScopedConcept { concept: *concept, relevant: *relevant })
            .collect(),
    }
}

fn user() -> Context {
    Context::GuestUser(code("ambient_api"))
}

fn ok(result: Result<TokenStream, PrintError>) -> String {
    match result {
        Ok(stream) => stream.to_string(),
        Err(error) => panic!("{}", error.message),
    }
}

fn err(result: Result<TokenStream, PrintError>) -> String {
    match result {
        Ok(stream) => panic!("{stream}"),
        Err(error) => error.message,
    }
}

/// A map with the concepts `Alive`, `Named` and `Unit`, of which the last extends the others.
fn items_with_unit() -> (ItemMap, ConceptId) {
    let mut items = items();
    items.add_concept(concept("Alive"));
    items.add_concept(concept("Named"));
    let id = items.add_concept(unit());
    (items, id)
}

const LIST: &str = "**Extends**: core::Alive, core::Named\n\n**Definition**:\n```ignore\n{\n  \"core::health\": f32 = 100.5,\n  \"core::tags\": Vec<String> = [\"a\", \"b\\\"c\"],\n}\n```\n";

#[test]
fn component_lists_name_paths_types_and_values() {
    let (items, id) = items_with_unit();
    assert_eq!(
        generate_component_list_doc_comment(&items, &printer(), items.get_concept(id)),
        LIST
    );
    assert_eq!(
        generate_component_list_doc_comment(&items, &printer(), items.get_concept(ConceptId(0))),
        "**Definition**:\n```ignore\n{\n}\n```\n"
    );
}

#[test]
fn field_documentation_has_a_paragraph_for_each_part() {
    let (items, printer) = (items(), printer());
    let full = part(ComponentId(0), Some("Starts full."), resolved(health_value(), "100.5"));
    let field = component_to_field(&items, &printer, &full).ok().unwrap();
    assert_eq!(
        field.doc_comment,
        "**Component**: `core::health`\n\n**Suggested value**: `100.5f32`\n\n**Description**: Starts full.\n\n**Component description**: How healthy.\n\n"
    );
    assert_eq!(field.id.as_str(), "health");
    assert_eq!(
        field.to_field_definition(false).to_string(),
        code(&format!("#[doc = {:?}] pub health: f32,", field.doc_comment)).to_string()
    );
    assert_eq!(
        field.to_field_definition(true).to_string(),
        code(&format!("#[doc = {:?}] pub health: Option<f32> ,", field.doc_comment)).to_string()
    );

    let bare = part(ComponentId(1), None, Some(ResolvableValue::Unresolved));
    let field = component_to_field(&items, &printer, &bare).ok().unwrap();
    assert_eq!(field.doc_comment, "**Component**: `core::tags`\n\n");
}

#[test]
fn fields_fail_on_the_type_before_the_path() {
    let mut items = items();
    let both = items.add_component(Component {
        path: Err(error("no such path")),
        ..component("both", 2, None)
    });
    let fails = |id: ComponentId| {
        component_to_field(&items, &printer(), &part(id, None, None)).err().unwrap().message
    };
    assert_eq!(fails(ComponentId(2)), "no such path");
    assert_eq!(fails(ComponentId(3)), "no such type");
    assert_eq!(fails(both), "no such type");
}

#[test]
fn struct_documentation_is_trimmed() {
    let (items, id) = items_with_unit();
    assert_eq!(
        struct_doc_comment(&items, items.get_concept(id)),
        "**Fighting unit**: A unit.\n\n**Extends**: `core::Alive`, `core::Named`"
    );
    assert_eq!(struct_doc_comment(&items, items.get_concept(ConceptId(0))), "**Alive**");
    let spaced = Concept { description: Some(" x \u{a0}\u{3000}".to_string()), ..concept("A") };
    assert_eq!(struct_doc_comment(&items, &spaced), "**A**:  x");
}

#[test]
fn functions_of_a_concept() {
    let (items, id) = items_with_unit();
    let unit = items.get_concept(id);
    let doc = |sentence: &str| format!("{:?}", format!("{sentence}\n\nA unit.\n\n{LIST}"));

    let make = format!(
        "#[allow(clippy::approx_constant)]
        #[allow(non_snake_case)]
        #[doc = {}]
        pub fn make_Unit() -> Entity {{
            Entity::new()
                .with(crate::core::components::health(), 100.5f32)
                .with(crate::core::components::tags(), vec![\"a\".to_string(), \"b\\\"c\".to_string(),])
        }}",
        doc("Makes a *Fighting unit*.")
    );
    assert_eq!(ok(generate_make(&items, &printer(), unit)), code(&make).to_string());

    let guest_is = format!(
        "#[doc = {}]
        #[allow(non_snake_case)]
        pub fn is_Unit(id: EntityId) -> bool {{
            entity::has_components(id, &[
                &crate::core::components::health(), &crate::core::components::tags()
            ])
        }}",
        doc("Checks if the entity is a *Fighting unit*.")
    );
    assert_eq!(ok(generate_is(&items, &printer(), &user(), unit)), code(&guest_is).to_string());
    let api = Context::GuestApi(code("crate"));
    assert_eq!(ok(generate_is(&items, &printer(), &api, unit)), code(&guest_is).to_string());

    let host_is = format!(
        "#[doc = {}]
        #[allow(non_snake_case)]
        pub fn is_Unit(world: &crate::World, id: EntityId) -> bool {{
            world.has_components(id, &{{
                let mut set = crate::ComponentSet::new();
                set.insert(crate::core::components::health().desc());
                set.insert(crate::core::components::tags().desc());
                set
            }})
        }}",
        doc("Checks if the entity is a *Fighting unit*.")
    );
    assert_eq!(
        ok(generate_is(&items, &printer(), &Context::Host, unit)),
        code(&host_is).to_string()
    );

    let tuple = format!(
        "#[doc = {}]
        #[allow(clippy::type_complexity)]
        #[allow(non_snake_case)]
        pub fn tuple_Unit() -> (Component<f32> , Component<Vec<String> >) {{
            (crate::core::components::health(), crate::core::components::tags())
        }}",
        doc("Returns the components that comprise *Fighting unit* as a tuple.")
    );
    assert_eq!(ok(generate_concept(&items, &printer(), unit)), code(&tuple).to_string());
}

#[test]
fn functions_fail_on_a_missing_path() {
    let mut items = items();
    let id = items.add_concept(Concept {
        required_components: parts(vec![
            part(ComponentId(0), None, resolved(health_value(), "1")),
            part(ComponentId(2), None, resolved(health_value(), "1")),
        ]),
        ..concept("Lost")
    });
    let lost = items.get_concept(id);
    assert_eq!(err(generate_make(&items, &printer(), lost)), "no such path");
    assert_eq!(err(generate_is(&items, &printer(), &user(), lost)), "no such path");
    assert_eq!(err(generate_concept(&items, &printer(), lost)), "no such path");
}

#[test]
fn concepts_are_generated_in_one_module() {
    let (items, id) = items_with_unit();
    let doc = |sentence: &str| format!("{:?}", format!("{sentence}\n\nA unit.\n\n{LIST}"));
    let tags = "#[doc = \"**Component**: `core::tags`\\n\\n";
    let expected = format!(
        "#[doc = r\" Auto-generated concept definitions. Concepts are collections of components that describe some form of gameplay concept.\"]
        #[doc = r\"\"]
        #[doc = r\" They do not have any runtime representation outside of the components that compose them.\"]
        pub mod concepts {{
            use ambient_api::prelude:: * ;
            #[doc = \"**Fighting unit**: A unit.\\n\\n**Extends**: `core::Alive`, `core::Named`\"]
            #[derive(Clone, Debug)]
            pub struct Unit {{
                #[doc = \"**Component**: `core::health`\\n\\n**Suggested value**: `100.5f32`\\n\\n**Description**: Starts full.\\n\\n**Component description**: How healthy.\\n\\n\"]
                pub health: f32,
                {tags}**Suggested value**: `vec![\\\"a\\\".to_string(), \\\"b\\\\\\\"c\\\".to_string(), ]`\\n\\n\"]
                pub tags: Vec<String> ,
                #[doc = r\" Optional components.\"]
                pub optional: UnitOptional,
            }}
            #[doc = \"Optional part of [Unit].\"]
            #[derive(Clone, Debug, Default)]
            pub struct UnitOptional {{
                {tags}\"]
                pub tags: Option<Vec<String> > ,
            }}
            impl ambient_api::ecs::Concept for Unit {{
                fn make(self) -> Entity {{
                    let mut entity = Entity::new()
                        .with(crate::core::components::health(), self.health)
                        .with(crate::core::components::tags(), self.tags);
                    if let Some(tags) = self.optional.tags {{
                        entity.set(crate::core::components::tags(), tags);
                    }}
                    entity
                }}
                fn get_spawned(id: EntityId) -> Option<Self> {{
                    Some(Self {{
                        health: entity::get_component(id, crate::core::components::health()) ? ,
                        tags: entity::get_component(id, crate::core::components::tags()) ? ,
                        optional: UnitOptional {{
                            tags: entity::get_component(id, crate::core::components::tags()),
                        }}
                    }})
                }}
                fn get_unspawned(entity: &Entity) -> Option<Self> {{
                    Some(Self {{
                        health: entity.get(crate::core::components::health()) ? ,
                        tags: entity.get(crate::core::components::tags()) ? ,
                        optional: UnitOptional {{
                            tags: entity.get(crate::core::components::tags()),
                        }}
                    }})
                }}
                fn contained_by_spawned(id: EntityId) -> bool {{
                    entity::has_components(id, &[
                        &crate::core::components::health(), &crate::core::components::tags()
                    ])
                }}
                fn contained_by_unspawned(entity: &Entity) -> bool {{
                    entity.has_components(&[
                        &crate::core::components::health(), &crate::core::components::tags()
                    ])
                }}
            }}
            #[allow(clippy::approx_constant)]
            #[allow(non_snake_case)]
            #[doc = {make}]
            pub fn make_Unit() -> Entity {{
                Entity::new()
                    .with(crate::core::components::health(), 100.5f32)
                    .with(crate::core::components::tags(), vec![\"a\".to_string(), \"b\\\"c\".to_string(),])
            }}
            #[doc = {is}]
            #[allow(non_snake_case)]
            pub fn is_Unit(id: EntityId) -> bool {{
                entity::has_components(id, &[
                    &crate::core::components::health(), &crate::core::components::tags()
                ])
            }}
            #[doc = {tuple}]
            #[allow(clippy::type_complexity)]
            #[allow(non_snake_case)]
            pub fn tuple_Unit() -> (Component<f32> , Component<Vec<String> >) {{
                (crate::core::components::health(), crate::core::components::tags())
            }}
        }}",
        make = doc("Makes a *Fighting unit*."),
        is = doc("Checks if the entity is a *Fighting unit*."),
        tuple = doc("Returns the components that comprise *Fighting unit* as a tuple."),
    );
    let generated = ok(generate(user(), &items, &printer(), &scope(&[(id, true)])));
    assert_eq!(generated, code(&expected).to_string());
}

#[test]
fn concepts_without_optional_components_have_no_optional_part() {
    let mut items = items();
    let id = items.add_concept(Concept {
        required_components: parts(vec![part(ComponentId(0), None, resolved(health_value(), "1"))]),
        ..concept("Alive")
    });
    let generated = ok(generate(user(), &items, &printer(), &scope(&[(id, true)])));
    assert!(generated.contains("pub struct Alive"));
    assert!(!generated.to_lowercase().contains("optional"));
}

#[test]
fn the_host_has_no_concepts() {
    let (items, id) = items_with_unit();
    assert_eq!(ok(generate(Context::Host, &items, &printer(), &scope(&[(id, true)]))), "");
}

#[test]
fn irrelevant_concepts_are_left_out() {
    let (items, id) = items_with_unit();
    let alone = ok(generate(user(), &items, &printer(), &scope(&[(id, true)])));
    assert_eq!(ok(generate(user(), &items, &printer(), &scope(&[]))), "");
    assert_eq!(
        ok(generate(user(), &items, &printer(), &scope(&[(id, false), (ConceptId(0), false)]))),
        ""
    );
    assert_eq!(
        ok(generate(
            user(),
            &items,
            &printer(),
            &scope(&[(ConceptId(0), false), (id, true), (ConceptId(1), false)])
        )),
        alone
    );
}

#[test]
fn the_first_error_ends_the_generation() {
    let mut items = items();
    let suggested = || resolved(health_value(), "1");
    let good = items.add_concept(Concept {
        required_components: parts(vec![part(ComponentId(0), None, suggested())]),
        ..concept("Good")
    });
    let lost = items.add_concept(Concept {
        required_components: parts(vec![part(ComponentId(2), None, suggested())]),
        ..concept("Lost")
    });
    let untyped = items.add_concept(Concept {
        required_components: parts(vec![part(ComponentId(0), None, suggested())]),
        optional_components: parts(vec![part(ComponentId(3), None, None)]),
        ..concept("Untyped")
    });
    // Without a suggested value there are no functions; here none come to be written.
    let bare = items.add_concept(Concept {
        required_components: parts(vec![part(ComponentId(2), None, None)]),
        ..concept("Bare")
    });
    let run = |concepts: &[(ConceptId, bool)]| {
        generate(user(), &items, &printer(), &scope(concepts))
    };
    assert_eq!(err(run(&[(good, true), (lost, true), (untyped, true)])), "no such path");
    assert_eq!(err(run(&[(good, true), (untyped, true), (lost, true)])), "no such type");
    assert_eq!(err(run(&[(bare, true), (untyped, true)])), "no such path");
    assert!(ok(run(&[(good, true), (lost, false)])).contains("make_Good"));
}

#[test]
fn tokens_are_shown_on_one_line() {
    let shown = |text: &str| SemiprettyTokenStream(code(text)).text();
    assert_eq!(shown("f ( a , b ) [ 1 ] { x : : y }"), "f(a, b)[1]{x::y}");
    assert_eq!(shown("Vec < Option < u8 > >"), "Vec<Option<u8>>");
    assert_eq!(shown("\"a, b\" , 'c'"), "\"a, b\", 'c'");
    assert_eq!(shown(""), "");
    let group = proc_macro2::Group::new(proc_macro2::Delimiter::None, code("a , b"));
    let hidden = TokenStream::from(proc_macro2::TokenTree::Group(group));
    assert_eq!(SemiprettyTokenStream(hidden).text(), "a, b");
}

#[test]
fn shown_tokens_concatenate() {
    let mut both = code("f(a),");
    both.extend(code("(b), c"));
    assert_eq!(
        SemiprettyTokenStream(both).text(),
        format!(
            "{}{}",
            SemiprettyTokenStream(code("f(a),")).text(),
            SemiprettyTokenStream(code("(b), c")).text()
        )
    );
}

#[test]
fn identifiers_are_checked() {
    assert_eq!(Identifier::new("a_B9").unwrap().as_str(), "a_B9");
    assert_eq!(Identifier::new("_").unwrap().as_str(), "_");
    for text in ["", "9a", "a b", "a-b", "\u{e9}"] {
        assert!(Identifier::new(text).is_none());
    }
    assert!(name("a").is(&name("a")));
    assert!(!name("a").is(&name("b")));
}

#[test]
fn components_occur_once_and_keep_their_places() {
    let mut parts = ConceptComponents::new();
    assert!(parts.insert(part(ComponentId(4), Some("first"), None)).is_none());
    assert!(parts.insert(part(ComponentId(2), Some("second"), None)).is_none());
    let replaced = parts.insert(part(ComponentId(4), Some("third"), None)).unwrap();
    assert_eq!(replaced.description.as_deref(), Some("first"));
    assert_eq!(parts.len(), 2);
    assert_eq!(parts.get(0).component, ComponentId(4));
    assert_eq!(parts.get(0).value.description.as_deref(), Some("third"));
    assert_eq!(parts.get(1).component, ComponentId(2));
}

#[test]
fn only_what_is_reached_has_to_be_known() {
    let mut items = items();
    // A component of a type that the printer has not heard of, which no concept reaches.
    items.add_component(component("strange", 9, None));
    let suggested = || resolved(health_value(), "1");
    let lost = items.add_concept(Concept {
        required_components: parts(vec![
            part(ComponentId(2), None, suggested()),
            part(ComponentId(99), None, None),
        ]),
        extends: vec![ConceptId(99)],
        ..concept("Lost")
    });
    let concepts = scope(&[(lost, true), (ConceptId(99), true)]);
    assert_eq!(err(generate(user(), &items, &printer(), &concepts)), "no such path");
}

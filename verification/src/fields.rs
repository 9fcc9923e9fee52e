//! The fields of a concept's struct: one for each component.
use crate::items::{
    printed, ConceptComponent, ConceptComponents, ConceptValue, Identifier, ItemMap, PrintError,
    ResolvableValue, TypePrinter,
};
use crate::semipretty::{semipretty, SemiprettyTokenStream};
use crate::tokens::{
    comma_separated, comma_separated_step, concatenated, concatenated_step, is_identifier,
    nothing_before, stream_tokens, template, Quote, Template, Token,
};
use crate::values::{value_to_token_stream, value_tokens};
use proc_macro2::TokenStream;
use vstd::prelude::*;

verus! {

/// What generated code needs to know of a component.
#[verifier::ext_equal]
pub struct FieldModel {
    pub doc: Seq<char>,
    pub id: Seq<char>,
    pub ty: Seq<Token>,
    pub path: Seq<Token>,
}

/// A paragraph with a label, where there is a text.
pub open spec fn paragraph(label: &str, text: Option<String>) -> Seq<char> {
    match text {
        Some(text) => label@ + text@ + "\n\n"@,
        None => seq![],
    }
}

/// The paragraph on the suggested value, where it is resolved.
pub open spec fn suggested_paragraph(items: ItemMap, value: ConceptValue) -> Seq<char> {
    match value.suggested {
        Some(ResolvableValue::Resolved { value, .. }) => "**Suggested value**: `"@ + semipretty(
            value_tokens(items, value),
        ) + "`\n\n"@,
        _ => seq![],
    }
}

/// The documentation of a field.
pub open spec fn field_doc(items: ItemMap, part: ConceptComponent) -> Seq<char> {
    let component = items.component(part.component);
    "**Component**: `"@ + component.display_path@ + "`\n\n"@ + suggested_paragraph(
        items,
        part.value,
    ) + paragraph("**Description**: ", part.value.description) + paragraph(
        "**Component description**: ",
        component.description,
    )
}

/// The field of a component. The type is printed before the path, so where neither can be
/// printed the error is that of the type.
pub open spec fn field_of(
    items: ItemMap,
    printer: TypePrinter,
    part: ConceptComponent,
) -> Result<FieldModel, Seq<char>> {
    let component = items.component(part.component);
    match printer.type_tokens(component.type_) {
        Err(message) => Err(message),
        Ok(ty) => match printed(component.path) {
            Err(message) => Err(message),
            Ok(path) => Ok(
                FieldModel { doc: field_doc(items, part), id: component.id@, ty, path },
            ),
        },
    }
}

/// The fields of components, or the error of the first that has none.
pub open spec fn fields_of(
    items: ItemMap,
    printer: TypePrinter,
    parts: Seq<ConceptComponent>,
) -> Result<Seq<FieldModel>, Seq<char>>
    decreases parts.len(),
{
    if parts.len() == 0 {
        Ok(seq![])
    } else {
        match fields_of(items, printer, parts.drop_last()) {
            Err(message) => Err(message),
            Ok(fields) => match field_of(items, printer, parts.last()) {
                Err(message) => Err(message),
                Ok(field) => Ok(fields.push(field)),
            },
        }
    }
}

/// Whether the types and the paths of components can be printed.
pub open spec fn are_printable(
    items: ItemMap,
    printer: TypePrinter,
    parts: Seq<ConceptComponent>,
) -> bool {
    forall|i: int|
        0 <= i < parts.len() ==> {
            let component = items.component((#[trigger] parts[i]).component);
            printer.type_tokens(component.type_) is Ok && component.path is Ok
        }
}

/// Whether a component is in the map and the printer knows its type, and also the suggested value
/// is in the map, which is looked at where the type can be printed.
pub open spec fn is_usable(items: ItemMap, printer: TypePrinter, part: ConceptComponent) -> bool {
    let type_ = items.component(part.component).type_;
    &&& items.has_component(part.component)
    &&& printer.knows(type_)
    &&& printer.type_tokens(type_) is Ok ==> items.has_suggested(part.value)
}

/// Whether what the fields of components need is there. Nothing is asked of a component that
/// stands behind one that can not be printed.
pub open spec fn are_usable(
    items: ItemMap,
    printer: TypePrinter,
    parts: Seq<ConceptComponent>,
) -> bool {
    forall|i: int|
        0 <= i < parts.len() && are_printable(items, printer, parts.take(i)) ==> is_usable(
            items,
            printer,
            #[trigger] parts[i],
        )
}

/// Components have fields if and only if they can be printed.
pub proof fn printable_components_have_fields(
    items: ItemMap,
    printer: TypePrinter,
    parts: Seq<ConceptComponent>,
)
    ensures
        fields_of(items, printer, parts) is Ok <==> are_printable(items, printer, parts),
    decreases parts.len(),
{
    if parts.len() > 0 {
        let rest = parts.drop_last();
        printable_components_have_fields(items, printer, rest);
        assert(are_printable(items, printer, parts) <==> are_printable(items, printer, rest)
            && field_of(items, printer, parts.last()) is Ok) by {
            if are_printable(items, printer, rest) && field_of(items, printer, parts.last()) is Ok {
                assert forall|i: int| 0 <= i < parts.len() implies ({
                    let component = items.component((#[trigger] parts[i]).component);
                    printer.type_tokens(component.type_) is Ok && component.path is Ok
                }) by {
                    if i < rest.len() {
                        assert(rest[i] == parts[i]);
                    }
                }
            }
            if are_printable(items, printer, parts) {
                assert forall|i: int| 0 <= i < rest.len() implies ({
                    let component = items.component((#[trigger] rest[i]).component);
                    printer.type_tokens(component.type_) is Ok && component.path is Ok
                }) by {
                    assert(rest[i] == parts[i]);
                }
                assert(parts.last() == parts[parts.len() - 1]);
            }
        }
    }
}

/// Components that can be printed are all asked to be usable, and all have usable values.
pub(crate) proof fn printable_components_are_usable(
    items: ItemMap,
    printer: TypePrinter,
    parts: Seq<ConceptComponent>,
)
    requires
        are_printable(items, printer, parts),
        are_usable(items, printer, parts),
    ensures
        forall|i: int|
            0 <= i < parts.len() ==> is_usable(items, printer, #[trigger] parts[i])
                && items.has_suggested(parts[i].value),
{
    assert forall|i: int| 0 <= i < parts.len() implies is_usable(
        items,
        printer,
        #[trigger] parts[i],
    ) && items.has_suggested(parts[i].value) by {
        assert forall|j: int| 0 <= j < parts.take(i).len() implies ({
            let component = items.component((#[trigger] parts.take(i)[j]).component);
            printer.type_tokens(component.type_) is Ok && component.path is Ok
        }) by {
            assert(parts.take(i)[j] == parts[j]);
        }
        assert(are_printable(items, printer, parts.take(i)));
    }
}

/// The field of a struct that stands for a component.
pub struct ComponentField<'a> {
    pub doc_comment: String,
    pub id: &'a Identifier,
    pub ty: &'a TokenStream,
    pub path: &'a TokenStream,
}

impl<'a> View for ComponentField<'a> {
    type V = FieldModel;

    open spec fn view(&self) -> FieldModel {
        FieldModel {
            doc: self.doc_comment@,
            id: self.id@,
            ty: stream_tokens(*self.ty),
            path: stream_tokens(*self.path),
        }
    }
}

/// The models of fields.
pub open spec fn field_models<'a>(fields: Seq<ComponentField<'a>>) -> Seq<FieldModel> {
    fields.map_values(|field: ComponentField<'a>| field@)
}

/// Appends a paragraph with a label, where there is a text.
fn write_paragraph(out: &mut String, label: &str, text: &Option<String>)
    ensures
        final(out)@ == old(out)@ + paragraph(label, *text),
{
    if let Some(text) = text {
        out.append(label);
        out.append(text.as_str());
        out.append("\n\n");
    }
    assert(out@ =~= old(out)@ + paragraph(label, *text));
}

/// Appends the paragraph on the suggested value, where it is resolved.
fn write_suggested_paragraph(out: &mut String, items: &ItemMap, value: &ConceptValue)
    requires
        items.has_suggested(*value),
    ensures
        final(out)@ == old(out)@ + suggested_paragraph(*items, *value),
{
    if let Some(ResolvableValue::Resolved { value, .. }) = &value.suggested {
        let expression = SemiprettyTokenStream(value_to_token_stream(items, value)).text();
        out.append("**Suggested value**: `");
        out.append(expression.as_str());
        out.append("`\n\n");
    }
    assert(out@ =~= old(out)@ + suggested_paragraph(*items, *value));
}

/// A copy of a print error.
pub(crate) fn copy_error(error: &PrintError) -> (r: PrintError)
    ensures
        r.message@ == error.message@,
{
    PrintError { message: error.message.clone() }
}

/// The field of a component.
pub fn component_to_field<'a>(
    items: &'a ItemMap,
    type_printer: &'a TypePrinter,
    part: &ConceptComponent,
) -> (r: Result<ComponentField<'a>, PrintError>)
    requires
        is_usable(*items, *type_printer, *part),
    ensures
        match r {
            Ok(field) => field_of(*items, *type_printer, *part) == Ok::<FieldModel, Seq<char>>(
                field@,
            ),
            Err(error) => field_of(*items, *type_printer, *part) == Err::<FieldModel, Seq<char>>(
                error.message@,
            ),
        },
{
    let component = items.get_component(part.component);
    let ty = match type_printer.get(component.type_) {
        Ok(ty) => ty,
        Err(error) => {
            return Err(copy_error(error));
        },
    };
    let mut doc_comment = String::new();
    doc_comment.append("**Component**: `");
    doc_comment.append(component.display_path.as_str());
    doc_comment.append("`\n\n");
    write_suggested_paragraph(&mut doc_comment, items, &part.value);
    write_paragraph(&mut doc_comment, "**Description**: ", &part.value.description);
    write_paragraph(&mut doc_comment, "**Component description**: ", &component.description);
    assert(doc_comment@ =~= field_doc(*items, *part));
    let path = match &component.path {
        Ok(path) => path,
        Err(error) => {
            return Err(copy_error(error));
        },
    };
    Ok(ComponentField { doc_comment, id: &component.id, ty, path })
}

/// An error among the first components is the error of all of them.
proof fn first_error_counts(
    items: ItemMap,
    printer: TypePrinter,
    parts: Seq<ConceptComponent>,
    i: int,
)
    requires
        0 <= i <= parts.len(),
        fields_of(items, printer, parts.take(i)) is Err,
    ensures
        fields_of(items, printer, parts) == fields_of(items, printer, parts.take(i)),
    decreases parts.len() - i,
{
    if i == parts.len() {
        assert(parts.take(i) =~= parts);
    } else {
        assert(parts.take(i + 1).drop_last() =~= parts.take(i));
        first_error_counts(items, printer, parts, i + 1);
    }
}

/// The fields of components, or the error of the first that has none.
pub fn components_to_fields<'a>(
    items: &'a ItemMap,
    type_printer: &'a TypePrinter,
    parts: &ConceptComponents,
) -> (r: Result<Vec<ComponentField<'a>>, PrintError>)
    requires
        are_usable(*items, *type_printer, parts@),
    ensures
        match r {
            Ok(fields) => fields_of(*items, *type_printer, parts@) == Ok::<
                Seq<FieldModel>,
                Seq<char>,
            >(field_models(fields@)),
            Err(error) => fields_of(*items, *type_printer, parts@) == Err::<
                Seq<FieldModel>,
                Seq<char>,
            >(error.message@),
        },
{
    let mut fields: Vec<ComponentField<'a>> = Vec::new();
    let mut i: usize = 0;
    assert(field_models(fields@) =~= seq![]);
    while i < parts.len()
        invariant
            i <= parts@.len(),
            are_usable(*items, *type_printer, parts@),
            fields_of(*items, *type_printer, parts@.take(i as int)) == Ok::<
                Seq<FieldModel>,
                Seq<char>,
            >(field_models(fields@)),
        decreases parts@.len() - i,
    {
        proof {
            printable_components_have_fields(*items, *type_printer, parts@.take(i as int));
        }
        assert(parts@.take(i + 1).drop_last() =~= parts@.take(i as int));
        match component_to_field(items, type_printer, parts.get(i)) {
            Ok(field) => {
                let ghost before = field_models(fields@);
                fields.push(field);
                assert(field_models(fields@) =~= before.push(field@));
            },
            Err(error) => {
                proof {
                    first_error_counts(*items, *type_printer, parts@, i + 1);
                }
                return Err(error);
            },
        }
        i = i + 1;
    }
    assert(parts@.take(i as int) =~= parts@);
    Ok(fields)
}

// -------------------------------------------------------------------------------------------
// What generated code does with a field

/// `#[doc = text]`
pub open spec fn doc_attribute(text: Seq<char>) -> Seq<Token> {
    template().punct('#').brackets(template().ident("doc").punct('=').string(text))
}

/// The type of a field: that of the component, or an option of it.
pub open spec fn field_type(field: FieldModel, use_option: bool) -> Seq<Token> {
    if use_option {
        template().ident("Option").punct('<').tokens(field.ty).punct('>')
    } else {
        field.ty
    }
}

/// `#[doc = ...] pub id: type,`
pub open spec fn field_definition(field: FieldModel, use_option: bool) -> Seq<Token> {
    doc_attribute(field.doc).ident("pub").name(field.id).punct(':').tokens(
        field_type(field, use_option),
    ).punct(',')
}

/// `path()`
pub open spec fn path_call(path: Seq<Token>) -> Seq<Token> {
    path.parens(template())
}

/// `.with(path(), self.id)`
pub open spec fn with_call(field: FieldModel) -> Seq<Token> {
    template().punct('.').ident("with").parens(
        path_call(field.path).punct(',').ident("self").punct('.').name(field.id),
    )
}

/// `if let Some(id) = self.optional.id { entity.set(path(), id); }`
pub open spec fn set_if_some(field: FieldModel) -> Seq<Token> {
    template().ident("if").ident("let").ident("Some").parens(template().name(field.id)).punct(
        '=',
    ).ident("self").punct('.').ident("optional").punct('.').name(field.id).braces(
        template().ident("entity").punct('.').ident("set").parens(
            path_call(field.path).punct(',').name(field.id),
        ).punct(';'),
    )
}

/// `id: entity::get_component(id, path())?,` where the component is required, and the same
/// without the question mark where it is not
pub open spec fn spawned_initializer(field: FieldModel, required: bool) -> Seq<Token> {
    initializer_end(
        template().name(field.id).punct(':').ident("entity").joint(':').punct(':').ident(
            "get_component",
        ).parens(template().ident("id").punct(',').tokens(path_call(field.path))),
        required,
    )
}

/// `id: entity.get(path())?,` where the component is required, and the same without the
/// question mark where it is not
pub open spec fn unspawned_initializer(field: FieldModel, required: bool) -> Seq<Token> {
    initializer_end(
        template().name(field.id).punct(':').ident("entity").punct('.').ident("get").parens(
            path_call(field.path),
        ),
        required,
    )
}

/// An initializer with its end: a comma, and a question mark before it where the component is
/// required.
pub open spec fn initializer_end(initializer: Seq<Token>, required: bool) -> Seq<Token> {
    if required {
        initializer.punct('?').punct(',')
    } else {
        initializer.punct(',')
    }
}

/// `&path()`
pub open spec fn path_reference(path: Seq<Token>) -> Seq<Token> {
    template().punct('&').tokens(path_call(path))
}

/// The ways in which generated code uses a field.
#[derive(Clone, Copy, PartialEq, Eq, Structural, Debug)]
pub enum FieldForm {
    /// A field of the concept's struct.
    Definition,
    /// A field of the struct of the optional components.
    OptionDefinition,
    /// Hands the field to a new entity.
    WithCall,
    /// Hands the optional field to a new entity.
    SetIfSome,
    /// Reads the required field from a spawned entity.
    Spawned,
    /// Reads the optional field from a spawned entity.
    SpawnedOption,
    /// Reads the required field from an entity that is not spawned.
    Unspawned,
    /// Reads the optional field from an entity that is not spawned.
    UnspawnedOption,
}

/// The code of one use of a field.
pub open spec fn form_tokens(form: FieldForm, field: FieldModel) -> Seq<Token> {
    match form {
        FieldForm::Definition => field_definition(field, false),
        FieldForm::OptionDefinition => field_definition(field, true),
        FieldForm::WithCall => with_call(field),
        FieldForm::SetIfSome => set_if_some(field),
        FieldForm::Spawned => spawned_initializer(field, true),
        FieldForm::SpawnedOption => spawned_initializer(field, false),
        FieldForm::Unspawned => unspawned_initializer(field, true),
        FieldForm::UnspawnedOption => unspawned_initializer(field, false),
    }
}

/// The code of one use of each field, one after the other.
pub open spec fn all_forms(form: FieldForm, fields: Seq<FieldModel>) -> Seq<Token> {
    concatenated(fields.map_values(|field: FieldModel| form_tokens(form, field)))
}

/// References to the paths of the fields, with commas between them.
pub open spec fn path_references(fields: Seq<FieldModel>) -> Seq<Token> {
    comma_separated(fields.map_values(|field: FieldModel| path_reference(field.path)))
}

/// The words of these uses are identifiers.
proof fn words_are_identifiers()
    ensures
        is_identifier("doc"@),
        is_identifier("pub"@),
        is_identifier("Option"@),
        is_identifier("with"@),
        is_identifier("self"@),
        is_identifier("if"@),
        is_identifier("let"@),
        is_identifier("Some"@),
        is_identifier("optional"@),
        is_identifier("entity"@),
        is_identifier("set"@),
        is_identifier("get_component"@),
        is_identifier("id"@),
        is_identifier("get"@),
{
    reveal_strlit("doc");
    reveal_strlit("pub");
    reveal_strlit("Option");
    reveal_strlit("with");
    reveal_strlit("self");
    reveal_strlit("if");
    reveal_strlit("let");
    reveal_strlit("Some");
    reveal_strlit("optional");
    reveal_strlit("entity");
    reveal_strlit("set");
    reveal_strlit("get_component");
    reveal_strlit("id");
    reveal_strlit("get");
}

/// `#[doc = text]`
pub(crate) fn quote_doc_attribute(text: &str) -> (r: Quote)
    ensures
        r@ == doc_attribute(text@),
{
    proof {
        words_are_identifiers();
    }
    Quote::new().punct('#').brackets(Quote::new().ident("doc").punct('=').string(text))
}

/// `path()`
pub(crate) fn quote_path_call(path: &TokenStream) -> (r: Quote)
    ensures
        r@ == path_call(stream_tokens(*path)),
{
    proof {
        nothing_before();
    }
    Quote::new().stream(path).parens(Quote::new())
}

/// `&path()`
pub(crate) fn quote_path_reference(path: &TokenStream) -> (r: Quote)
    ensures
        r@ == path_reference(stream_tokens(*path)),
{
    Quote::new().punct('&').tokens(quote_path_call(path))
}

impl<'a> ComponentField<'a> {
    /// `#[doc = ...] pub id: type,`
    pub fn to_field_definition(&self, use_option: bool) -> (r: TokenStream)
        ensures
            stream_tokens(r) == field_definition(self@, use_option),
    {
        proof {
            words_are_identifiers();
        }
        let quote = quote_doc_attribute(self.doc_comment.as_str()).ident("pub").ident(
            self.id.as_str(),
        ).punct(':');
        let typed = if use_option {
            quote.tokens(Quote::new().ident("Option").punct('<').stream(self.ty).punct('>'))
        } else {
            quote.stream(self.ty)
        };
        typed.punct(',').finish()
    }

    /// `.with(path(), self.id)`
    fn quote_with_call(&self) -> (r: Quote)
        ensures
            r@ == with_call(self@),
    {
        proof {
            words_are_identifiers();
        }
        let arguments = quote_path_call(self.path).punct(',').ident("self").punct('.').ident(
            self.id.as_str(),
        );
        Quote::new().punct('.').ident("with").parens(arguments)
    }

    /// `if let Some(id) = self.optional.id { entity.set(path(), id); }`
    fn quote_set_if_some(&self) -> (r: Quote)
        ensures
            r@ == set_if_some(self@),
    {
        proof {
            words_are_identifiers();
        }
        let id = self.id.as_str();
        let arguments = quote_path_call(self.path).punct(',').ident(id);
        let body = Quote::new().ident("entity").punct('.').ident("set").parens(arguments).punct(
            ';',
        );
        Quote::new().ident("if").ident("let").ident("Some").parens(
            Quote::new().ident(id),
        ).punct('=').ident("self").punct('.').ident("optional").punct('.').ident(id).braces(body)
    }

    /// `id: entity::get_component(id, path())?,`
    fn quote_spawned(&self, required: bool) -> (r: Quote)
        ensures
            r@ == spawned_initializer(self@, required),
    {
        proof {
            words_are_identifiers();
        }
        let arguments = Quote::new().ident("id").punct(',').tokens(quote_path_call(self.path));
        let quote = Quote::new().ident(self.id.as_str()).punct(':').ident("entity").joint(
            ':',
        ).punct(':').ident("get_component").parens(arguments);
        quote_initializer_end(quote, required)
    }

    /// `id: entity.get(path())?,`
    fn quote_unspawned(&self, required: bool) -> (r: Quote)
        ensures
            r@ == unspawned_initializer(self@, required),
    {
        proof {
            words_are_identifiers();
        }
        let quote = Quote::new().ident(self.id.as_str()).punct(':').ident("entity").punct(
            '.',
        ).ident("get").parens(quote_path_call(self.path));
        quote_initializer_end(quote, required)
    }

    /// The code of one use of the field.
    pub fn quote_form(&self, form: FieldForm) -> (r: Quote)
        ensures
            r@ == form_tokens(form, self@),
    {
        proof {
            nothing_before();
        }
        match form {
            FieldForm::Definition => Quote::new().stream(&self.to_field_definition(false)),
            FieldForm::OptionDefinition => Quote::new().stream(&self.to_field_definition(true)),
            FieldForm::WithCall => self.quote_with_call(),
            FieldForm::SetIfSome => self.quote_set_if_some(),
            FieldForm::Spawned => self.quote_spawned(true),
            FieldForm::SpawnedOption => self.quote_spawned(false),
            FieldForm::Unspawned => self.quote_unspawned(true),
            FieldForm::UnspawnedOption => self.quote_unspawned(false),
        }
    }
}

/// Ends an initializer.
fn quote_initializer_end(quote: Quote, required: bool) -> (r: Quote)
    ensures
        r@ == initializer_end(quote@, required),
{
    if required {
        quote.punct('?').punct(',')
    } else {
        quote.punct(',')
    }
}

/// The code of one use of each field, one after the other.
pub fn quote_all_forms<'a>(form: FieldForm, fields: &Vec<ComponentField<'a>>) -> (r: Quote)
    ensures
        r@ == all_forms(form, field_models(fields@)),
{
    let ghost parts = field_models(fields@).map_values(
        |field: FieldModel| form_tokens(form, field),
    );
    let mut quote = Quote::new();
    let mut i: usize = 0;
    while i < fields.len()
        invariant
            i <= fields.len(),
            parts == field_models(fields@).map_values(
                |field: FieldModel| form_tokens(form, field),
            ),
            quote@ == concatenated(parts.take(i as int)),
        decreases fields.len() - i,
    {
        proof {
            concatenated_step(parts, i as int);
        }
        quote = quote.tokens(fields[i].quote_form(form));
        i = i + 1;
    }
    assert(parts.take(i as int) =~= parts);
    quote
}

/// References to the paths of the fields, with commas between them.
pub fn quote_path_references<'a>(fields: &Vec<ComponentField<'a>>) -> (r: Quote)
    ensures
        r@ == path_references(field_models(fields@)),
{
    proof {
        nothing_before();
    }
    let ghost parts = field_models(fields@).map_values(
        |field: FieldModel| path_reference(field.path),
    );
    let mut quote = Quote::new();
    let mut i: usize = 0;
    while i < fields.len()
        invariant
            i <= fields.len(),
            parts == field_models(fields@).map_values(
                |field: FieldModel| path_reference(field.path),
            ),
            quote@ == comma_separated(parts.take(i as int)),
            forall|tokens: Seq<Token>| #[trigger] (Seq::<Token>::empty() + tokens) == tokens,
        decreases fields.len() - i,
    {
        proof {
            comma_separated_step(parts, i as int);
        }
        if i != 0 {
            quote = quote.punct(',');
        }
        quote = quote.tokens(quote_path_reference(fields[i].path));
        i = i + 1;
    }
    assert(parts.take(i as int) =~= parts);
    quote
}

} // verus!

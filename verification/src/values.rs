//! Values as code: the expressions that build them.
use crate::floats::{is_float, F32Literal};
use crate::items::{ItemMap, ScalarValue, TypeInner, Value};
use crate::tokens::{
    bool_token, comma_terminated, comma_terminated_step, has_own_literal, integer_tokens,
    is_identifier, nothing_before, stream_tokens, template, Quote, Template, Token,
};
use crate::value_laws::{
    are_floats, expressions_tell_scalars_apart, is_handle, is_valid, same_scalar,
};
use proc_macro2::TokenStream;
use vstd::prelude::*;

verus! {

/// `ty::constructor(arguments)`
pub open spec fn constructor_call(ty: &str, constructor: &str, arguments: Seq<Token>) -> Seq<Token> {
    template().ident(ty).joint(':').punct(':').ident(constructor).parens(arguments)
}

/// Floating-point numbers, each with a comma behind it.
pub open spec fn float_arguments(parts: Seq<F32Literal>) -> Seq<Token> {
    comma_terminated(parts.map_values(|part: F32Literal| part@))
}

/// Integers of type `u32`, each with a comma behind it.
pub open spec fn u32_arguments(parts: Seq<u32>) -> Seq<Token> {
    comma_terminated(parts.map_values(|part: u32| integer_tokens(part as int, "u32")))
}

/// Integers of type `i32`, each with a comma behind it.
pub open spec fn i32_arguments(parts: Seq<i32>) -> Seq<Token> {
    comma_terminated(parts.map_values(|part: i32| integer_tokens(part as int, "i32")))
}

/// What stands for a value that cannot be written in code.
pub open spec fn unsupported() -> Seq<Token> {
    template().ident("unsupported").punct('!').parens(template())
}

/// The expression of a scalar value.
pub open spec fn scalar_tokens(value: ScalarValue) -> Seq<Token> {
    match value {
        ScalarValue::Empty(_) => template().parens(template()),
        ScalarValue::Bool(v) => template().push(bool_token(v)),
        ScalarValue::EntityId(id) => template().ident("EntityId").parens(
            integer_tokens(id as int, "u128"),
        ),
        ScalarValue::F32(v) => v@,
        ScalarValue::F64(v) => v@,
        ScalarValue::Mat4(v) => constructor_call(
            "Mat4",
            "from_cols_array",
            template().punct('&').brackets(float_arguments(v@)),
        ),
        ScalarValue::Quat(v) => constructor_call("Quat", "from_xyzw", float_arguments(v@)),
        ScalarValue::String(v) => template().string(v@).punct('.').ident("to_string").parens(
            template(),
        ),
        ScalarValue::U8(v) => integer_tokens(v as int, "u8"),
        ScalarValue::U16(v) => integer_tokens(v as int, "u16"),
        ScalarValue::U32(v) => integer_tokens(v as int, "u32"),
        ScalarValue::U64(v) => integer_tokens(v as int, "u64"),
        ScalarValue::I8(v) => integer_tokens(v as int, "i8"),
        ScalarValue::I16(v) => integer_tokens(v as int, "i16"),
        ScalarValue::I32(v) => integer_tokens(v as int, "i32"),
        ScalarValue::I64(v) => integer_tokens(v as int, "i64"),
        ScalarValue::Vec2(v) => constructor_call("Vec2", "new", float_arguments(v@)),
        ScalarValue::Vec3(v) => constructor_call("Vec3", "new", float_arguments(v@)),
        ScalarValue::Vec4(v) => constructor_call("Vec4", "new", float_arguments(v@)),
        ScalarValue::Uvec2(v) => constructor_call("UVec2", "new", u32_arguments(v@)),
        ScalarValue::Uvec3(v) => constructor_call("UVec3", "new", u32_arguments(v@)),
        ScalarValue::Uvec4(v) => constructor_call("UVec4", "new", u32_arguments(v@)),
        ScalarValue::Ivec2(v) => constructor_call("IVec2", "new", i32_arguments(v@)),
        ScalarValue::Ivec3(v) => constructor_call("IVec3", "new", i32_arguments(v@)),
        ScalarValue::Ivec4(v) => constructor_call("IVec4", "new", i32_arguments(v@)),
        ScalarValue::Duration(v) => constructor_call(
            "Duration",
            "new",
            integer_tokens(v.secs as int, "u64").punct(',').tokens(
                integer_tokens(v.nanos as int, "u32"),
            ),
        ),
        ScalarValue::ProceduralMeshHandle(_) => unsupported(),
        ScalarValue::ProceduralTextureHandle(_) => unsupported(),
        ScalarValue::ProceduralSamplerHandle(_) => unsupported(),
        ScalarValue::ProceduralMaterialHandle(_) => unsupported(),
    }
}

/// The expression of a value.
pub open spec fn value_tokens(items: ItemMap, value: Value) -> Seq<Token> {
    match value {
        Value::Scalar(v) => scalar_tokens(v),
        Value::Vec(v) => template().ident("vec").punct('!').brackets(
            comma_terminated(v@.map_values(|part: ScalarValue| scalar_tokens(part))),
        ),
        Value::Option(Some(v)) => template().ident("Some").parens(scalar_tokens(v)),
        Value::Option(None) => template().ident("None"),
        Value::Enum(id, member) => integer_tokens(
            items.enum_type(id).names().index_of_first(member@)->0,
            "usize",
        ),
    }
}

/// The words of the expressions are identifiers.
proof fn words_are_identifiers()
    ensures
        is_identifier("EntityId"@),
        is_identifier("Mat4"@),
        is_identifier("from_cols_array"@),
        is_identifier("Quat"@),
        is_identifier("from_xyzw"@),
        is_identifier("to_string"@),
        is_identifier("new"@),
        is_identifier("Vec2"@),
        is_identifier("Vec3"@),
        is_identifier("Vec4"@),
        is_identifier("UVec2"@),
        is_identifier("UVec3"@),
        is_identifier("UVec4"@),
        is_identifier("IVec2"@),
        is_identifier("IVec3"@),
        is_identifier("IVec4"@),
        is_identifier("Duration"@),
        is_identifier("unsupported"@),
        is_identifier("vec"@),
        is_identifier("Some"@),
        is_identifier("None"@),
{
    reveal_strlit("EntityId");
    reveal_strlit("Mat4");
    reveal_strlit("from_cols_array");
    reveal_strlit("Quat");
    reveal_strlit("from_xyzw");
    reveal_strlit("to_string");
    reveal_strlit("new");
    reveal_strlit("Vec2");
    reveal_strlit("Vec3");
    reveal_strlit("Vec4");
    reveal_strlit("UVec2");
    reveal_strlit("UVec3");
    reveal_strlit("UVec4");
    reveal_strlit("IVec2");
    reveal_strlit("IVec3");
    reveal_strlit("IVec4");
    reveal_strlit("Duration");
    reveal_strlit("unsupported");
    reveal_strlit("vec");
    reveal_strlit("Some");
    reveal_strlit("None");
}

/// Floating-point numbers, each with a comma behind it.
fn quote_floats(parts: &[F32Literal]) -> (r: Quote)
    ensures
        r@ == float_arguments(parts@),
        are_floats(parts@),
{
    let ghost tokens = parts@.map_values(|part: F32Literal| part@);
    let mut quote = Quote::new();
    let mut i: usize = 0;
    while i < parts.len()
        invariant
            i <= parts.len(),
            tokens == parts@.map_values(|part: F32Literal| part@),
            quote@ == comma_terminated(tokens.take(i as int)),
            forall|j: int| 0 <= j < i ==> is_float((#[trigger] parts@[j])@, "f32"@),
        decreases parts.len() - i,
    {
        proof {
            comma_terminated_step(tokens, i as int);
        }
        quote = quote.stream(parts[i].tokens()).punct(',');
        i = i + 1;
    }
    assert(tokens.take(i as int) =~= tokens);
    quote
}

/// Integers of type `u32`, each with a comma behind it.
fn quote_u32s(parts: &[u32]) -> (r: Quote)
    ensures
        r@ == u32_arguments(parts@),
{
    let ghost tokens = parts@.map_values(|part: u32| integer_tokens(part as int, "u32"));
    let mut quote = Quote::new();
    let mut i: usize = 0;
    while i < parts.len()
        invariant
            i <= parts.len(),
            tokens == parts@.map_values(|part: u32| integer_tokens(part as int, "u32")),
            quote@ == comma_terminated(tokens.take(i as int)),
        decreases parts.len() - i,
    {
        proof {
            comma_terminated_step(tokens, i as int);
        }
        quote = quote.u32(parts[i]).punct(',');
        i = i + 1;
    }
    assert(tokens.take(i as int) =~= tokens);
    quote
}

/// Integers of type `i32`, each with a comma behind it.
fn quote_i32s(parts: &[i32]) -> (r: Quote)
    ensures
        r@ == i32_arguments(parts@),
{
    let ghost tokens = parts@.map_values(|part: i32| integer_tokens(part as int, "i32"));
    let mut quote = Quote::new();
    let mut i: usize = 0;
    while i < parts.len()
        invariant
            i <= parts.len(),
            tokens == parts@.map_values(|part: i32| integer_tokens(part as int, "i32")),
            quote@ == comma_terminated(tokens.take(i as int)),
        decreases parts.len() - i,
    {
        proof {
            comma_terminated_step(tokens, i as int);
        }
        quote = quote.i32(parts[i]).punct(',');
        i = i + 1;
    }
    assert(tokens.take(i as int) =~= tokens);
    quote
}

/// `ty::constructor(arguments)`
fn quote_constructor_call(ty: &str, constructor: &str, arguments: Quote) -> (r: Quote)
    requires
        is_identifier(ty@),
        is_identifier(constructor@),
    ensures
        r@ == constructor_call(ty, constructor, arguments@),
{
    Quote::new().ident(ty).joint(':').punct(':').ident(constructor).parens(arguments)
}

/// What stands for a value that cannot be written in code.
fn quote_unsupported() -> (r: Quote)
    ensures
        r@ == unsupported(),
{
    proof {
        words_are_identifiers();
    }
    Quote::new().ident("unsupported").punct('!').parens(Quote::new())
}

/// The expression of a scalar value.
pub fn quote_scalar(v: &ScalarValue) -> (r: Quote)
    ensures
        r@ == scalar_tokens(*v),
        is_valid(*v),
        *v matches ScalarValue::String(text) ==> has_own_literal(text@),
{
    proof {
        words_are_identifiers();
        nothing_before();
    }
    match v {
        ScalarValue::Empty(_) => Quote::new().parens(Quote::new()),
        ScalarValue::Bool(v) => Quote::new().bool(*v),
        ScalarValue::EntityId(id) => Quote::new().ident("EntityId").parens(Quote::new().u128(*id)),
        ScalarValue::F32(v) => Quote::new().stream(v.tokens()),
        ScalarValue::F64(v) => Quote::new().stream(v.tokens()),
        ScalarValue::Mat4(v) => {
            let columns = quote_floats(v.as_slice());
            let arguments = Quote::new().punct('&').brackets(columns);
            quote_constructor_call("Mat4", "from_cols_array", arguments)
        },
        ScalarValue::Quat(v) => quote_constructor_call(
            "Quat",
            "from_xyzw",
            quote_floats(v.as_slice()),
        ),
        ScalarValue::String(v) => Quote::new().string(v.as_str()).punct('.').ident(
            "to_string",
        ).parens(Quote::new()),
        ScalarValue::U8(v) => Quote::new().u8(*v),
        ScalarValue::U16(v) => Quote::new().u16(*v),
        ScalarValue::U32(v) => Quote::new().u32(*v),
        ScalarValue::U64(v) => Quote::new().u64(*v),
        ScalarValue::I8(v) => Quote::new().i8(*v),
        ScalarValue::I16(v) => Quote::new().i16(*v),
        ScalarValue::I32(v) => Quote::new().i32(*v),
        ScalarValue::I64(v) => Quote::new().i64(*v),
        ScalarValue::Vec2(v) => quote_constructor_call("Vec2", "new", quote_floats(v.as_slice())),
        ScalarValue::Vec3(v) => quote_constructor_call("Vec3", "new", quote_floats(v.as_slice())),
        ScalarValue::Vec4(v) => quote_constructor_call("Vec4", "new", quote_floats(v.as_slice())),
        ScalarValue::Uvec2(v) => quote_constructor_call("UVec2", "new", quote_u32s(v.as_slice())),
        ScalarValue::Uvec3(v) => quote_constructor_call("UVec3", "new", quote_u32s(v.as_slice())),
        ScalarValue::Uvec4(v) => quote_constructor_call("UVec4", "new", quote_u32s(v.as_slice())),
        ScalarValue::Ivec2(v) => quote_constructor_call("IVec2", "new", quote_i32s(v.as_slice())),
        ScalarValue::Ivec3(v) => quote_constructor_call("IVec3", "new", quote_i32s(v.as_slice())),
        ScalarValue::Ivec4(v) => quote_constructor_call("IVec4", "new", quote_i32s(v.as_slice())),
        ScalarValue::Duration(v) => {
            let arguments = Quote::new().u64(v.secs).punct(',').u32(v.nanos);
            quote_constructor_call("Duration", "new", arguments)
        },
        ScalarValue::ProceduralMeshHandle(_) => quote_unsupported(),
        ScalarValue::ProceduralTextureHandle(_) => quote_unsupported(),
        ScalarValue::ProceduralSamplerHandle(_) => quote_unsupported(),
        ScalarValue::ProceduralMaterialHandle(_) => quote_unsupported(),
    }
}

/// The expression of a scalar value, as a stream.
pub fn scalar_value_to_token_stream(v: &ScalarValue) -> (r: TokenStream)
    ensures
        stream_tokens(r) == scalar_tokens(*v),
        // No other value has this expression, unless the value is a handle.
        forall|other: ScalarValue|
            !is_handle(*v) && is_valid(other) && #[trigger] scalar_tokens(other) == stream_tokens(r)
                ==> same_scalar(*v, other),
{
    let quote = quote_scalar(v);
    proof {
        assert forall|other: ScalarValue|
            !is_handle(*v) && is_valid(other) && #[trigger] scalar_tokens(other)
                == quote@ implies same_scalar(*v, other) by {
            expressions_tell_scalars_apart(*v, other);
        }
    }
    quote.finish()
}

/// The expression of a value, as a stream.
pub fn value_to_token_stream(items: &ItemMap, value: &Value) -> (r: TokenStream)
    requires
        items.has_value(*value),
    ensures
        stream_tokens(r) == value_tokens(*items, *value),
{
    proof {
        words_are_identifiers();
        nothing_before();
    }
    let quote = match value {
        Value::Scalar(v) => quote_scalar(v),
        Value::Vec(v) => {
            let ghost tokens = v@.map_values(|part: ScalarValue| scalar_tokens(part));
            let mut inner = Quote::new();
            let mut i: usize = 0;
            while i < v.len()
                invariant
                    i <= v.len(),
                    tokens == v@.map_values(|part: ScalarValue| scalar_tokens(part)),
                    inner@ == comma_terminated(tokens.take(i as int)),
                decreases v.len() - i,
            {
                proof {
                    comma_terminated_step(tokens, i as int);
                }
                let part = scalar_value_to_token_stream(&v[i]);
                inner = inner.stream(&part).punct(',');
                i = i + 1;
            }
            assert(tokens.take(i as int) =~= tokens);
            Quote::new().ident("vec").punct('!').brackets(inner)
        },
        Value::Option(v) => match v {
            Some(v) => Quote::new().ident("Some").parens(quote_scalar(v)),
            None => Quote::new().ident("None"),
        },
        Value::Enum(id, member) => {
            let quote = match &items.types[id.0].inner {
                TypeInner::Enum(inner) => match inner.get_index_of(member) {
                    Some(index) => Quote::new().usize(index),
                    None => Quote::new(),
                },
                TypeInner::Other => Quote::new(),
            };
            quote
        },
    };
    quote.finish()
}

} // verus!

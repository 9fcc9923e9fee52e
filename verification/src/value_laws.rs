//! What the expressions of values say, and that different scalar values have different ones.
use crate::floats::{is_float, F32Literal};
use crate::items::{names_are_distinct, Identifier, ItemMap, ScalarValue, TypeId, Value};
use crate::text::{decimal, digit};
use crate::token_laws::{
    comes_apart, content, is_group, is_path_sign, is_unit, sign, terminated_lists_come_apart,
    with_commas, word,
};
use crate::tokens::{
    bool_token, comma_terminated, integer_tokens, string_literal, Delimiter, Template, Token,
};
use crate::values::{
    float_arguments, i32_arguments, scalar_tokens, u32_arguments, value_tokens,
};
use vstd::prelude::*;

verus! {

/// Whether all are numbers of type `f32`.
pub open spec fn are_floats(parts: Seq<F32Literal>) -> bool {
    forall|i: int| 0 <= i < parts.len() ==> is_float((#[trigger] parts[i])@, "f32"@)
}

/// Whether the floating-point numbers of a value are numbers of their types.
pub open spec fn is_valid(value: ScalarValue) -> bool {
    match value {
        ScalarValue::F32(v) => is_float(v@, "f32"@),
        ScalarValue::F64(v) => is_float(v@, "f64"@),
        ScalarValue::Mat4(v) => are_floats(v@),
        ScalarValue::Quat(v) => are_floats(v@),
        ScalarValue::Vec2(v) => are_floats(v@),
        ScalarValue::Vec3(v) => are_floats(v@),
        ScalarValue::Vec4(v) => are_floats(v@),
        _ => true,
    }
}

/// Whether a value is a handle, which code can not write.
pub open spec fn is_handle(value: ScalarValue) -> bool {
    match value {
        ScalarValue::ProceduralMeshHandle(_) => true,
        ScalarValue::ProceduralTextureHandle(_) => true,
        ScalarValue::ProceduralSamplerHandle(_) => true,
        ScalarValue::ProceduralMaterialHandle(_) => true,
        _ => false,
    }
}

/// The literals of numbers.
pub open spec fn literals(parts: Seq<F32Literal>) -> Seq<Seq<Token>> {
    parts.map_values(|part: F32Literal| part@)
}

/// Whether two values, neither of them a handle, are the same: they have the same type and the
/// same contents, floating-point numbers by their literals.
pub open spec fn same_scalar(a: ScalarValue, b: ScalarValue) -> bool {
    match (a, b) {
        (ScalarValue::Empty(_), ScalarValue::Empty(_)) => true,
        (ScalarValue::Bool(v), ScalarValue::Bool(w)) => v == w,
        (ScalarValue::EntityId(v), ScalarValue::EntityId(w)) => v == w,
        (ScalarValue::F32(v), ScalarValue::F32(w)) => v@ == w@,
        (ScalarValue::F64(v), ScalarValue::F64(w)) => v@ == w@,
        (ScalarValue::Mat4(v), ScalarValue::Mat4(w)) => literals(v@) == literals(w@),
        (ScalarValue::Quat(v), ScalarValue::Quat(w)) => literals(v@) == literals(w@),
        (ScalarValue::String(v), ScalarValue::String(w)) => v@ == w@,
        (ScalarValue::U8(v), ScalarValue::U8(w)) => v == w,
        (ScalarValue::U16(v), ScalarValue::U16(w)) => v == w,
        (ScalarValue::U32(v), ScalarValue::U32(w)) => v == w,
        (ScalarValue::U64(v), ScalarValue::U64(w)) => v == w,
        (ScalarValue::I8(v), ScalarValue::I8(w)) => v == w,
        (ScalarValue::I16(v), ScalarValue::I16(w)) => v == w,
        (ScalarValue::I32(v), ScalarValue::I32(w)) => v == w,
        (ScalarValue::I64(v), ScalarValue::I64(w)) => v == w,
        (ScalarValue::Vec2(v), ScalarValue::Vec2(w)) => literals(v@) == literals(w@),
        (ScalarValue::Vec3(v), ScalarValue::Vec3(w)) => literals(v@) == literals(w@),
        (ScalarValue::Vec4(v), ScalarValue::Vec4(w)) => literals(v@) == literals(w@),
        (ScalarValue::Uvec2(v), ScalarValue::Uvec2(w)) => v@ == w@,
        (ScalarValue::Uvec3(v), ScalarValue::Uvec3(w)) => v@ == w@,
        (ScalarValue::Uvec4(v), ScalarValue::Uvec4(w)) => v@ == w@,
        (ScalarValue::Ivec2(v), ScalarValue::Ivec2(w)) => v@ == w@,
        (ScalarValue::Ivec3(v), ScalarValue::Ivec3(w)) => v@ == w@,
        (ScalarValue::Ivec4(v), ScalarValue::Ivec4(w)) => v@ == w@,
        (ScalarValue::Duration(v), ScalarValue::Duration(w)) => v == w,
        _ => false,
    }
}

/// Whether two values are strings with the same literal.
pub open spec fn same_literal(a: ScalarValue, b: ScalarValue) -> bool {
    match (a, b) {
        (ScalarValue::String(v), ScalarValue::String(w)) => string_literal(v@) == string_literal(
            w@,
        ),
        _ => false,
    }
}

/// The expression of a value tells which value it is: where the expressions of two values are the
/// same, so are the values, strings as far as their literals go. Handles are left out, since they
/// all have the same expression.
pub proof fn expressions_tell_scalars_apart(a: ScalarValue, b: ScalarValue)
    requires
        is_valid(a),
        is_valid(b),
        !is_handle(a),
    ensures
        scalar_tokens(a) == scalar_tokens(b) <==> same_scalar(a, b) || same_literal(a, b),
{
    if scalar_tokens(a) == scalar_tokens(b) {
        expression_has_kind(a);
        expression_has_kind(b);
        same_kind_same_scalar(a, b);
    }
    if same_scalar(a, b) || same_literal(a, b) {
        same_scalars_same_expressions(a, b);
    }
}

// -------------------------------------------------------------------------------------------
// What an expression says

/// Whether tokens are an integer with a suffix: its numeral, and for a negative integer a minus sign
/// before the numeral of the opposite.
pub open spec fn writes_integer(tokens: Seq<Token>, value: int, suffix: &str) -> bool {
    if value >= 0 {
        &&& tokens.len() == 1
        &&& tokens[0] == Token::Literal(decimal(value as nat) + suffix@)
    } else {
        &&& tokens.len() == 2
        &&& tokens[0] == sign('-')
        &&& tokens[1] == Token::Literal(decimal((0 - value) as nat) + suffix@)
    }
}

/// Whether tokens are integers in order, each with a comma behind it and nothing else.
pub open spec fn writes_integers(tokens: Seq<Token>, values: Seq<int>, suffix: &str) -> bool {
    exists|parts: Seq<Seq<Token>>|
        {
            &&& #[trigger] comes_apart(tokens, with_commas(parts))
            &&& parts.len() == values.len()
            &&& forall|i: int|
                0 <= i < values.len() ==> writes_integer(#[trigger] parts[i], values[i], suffix)
        }
}

/// Whether tokens are floating-point numbers in order, each with a comma behind it and nothing else.
pub open spec fn writes_floats(tokens: Seq<Token>, values: Seq<F32Literal>) -> bool {
    comes_apart(tokens, with_commas(Seq::new(values.len(), |i: int| values[i]@)))
}

/// Whether tokens are `Type::constructor(...)`; the arguments stand in the last of them.
pub open spec fn constructs(tokens: Seq<Token>, ty: &str, constructor: &str) -> bool {
    &&& tokens.len() == 5
    &&& tokens[0] == word(ty)
    &&& is_path_sign(tokens, 1)
    &&& tokens[3] == word(constructor)
    &&& is_group(tokens[4], Delimiter::Parenthesis)
}

/// Whether tokens are `Type::new(...)` with floating-point numbers.
pub open spec fn constructs_floats(
    tokens: Seq<Token>,
    ty: &str,
    values: Seq<F32Literal>,
) -> bool {
    constructs(tokens, ty, "new") && writes_floats(content(tokens[4]), values)
}

/// Whether tokens are `Type::new(...)` with integers of type `u32`.
pub open spec fn constructs_u32s(tokens: Seq<Token>, ty: &str, values: Seq<u32>) -> bool {
    constructs(tokens, ty, "new") && writes_integers(
        content(tokens[4]),
        Seq::new(values.len(), |i: int| values[i] as int),
        "u32",
    )
}

/// Whether tokens are `Type::new(...)` with integers of type `i32`.
pub open spec fn constructs_i32s(tokens: Seq<Token>, ty: &str, values: Seq<i32>) -> bool {
    constructs(tokens, ty, "new") && writes_integers(
        content(tokens[4]),
        Seq::new(values.len(), |i: int| values[i] as int),
        "i32",
    )
}

/// Whether tokens are an expression for a scalar value.
pub open spec fn writes_scalar(tokens: Seq<Token>, value: ScalarValue) -> bool {
    match value {
        ScalarValue::Empty(_) => tokens.len() == 1 && is_unit(tokens[0]),
        ScalarValue::Bool(v) => tokens.len() == 1 && tokens[0] == if v {
            word("true")
        } else {
            word("false")
        },
        ScalarValue::EntityId(v) => {
            &&& tokens.len() == 2
            &&& tokens[0] == word("EntityId")
            &&& is_group(tokens[1], Delimiter::Parenthesis)
            &&& writes_integer(content(tokens[1]), v as int, "u128")
        },
        ScalarValue::F32(v) => tokens == v@,
        ScalarValue::F64(v) => tokens == v@,
        ScalarValue::Mat4(v) => {
            let arguments = content(tokens[4]);
            &&& constructs(tokens, "Mat4", "from_cols_array")
            &&& arguments.len() == 2
            &&& arguments[0] == sign('&')
            &&& is_group(arguments[1], Delimiter::Bracket)
            &&& writes_floats(content(arguments[1]), v@)
        },
        ScalarValue::Quat(v) => constructs(tokens, "Quat", "from_xyzw") && writes_floats(
            content(tokens[4]),
            v@,
        ),
        ScalarValue::String(v) => {
            &&& tokens.len() == 4
            &&& tokens[0] == Token::Literal(string_literal(v@))
            &&& tokens[1] == sign('.')
            &&& tokens[2] == word("to_string")
            &&& is_unit(tokens[3])
        },
        ScalarValue::U8(v) => writes_integer(tokens, v as int, "u8"),
        ScalarValue::U16(v) => writes_integer(tokens, v as int, "u16"),
        ScalarValue::U32(v) => writes_integer(tokens, v as int, "u32"),
        ScalarValue::U64(v) => writes_integer(tokens, v as int, "u64"),
        ScalarValue::I8(v) => writes_integer(tokens, v as int, "i8"),
        ScalarValue::I16(v) => writes_integer(tokens, v as int, "i16"),
        ScalarValue::I32(v) => writes_integer(tokens, v as int, "i32"),
        ScalarValue::I64(v) => writes_integer(tokens, v as int, "i64"),
        ScalarValue::Vec2(v) => constructs_floats(tokens, "Vec2", v@),
        ScalarValue::Vec3(v) => constructs_floats(tokens, "Vec3", v@),
        ScalarValue::Vec4(v) => constructs_floats(tokens, "Vec4", v@),
        ScalarValue::Uvec2(v) => constructs_u32s(tokens, "UVec2", v@),
        ScalarValue::Uvec3(v) => constructs_u32s(tokens, "UVec3", v@),
        ScalarValue::Uvec4(v) => constructs_u32s(tokens, "UVec4", v@),
        ScalarValue::Ivec2(v) => constructs_i32s(tokens, "IVec2", v@),
        ScalarValue::Ivec3(v) => constructs_i32s(tokens, "IVec3", v@),
        ScalarValue::Ivec4(v) => constructs_i32s(tokens, "IVec4", v@),
        ScalarValue::Duration(v) => {
            let arguments = content(tokens[4]);
            &&& constructs(tokens, "Duration", "new")
            &&& arguments.len() == 3
            &&& arguments[0] == Token::Literal(decimal(v.secs as nat) + "u64"@)
            &&& arguments[1] == sign(',')
            &&& arguments[2] == Token::Literal(decimal(v.nanos as nat) + "u32"@)
        },
        _ => {
            &&& tokens.len() == 3
            &&& tokens[0] == word("unsupported")
            &&& tokens[1] == sign('!')
            &&& is_unit(tokens[2])
        },
    }
}

/// The tokens of an integer are its sign and its numeral.
proof fn integers_are_written(value: int, suffix: &str)
    ensures
        writes_integer(integer_tokens(value, suffix), value, suffix),
{
}

/// The arguments of a constructor are all the numbers, in order.
proof fn floats_are_written(values: Seq<F32Literal>)
    ensures
        writes_floats(float_arguments(values), values),
{
    let parts = values.map_values(|part: F32Literal| part@);
    terminated_lists_come_apart(parts);
    assert(parts =~= Seq::new(values.len(), |i: int| values[i]@));
}

/// The arguments of a constructor are all the numbers, in order.
proof fn u32s_are_written(values: Seq<u32>)
    ensures
        writes_integers(
            u32_arguments(values),
            Seq::new(values.len(), |i: int| values[i] as int),
            "u32",
        ),
{
    let parts = values.map_values(|part: u32| integer_tokens(part as int, "u32"));
    terminated_lists_come_apart(parts);
    assert(comes_apart(u32_arguments(values), with_commas(parts)));
}

/// The arguments of a constructor are all the numbers, in order.
proof fn i32s_are_written(values: Seq<i32>)
    ensures
        writes_integers(
            i32_arguments(values),
            Seq::new(values.len(), |i: int| values[i] as int),
            "i32",
        ),
{
    let parts = values.map_values(|part: i32| integer_tokens(part as int, "i32"));
    terminated_lists_come_apart(parts);
    assert(comes_apart(i32_arguments(values), with_commas(parts)));
}

/// The expression of a scalar value writes that value: its type, and what it holds, in order.
pub proof fn scalars_are_written(value: ScalarValue)
    ensures
        writes_scalar(scalar_tokens(value), value),
{
    match value {
        ScalarValue::Mat4(v) => floats_are_written(v@),
        ScalarValue::Quat(v) => floats_are_written(v@),
        ScalarValue::Vec2(v) => floats_are_written(v@),
        ScalarValue::Vec3(v) => floats_are_written(v@),
        ScalarValue::Vec4(v) => floats_are_written(v@),
        ScalarValue::Uvec2(v) => u32s_are_written(v@),
        ScalarValue::Uvec3(v) => u32s_are_written(v@),
        ScalarValue::Uvec4(v) => u32s_are_written(v@),
        ScalarValue::Ivec2(v) => i32s_are_written(v@),
        ScalarValue::Ivec3(v) => i32s_are_written(v@),
        ScalarValue::Ivec4(v) => i32s_are_written(v@),
        _ => {},
    }
}

/// A value that is one scalar is written as that scalar.
pub proof fn single_values_are_written(items: ItemMap, value: ScalarValue)
    ensures
        value_tokens(items, Value::Scalar(value)) == scalar_tokens(value),
{
}

/// A list of scalars is written as `vec![...]` with the expression of every scalar in order, each
/// with a comma behind it and nothing else.
pub proof fn lists_are_written(items: ItemMap, values: Vec<ScalarValue>)
    ensures
        ({
            let tokens = value_tokens(items, Value::Vec(values));
            &&& tokens.len() == 3
            &&& tokens[0] == word("vec")
            &&& tokens[1] == sign('!')
            &&& is_group(tokens[2], Delimiter::Bracket)
            &&& comes_apart(
                content(tokens[2]),
                with_commas(Seq::new(values@.len(), |i: int| scalar_tokens(values@[i]))),
            )
        }),
{
    let parts = values@.map_values(|part: ScalarValue| scalar_tokens(part));
    terminated_lists_come_apart(parts);
    assert(parts =~= Seq::new(values@.len(), |i: int| scalar_tokens(values@[i])));
}

/// An optional scalar is written as `None`, or as `Some(...)` with the expression of the scalar.
pub proof fn options_are_written(items: ItemMap, value: Option<ScalarValue>)
    ensures
        ({
            let tokens = value_tokens(items, Value::Option(value));
            match value {
                Some(scalar) => {
                    &&& tokens.len() == 2
                    &&& tokens[0] == word("Some")
                    &&& is_group(tokens[1], Delimiter::Parenthesis)
                    &&& content(tokens[1]) == scalar_tokens(scalar)
                },
                None => tokens.len() == 1 && tokens[0] == word("None"),
            }
        }),
{
}

/// The member that stands at place `i` of an enum type, counted from the first, is written as the
/// numeral of `i` with the suffix `usize`. Types are counted from the first, too.
pub proof fn members_are_written_as_their_places(
    items: ItemMap,
    id: TypeId,
    member: Identifier,
    i: int,
)
    requires
        id.0 < items.types@.len(),
        items.types@[id.0 as int].inner is Enum,
        names_are_distinct(items.types@[id.0 as int].inner->Enum_0.members@),
        0 <= i < items.types@[id.0 as int].inner->Enum_0.members@.len(),
        items.types@[id.0 as int].inner->Enum_0.members@[i].name@ == member@,
    ensures
        value_tokens(items, Value::Enum(id, member)).len() == 1,
        value_tokens(items, Value::Enum(id, member))[0] == Token::Literal(
            decimal(i as nat) + "usize"@,
        ),
{
    let members = items.types@[id.0 as int].inner->Enum_0.members@;
    let names = items.enum_type(id).names();
    assert(names.len() == members.len());
    assert(names[i] == member@);
    assert(names.contains(member@));
    names.index_of_first_ensures(member@);
    let found = names.index_of_first(member@)->0;
    assert(members[found].name@ == members[i].name@);
}

// -------------------------------------------------------------------------------------------
// The type of a value, read off its expression

/// The number of a type, by the letter and the last digit of its suffix.
spec fn number_kind(letter: char, digit: char) -> int {
    letter as int * 256 + digit as int
}

/// The number of a type that is built by a constructor, by the length and the ends of its name.
spec fn name_kind(length: int, first: char, last: char) -> int {
    1_000_000 * length + 1_000 * first as int + last as int
}

/// The number of the type of a value.
spec fn kind(value: ScalarValue) -> int {
    match value {
        ScalarValue::Empty(_) => 1,
        ScalarValue::Bool(_) => 2,
        ScalarValue::EntityId(_) => 3,
        ScalarValue::String(_) => 4,
        ScalarValue::F32(_) => number_kind('f', '2'),
        ScalarValue::F64(_) => number_kind('f', '4'),
        ScalarValue::U8(_) => number_kind('u', '8'),
        ScalarValue::U16(_) => number_kind('u', '6'),
        ScalarValue::U32(_) => number_kind('u', '2'),
        ScalarValue::U64(_) => number_kind('u', '4'),
        ScalarValue::I8(_) => number_kind('i', '8'),
        ScalarValue::I16(_) => number_kind('i', '6'),
        ScalarValue::I32(_) => number_kind('i', '2'),
        ScalarValue::I64(_) => number_kind('i', '4'),
        ScalarValue::Mat4(_) => name_kind(4, 'M', '4'),
        ScalarValue::Quat(_) => name_kind(4, 'Q', 't'),
        ScalarValue::Vec2(_) => name_kind(4, 'V', '2'),
        ScalarValue::Vec3(_) => name_kind(4, 'V', '3'),
        ScalarValue::Vec4(_) => name_kind(4, 'V', '4'),
        ScalarValue::Uvec2(_) => name_kind(5, 'U', '2'),
        ScalarValue::Uvec3(_) => name_kind(5, 'U', '3'),
        ScalarValue::Uvec4(_) => name_kind(5, 'U', '4'),
        ScalarValue::Ivec2(_) => name_kind(5, 'I', '2'),
        ScalarValue::Ivec3(_) => name_kind(5, 'I', '3'),
        ScalarValue::Ivec4(_) => name_kind(5, 'I', '4'),
        ScalarValue::Duration(_) => name_kind(8, 'D', 'n'),
        _ => 5,
    }
}

/// The number of the type of a numeral with a suffix.
spec fn kind_of_text(text: Seq<char>) -> int {
    let last = text[text.len() - 1];
    if last == '8' {
        number_kind(text[text.len() - 2], last)
    } else {
        number_kind(text[text.len() - 3], last)
    }
}

/// The number of the type that an expression is of.
spec fn kind_of_tokens(tokens: Seq<Token>) -> int {
    if tokens.len() == 1 {
        match tokens[0] {
            Token::Group(..) => 1,
            Token::Ident(_) => 2,
            Token::Literal(text) => kind_of_text(text),
            Token::Punct(..) => 0,
        }
    } else if tokens.len() == 2 {
        match tokens[0] {
            Token::Ident(_) => 3,
            _ => kind_of_text(tokens[1]->Literal_0),
        }
    } else if tokens.len() == 4 {
        4
    } else if tokens.len() == 5 {
        let name = tokens[0]->Ident_0;
        name_kind(name.len() as int, name[0], name[name.len() - 1])
    } else {
        5
    }
}

/// The suffix of an integer tells its type.
proof fn integer_has_kind(value: int, suffix: &str, letter: char, digit: char)
    requires
        suffix@.len() == 2 || suffix@.len() == 3,
        suffix@[0] == letter,
        suffix@.last() == digit,
        digit == '8' <==> suffix@.len() == 2,
    ensures
        kind_of_tokens(integer_tokens(value, suffix)) == number_kind(letter, digit),
{
    let number = decimal(if value < 0 { (-value) as nat } else { value as nat });
    let text = number + suffix@;
    assert(text[text.len() - 1] == suffix@.last());
    assert(text[text.len() - suffix@.len()] == suffix@[0]);
}

/// The suffix of a floating-point number tells its type.
proof fn float_has_kind(tokens: Seq<Token>, suffix: &str, letter: char, digit: char)
    requires
        is_float(tokens, suffix@),
        suffix@.len() == 3,
        suffix@[0] == letter,
        suffix@.last() == digit,
        digit != '8',
    ensures
        kind_of_tokens(tokens) == number_kind(letter, digit),
{
    let text = if tokens.len() == 1 { tokens[0]->Literal_0 } else { tokens[1]->Literal_0 };
    let end = text.skip(text.len() - 3);
    assert(end[0] == text[text.len() - 3]);
    assert(end[2] == text[text.len() - 1]);
}

/// The expression of a value tells its type.
proof fn expression_has_kind(value: ScalarValue)
    requires
        is_valid(value),
    ensures
        kind_of_tokens(scalar_tokens(value)) == kind(value),
{
    match value {
        ScalarValue::F32(v) => {
            reveal_strlit("f32");
            float_has_kind(v@, "f32", 'f', '2');
        },
        ScalarValue::F64(v) => {
            reveal_strlit("f64");
            float_has_kind(v@, "f64", 'f', '4');
        },
        ScalarValue::U8(v) => {
            reveal_strlit("u8");
            integer_has_kind(v as int, "u8", 'u', '8');
        },
        ScalarValue::U16(v) => {
            reveal_strlit("u16");
            integer_has_kind(v as int, "u16", 'u', '6');
        },
        ScalarValue::U32(v) => {
            reveal_strlit("u32");
            integer_has_kind(v as int, "u32", 'u', '2');
        },
        ScalarValue::U64(v) => {
            reveal_strlit("u64");
            integer_has_kind(v as int, "u64", 'u', '4');
        },
        ScalarValue::I8(v) => {
            reveal_strlit("i8");
            integer_has_kind(v as int, "i8", 'i', '8');
        },
        ScalarValue::I16(v) => {
            reveal_strlit("i16");
            integer_has_kind(v as int, "i16", 'i', '6');
        },
        ScalarValue::I32(v) => {
            reveal_strlit("i32");
            integer_has_kind(v as int, "i32", 'i', '2');
        },
        ScalarValue::I64(v) => {
            reveal_strlit("i64");
            integer_has_kind(v as int, "i64", 'i', '4');
        },
        ScalarValue::Mat4(_) => reveal_strlit("Mat4"),
        ScalarValue::Quat(_) => reveal_strlit("Quat"),
        ScalarValue::Vec2(_) => reveal_strlit("Vec2"),
        ScalarValue::Vec3(_) => reveal_strlit("Vec3"),
        ScalarValue::Vec4(_) => reveal_strlit("Vec4"),
        ScalarValue::Uvec2(_) => reveal_strlit("UVec2"),
        ScalarValue::Uvec3(_) => reveal_strlit("UVec3"),
        ScalarValue::Uvec4(_) => reveal_strlit("UVec4"),
        ScalarValue::Ivec2(_) => reveal_strlit("IVec2"),
        ScalarValue::Ivec3(_) => reveal_strlit("IVec3"),
        ScalarValue::Ivec4(_) => reveal_strlit("IVec4"),
        ScalarValue::Duration(_) => reveal_strlit("Duration"),
        _ => {},
    }
}

// -------------------------------------------------------------------------------------------
// The contents of a value, read off its expression

/// Different numbers have different numerals.
proof fn numerals_tell_numbers_apart(m: nat, n: nat)
    requires
        decimal(m) == decimal(n),
    ensures
        m == n,
    decreases m,
{
    assert(decimal(m).last() == digit(m % 10));
    assert(decimal(n).last() == digit(n % 10));
    assert(digit(m % 10) as int == 48 + m % 10);
    assert(digit(n % 10) as int == 48 + n % 10);
    if m >= 10 && n >= 10 {
        assert(decimal(m).drop_last() =~= decimal(m / 10));
        assert(decimal(n).drop_last() =~= decimal(n / 10));
        numerals_tell_numbers_apart(m / 10, n / 10);
    } else if m >= 10 {
        assert(decimal(m / 10).len() > 0);
    } else if n >= 10 {
        assert(decimal(n / 10).len() > 0);
    }
}

/// Different integers of a type have different tokens.
proof fn tokens_tell_integers_apart(a: int, b: int, suffix: &str)
    requires
        integer_tokens(a, suffix) == integer_tokens(b, suffix),
    ensures
        a == b,
{
    let m = if a < 0 { (-a) as nat } else { a as nat };
    let n = if b < 0 { (-b) as nat } else { b as nat };
    let s = integer_tokens(a, suffix);
    let t = integer_tokens(b, suffix);
    assert(s.len() == t.len());
    assert(s.last() == Token::Literal(decimal(m) + suffix@));
    assert(t.last() == Token::Literal(decimal(n) + suffix@));
    let text = decimal(m) + suffix@;
    assert(text == decimal(n) + suffix@);
    assert(text.take(text.len() - suffix@.len()) =~= decimal(m));
    assert(text.take(text.len() - suffix@.len()) =~= decimal(n));
    numerals_tell_numbers_apart(m, n);
}

/// Whether the tokens are a literal, or a minus sign and a literal.
spec fn is_number(tokens: Seq<Token>) -> bool {
    ||| tokens.len() == 1 && tokens[0] is Literal
    ||| tokens.len() == 2 && tokens[0] == Token::Punct('-', false) && tokens[1] is Literal
}

/// Numbers with commas behind them tell which numbers they are.
proof fn lists_tell_numbers_apart(p: Seq<Seq<Token>>, q: Seq<Seq<Token>>)
    requires
        forall|i: int| 0 <= i < p.len() ==> is_number(#[trigger] p[i]),
        forall|i: int| 0 <= i < q.len() ==> is_number(#[trigger] q[i]),
        comma_terminated(p) == comma_terminated(q),
    ensures
        p == q,
    decreases p.len(),
{
    let list = comma_terminated(p);
    ends_with_comma(p);
    ends_with_comma(q);
    if p.len() == 0 || q.len() == 0 {
        assert(p.len() == 0 && q.len() == 0);
        assert(p =~= q);
    } else {
        let (rest_p, x) = (p.drop_last(), p.last());
        let (rest_q, y) = (q.drop_last(), q.last());
        assert(is_number(p[p.len() - 1]) && is_number(q[q.len() - 1]));
        let before_p = comma_terminated(rest_p);
        let before_q = comma_terminated(rest_q);
        assert(list == before_p.tokens(x).punct(','));
        assert(list == before_q.tokens(y).punct(','));
        let n = list.len();
        assert(list[n - 2] == x.last() && list[n - 2] == y.last());
        ends_with_comma(rest_p);
        ends_with_comma(rest_q);
        // Before the literal stands a minus sign, a comma or nothing.
        if x.len() == 2 {
            assert(list[n - 3] == Token::Punct('-', false));
            if y.len() == 1 && before_q.len() > 0 {
                assert(list[n - 3] == before_q.last());
            }
        }
        if y.len() == 2 {
            assert(list[n - 3] == Token::Punct('-', false));
            if x.len() == 1 && before_p.len() > 0 {
                assert(list[n - 3] == before_p.last());
            }
        }
        assert(x.len() == y.len());
        assert(x =~= y);
        assert(before_p =~= list.take(n - 1 - x.len()));
        assert(before_q =~= list.take(n - 1 - x.len()));
        assert forall|i: int| 0 <= i < rest_p.len() implies is_number(#[trigger] rest_p[i]) by {
            assert(rest_p[i] == p[i]);
        }
        assert forall|i: int| 0 <= i < rest_q.len() implies is_number(#[trigger] rest_q[i]) by {
            assert(rest_q[i] == q[i]);
        }
        lists_tell_numbers_apart(rest_p, rest_q);
        assert(p =~= rest_p.push(x));
        assert(q =~= rest_q.push(y));
    }
}

/// Parts with commas behind them end with a comma, if there are any.
proof fn ends_with_comma(parts: Seq<Seq<Token>>)
    ensures
        comma_terminated(parts).len() == 0 <==> parts.len() == 0,
        parts.len() > 0 ==> comma_terminated(parts).last() == Token::Punct(',', false),
{
}

/// Lists of floating-point numbers tell which they are.
proof fn lists_tell_floats_apart(a: Seq<F32Literal>, b: Seq<F32Literal>)
    requires
        are_floats(a),
        are_floats(b),
        float_arguments(a) == float_arguments(b),
    ensures
        literals(a) == literals(b),
{
    let (p, q) = (literals(a), literals(b));
    assert forall|i: int| 0 <= i < p.len() implies is_number(#[trigger] p[i]) by {
        assert(p[i] == a[i]@);
    }
    assert forall|i: int| 0 <= i < q.len() implies is_number(#[trigger] q[i]) by {
        assert(q[i] == b[i]@);
    }
    lists_tell_numbers_apart(p, q);
}

/// Lists of integers of type `u32` tell which they are.
proof fn lists_tell_u32s_apart(a: Seq<u32>, b: Seq<u32>)
    requires
        u32_arguments(a) == u32_arguments(b),
    ensures
        a == b,
{
    let p = a.map_values(|part: u32| integer_tokens(part as int, "u32"));
    let q = b.map_values(|part: u32| integer_tokens(part as int, "u32"));
    lists_tell_numbers_apart(p, q);
    assert(a.len() == p.len() && b.len() == q.len());
    assert forall|i: int| 0 <= i < a.len() implies a[i] == b[i] by {
        assert(p[i] == q[i]);
        tokens_tell_integers_apart(a[i] as int, b[i] as int, "u32");
    }
    assert(a =~= b);
}

/// Lists of integers of type `i32` tell which they are.
proof fn lists_tell_i32s_apart(a: Seq<i32>, b: Seq<i32>)
    requires
        i32_arguments(a) == i32_arguments(b),
    ensures
        a == b,
{
    let p = a.map_values(|part: i32| integer_tokens(part as int, "i32"));
    let q = b.map_values(|part: i32| integer_tokens(part as int, "i32"));
    lists_tell_numbers_apart(p, q);
    assert(a.len() == p.len() && b.len() == q.len());
    assert forall|i: int| 0 <= i < a.len() implies a[i] == b[i] by {
        assert(p[i] == q[i]);
        tokens_tell_integers_apart(a[i] as int, b[i] as int, "i32");
    }
    assert(a =~= b);
}

/// Two values of one type with the same expression are the same.
proof fn same_kind_same_scalar(a: ScalarValue, b: ScalarValue)
    requires
        is_valid(a),
        is_valid(b),
        !is_handle(a),
        kind(a) == kind(b),
        scalar_tokens(a) == scalar_tokens(b),
    ensures
        same_scalar(a, b) || same_literal(a, b),
{
    let (s, t) = (scalar_tokens(a), scalar_tokens(b));
    match (a, b) {
        (ScalarValue::Bool(v), ScalarValue::Bool(w)) => {
            reveal_strlit("true");
            reveal_strlit("false");
            assert("true"@.len() != "false"@.len());
            assert(s[0] == bool_token(v) && t[0] == bool_token(w));
        },
        (ScalarValue::EntityId(v), ScalarValue::EntityId(w)) => {
            assert(s[1]->Group_1 == integer_tokens(v as int, "u128"));
            assert(t[1]->Group_1 == integer_tokens(w as int, "u128"));
            tokens_tell_integers_apart(v as int, w as int, "u128");
        },
        (ScalarValue::Mat4(v), ScalarValue::Mat4(w)) => {
            assert(s[4]->Group_1[1]->Group_1 == float_arguments(v@));
            assert(t[4]->Group_1[1]->Group_1 == float_arguments(w@));
            lists_tell_floats_apart(v@, w@);
        },
        (ScalarValue::Quat(v), ScalarValue::Quat(w)) => {
            assert(s[4]->Group_1 == float_arguments(v@));
            assert(t[4]->Group_1 == float_arguments(w@));
            lists_tell_floats_apart(v@, w@);
        },
        (ScalarValue::String(v), ScalarValue::String(w)) => {
            assert(s[0] == Token::Literal(string_literal(v@)));
            assert(t[0] == Token::Literal(string_literal(w@)));
        },
        (ScalarValue::U8(v), ScalarValue::U8(w)) => {
            tokens_tell_integers_apart(v as int, w as int, "u8");
        },
        (ScalarValue::U16(v), ScalarValue::U16(w)) => {
            tokens_tell_integers_apart(v as int, w as int, "u16");
        },
        (ScalarValue::U32(v), ScalarValue::U32(w)) => {
            tokens_tell_integers_apart(v as int, w as int, "u32");
        },
        (ScalarValue::U64(v), ScalarValue::U64(w)) => {
            tokens_tell_integers_apart(v as int, w as int, "u64");
        },
        (ScalarValue::I8(v), ScalarValue::I8(w)) => {
            tokens_tell_integers_apart(v as int, w as int, "i8");
        },
        (ScalarValue::I16(v), ScalarValue::I16(w)) => {
            tokens_tell_integers_apart(v as int, w as int, "i16");
        },
        (ScalarValue::I32(v), ScalarValue::I32(w)) => {
            tokens_tell_integers_apart(v as int, w as int, "i32");
        },
        (ScalarValue::I64(v), ScalarValue::I64(w)) => {
            tokens_tell_integers_apart(v as int, w as int, "i64");
        },
        (ScalarValue::Vec2(v), ScalarValue::Vec2(w)) => {
            assert(s[4]->Group_1 == float_arguments(v@));
            assert(t[4]->Group_1 == float_arguments(w@));
            lists_tell_floats_apart(v@, w@);
        },
        (ScalarValue::Vec3(v), ScalarValue::Vec3(w)) => {
            assert(s[4]->Group_1 == float_arguments(v@));
            assert(t[4]->Group_1 == float_arguments(w@));
            lists_tell_floats_apart(v@, w@);
        },
        (ScalarValue::Vec4(v), ScalarValue::Vec4(w)) => {
            assert(s[4]->Group_1 == float_arguments(v@));
            assert(t[4]->Group_1 == float_arguments(w@));
            lists_tell_floats_apart(v@, w@);
        },
        (ScalarValue::Uvec2(v), ScalarValue::Uvec2(w)) => {
            assert(s[4]->Group_1 == u32_arguments(v@));
            assert(t[4]->Group_1 == u32_arguments(w@));
            lists_tell_u32s_apart(v@, w@);
        },
        (ScalarValue::Uvec3(v), ScalarValue::Uvec3(w)) => {
            assert(s[4]->Group_1 == u32_arguments(v@));
            assert(t[4]->Group_1 == u32_arguments(w@));
            lists_tell_u32s_apart(v@, w@);
        },
        (ScalarValue::Uvec4(v), ScalarValue::Uvec4(w)) => {
            assert(s[4]->Group_1 == u32_arguments(v@));
            assert(t[4]->Group_1 == u32_arguments(w@));
            lists_tell_u32s_apart(v@, w@);
        },
        (ScalarValue::Ivec2(v), ScalarValue::Ivec2(w)) => {
            assert(s[4]->Group_1 == i32_arguments(v@));
            assert(t[4]->Group_1 == i32_arguments(w@));
            lists_tell_i32s_apart(v@, w@);
        },
        (ScalarValue::Ivec3(v), ScalarValue::Ivec3(w)) => {
            assert(s[4]->Group_1 == i32_arguments(v@));
            assert(t[4]->Group_1 == i32_arguments(w@));
            lists_tell_i32s_apart(v@, w@);
        },
        (ScalarValue::Ivec4(v), ScalarValue::Ivec4(w)) => {
            assert(s[4]->Group_1 == i32_arguments(v@));
            assert(t[4]->Group_1 == i32_arguments(w@));
            lists_tell_i32s_apart(v@, w@);
        },
        (ScalarValue::Duration(v), ScalarValue::Duration(w)) => {
            let p = integer_tokens(v.secs as int, "u64").punct(',').tokens(
                integer_tokens(v.nanos as int, "u32"),
            );
            let q = integer_tokens(w.secs as int, "u64").punct(',').tokens(
                integer_tokens(w.nanos as int, "u32"),
            );
            assert(s[4]->Group_1 == p);
            assert(t[4]->Group_1 == q);
            assert(p[0] == q[0] && p[2] == q[2]);
            assert(integer_tokens(v.secs as int, "u64") =~= integer_tokens(w.secs as int, "u64"));
            assert(integer_tokens(v.nanos as int, "u32") =~= integer_tokens(w.nanos as int, "u32"));
            tokens_tell_integers_apart(v.secs as int, w.secs as int, "u64");
            tokens_tell_integers_apart(v.nanos as int, w.nanos as int, "u32");
        },
        _ => {},
    }
}

/// Values that are the same have the same expression.
proof fn same_scalars_same_expressions(a: ScalarValue, b: ScalarValue)
    requires
        same_scalar(a, b) || same_literal(a, b),
    ensures
        scalar_tokens(a) == scalar_tokens(b),
{
}

} // verus!

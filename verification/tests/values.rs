use ambient_runtime::floats::{F32Literal, F64Literal};
use ambient_runtime::items::{
    Duration, Enum, EnumMember, EnumMembers, Identifier, ItemMap, ScalarValue, Type, TypeInner,
    Value,
};
use ambient_runtime::values::{scalar_value_to_token_stream, value_to_token_stream};
use quote::ToTokens;

fn float(value: f32) -> F32Literal {
    F32Literal::new(value.to_token_stream()).unwrap()
}

fn double(value: f64) -> F64Literal {
    F64Literal::new(value.to_token_stream()).unwrap()
}

fn floats<const N: usize>(values: [f32; N]) -> [F32Literal; N] {
    values.map(float)
}

fn members(names: &[&str]) -> EnumMembers {
    let mut members = EnumMembers::new();
    for name in names {
        members.insert(EnumMember {
            name: Identifier::new(name).unwrap(),
            description: "".to_string(),
        });
    }
    members
}

#[test]
fn test_scalar_value_to_token_stream() {
    let v = ScalarValue::Empty(());
    assert_eq!(scalar_value_to_token_stream(&v).to_string(), "()");

    let v = ScalarValue::Bool(true);
    assert_eq!(scalar_value_to_token_stream(&v).to_string(), "true");

    let v = ScalarValue::EntityId(42);
    assert_eq!(scalar_value_to_token_stream(&v).to_string(), "EntityId (42u128)");

    let v = ScalarValue::F32(float(42.345f32));
    assert_eq!(scalar_value_to_token_stream(&v).to_string(), "42.345f32");

    let v = ScalarValue::F64(double(42.345f64));
    assert_eq!(scalar_value_to_token_stream(&v).to_string(), "42.345f64");

    let v = ScalarValue::Mat4(floats(glam::Mat4::IDENTITY.to_cols_array()));
    assert_eq!(
        scalar_value_to_token_stream(&v).to_string(),
        "Mat4 :: from_cols_array (& [1f32 , 0f32 , 0f32 , 0f32 , 0f32 , 1f32 , 0f32 , 0f32 , 0f32 , 0f32 , 1f32 , 0f32 , 0f32 , 0f32 , 0f32 , 1f32 ,])"
    );

    let v = ScalarValue::Quat(floats(glam::Quat::IDENTITY.to_array()));
    assert_eq!(
        scalar_value_to_token_stream(&v).to_string(),
        "Quat :: from_xyzw (0f32 , 0f32 , 0f32 , 1f32 ,)"
    );

    let v = ScalarValue::String("hello".to_string());
    assert_eq!(scalar_value_to_token_stream(&v).to_string(), "\"hello\" . to_string ()");

    let v = ScalarValue::U8(42);
    assert_eq!(scalar_value_to_token_stream(&v).to_string(), "42u8");

    let v = ScalarValue::U16(42);
    assert_eq!(scalar_value_to_token_stream(&v).to_string(), "42u16");

    let v = ScalarValue::U32(42);
    assert_eq!(scalar_value_to_token_stream(&v).to_string(), "42u32");

    let v = ScalarValue::U64(42);
    assert_eq!(scalar_value_to_token_stream(&v).to_string(), "42u64");

    let v = ScalarValue::I8(-42);
    assert_eq!(scalar_value_to_token_stream(&v).to_string(), "- 42i8");

    let v = ScalarValue::I16(-42);
    assert_eq!(scalar_value_to_token_stream(&v).to_string(), "- 42i16");

    let v = ScalarValue::I32(-42);
    assert_eq!(scalar_value_to_token_stream(&v).to_string(), "- 42i32");

    let v = ScalarValue::I64(-42);
    assert_eq!(scalar_value_to_token_stream(&v).to_string(), "- 42i64");

    let v = ScalarValue::Vec2(floats(glam::Vec2::new(1f32, 2f32).to_array()));
    assert_eq!(scalar_value_to_token_stream(&v).to_string(), "Vec2 :: new (1f32 , 2f32 ,)");

    let v = ScalarValue::Vec3(floats(glam::Vec3::new(1f32, 2f32, 3f32).to_array()));
    assert_eq!(
        scalar_value_to_token_stream(&v).to_string(),
        "Vec3 :: new (1f32 , 2f32 , 3f32 ,)"
    );

    let v = ScalarValue::Vec4(floats(glam::Vec4::new(1f32, 2f32, 3f32, 4f32).to_array()));
    assert_eq!(
        scalar_value_to_token_stream(&v).to_string(),
        "Vec4 :: new (1f32 , 2f32 , 3f32 , 4f32 ,)"
    );

    let v = ScalarValue::Uvec2(glam::UVec2::new(1, 2).to_array());
    assert_eq!(scalar_value_to_token_stream(&v).to_string(), "UVec2 :: new (1u32 , 2u32 ,)");

    let v = ScalarValue::Uvec3(glam::UVec3::new(1, 2, 3).to_array());
    assert_eq!(
        scalar_value_to_token_stream(&v).to_string(),
        "UVec3 :: new (1u32 , 2u32 , 3u32 ,)"
    );

    let v = ScalarValue::Uvec4(glam::UVec4::new(1, 2, 3, 4).to_array());
    assert_eq!(
        scalar_value_to_token_stream(&v).to_string(),
        "UVec4 :: new (1u32 , 2u32 , 3u32 , 4u32 ,)"
    );

    let v = ScalarValue::Ivec2(glam::IVec2::new(-1, -2).to_array());
    assert_eq!(
        scalar_value_to_token_stream(&v).to_string(),
        "IVec2 :: new (- 1i32 , - 2i32 ,)"
    );

    let v = ScalarValue::Ivec3(glam::IVec3::new(-1, -2, -3).to_array());
    assert_eq!(
        scalar_value_to_token_stream(&v).to_string(),
        "IVec3 :: new (- 1i32 , - 2i32 , - 3i32 ,)"
    );

    let v = ScalarValue::Ivec4(glam::IVec4::new(-1, -2, -3, -4).to_array());
    assert_eq!(
        scalar_value_to_token_stream(&v).to_string(),
        "IVec4 :: new (- 1i32 , - 2i32 , - 3i32 , - 4i32 ,)"
    );

    let duration = std::time::Duration::new(42, 345);
    let v = ScalarValue::Duration(Duration {
        secs: duration.as_secs(),
        nanos: duration.subsec_nanos(),
    });
    assert_eq!(scalar_value_to_token_stream(&v).to_string(), "Duration :: new (42u64 , 345u32)");

    fn unsupported_test<T: Default>(constructor: impl Fn(T) -> ScalarValue) {
        let v = constructor(Default::default());
        assert_eq!(scalar_value_to_token_stream(&v).to_string(), "unsupported ! ()");
    }

    unsupported_test(ScalarValue::ProceduralMeshHandle);
    unsupported_test(ScalarValue::ProceduralTextureHandle);
    unsupported_test(ScalarValue::ProceduralSamplerHandle);
    unsupported_test(ScalarValue::ProceduralMaterialHandle);
}

#[test]
fn test_value_to_token_stream() {
    let mut items = ItemMap::new();

    let value = Value::Scalar(ScalarValue::Bool(true));
    assert_eq!(value_to_token_stream(&items, &value).to_string(), "true");

    let value = Value::Vec(vec![
        ScalarValue::U32(1),
        ScalarValue::U32(2),
        ScalarValue::U32(3),
    ]);
    assert_eq!(
        value_to_token_stream(&items, &value).to_string(),
        "vec ! [1u32 , 2u32 , 3u32 ,]"
    );

    let value = Value::Option(Some(ScalarValue::String("hello".to_string())));
    assert_eq!(
        value_to_token_stream(&items, &value).to_string(),
        "Some (\"hello\" . to_string ())"
    );

    let value = Value::Option(None);
    assert_eq!(value_to_token_stream(&items, &value).to_string(), "None");

    let id = items.add_type(Type {
        id: Identifier::new("MyEnum").unwrap(),
        inner: TypeInner::Enum(Enum {
            description: None,
            members: members(&["A", "B", "C"]),
        }),
    });
    let value = Value::Enum(id, Identifier::new("B").unwrap());
    assert_eq!(value_to_token_stream(&items, &value).to_string(), "1usize");
}

/// One value of every type and some that are close to others.
fn different_values() -> Vec<ScalarValue> {
    let text = |text: &str| ScalarValue::String(text.to_string());
    vec![
        ScalarValue::Empty(()),
        ScalarValue::Bool(false),
        ScalarValue::Bool(true),
        ScalarValue::EntityId(1),
        ScalarValue::EntityId(11),
        ScalarValue::F32(float(1.0)),
        ScalarValue::F32(float(-1.0)),
        ScalarValue::F32(float(0.1)),
        ScalarValue::F32(float(f32::MIN_POSITIVE)),
        ScalarValue::F32(float(f32::MAX)),
        ScalarValue::F64(double(1.0)),
        ScalarValue::F64(double(-0.1)),
        ScalarValue::F64(double(f64::MAX)),
        ScalarValue::Mat4(floats(glam::Mat4::IDENTITY.to_cols_array())),
        ScalarValue::Mat4(floats(glam::Mat4::ZERO.to_cols_array())),
        ScalarValue::Quat(floats([1.0, 2.0, 3.0, 4.0])),
        text(""),
        text("0"),
        text("\0"),
        text("\00"),
        text("\\0"),
        text("\""),
        text("\\\""),
        text("\u{301}"),
        text("\\u{301}"),
        ScalarValue::U8(1),
        ScalarValue::U16(1),
        ScalarValue::U32(1),
        ScalarValue::U64(1),
        ScalarValue::I8(1),
        ScalarValue::I8(-1),
        ScalarValue::I16(1),
        ScalarValue::I32(1),
        ScalarValue::I64(1),
        ScalarValue::I64(i64::MIN),
        ScalarValue::Vec2(floats([1.0, -2.0])),
        ScalarValue::Vec2(floats([-1.0, 2.0])),
        ScalarValue::Vec3(floats([1.0, 2.0, 3.0])),
        ScalarValue::Vec4(floats([1.0, 2.0, 3.0, 4.0])),
        ScalarValue::Uvec2([1, 2]),
        ScalarValue::Uvec2([12, 2]),
        ScalarValue::Uvec3([1, 2, 3]),
        ScalarValue::Uvec4([1, 2, 3, 4]),
        ScalarValue::Ivec2([1, 2]),
        ScalarValue::Ivec2([1, -2]),
        ScalarValue::Ivec3([1, 2, 3]),
        ScalarValue::Ivec4([1, 2, 3, 4]),
        ScalarValue::Duration(Duration { secs: 1, nanos: 2 }),
        ScalarValue::Duration(Duration { secs: 2, nanos: 1 }),
        ScalarValue::ProceduralMeshHandle(1),
    ]
}

#[test]
fn expressions_tell_scalars_apart() {
    let shown = |values: Vec<ScalarValue>| -> Vec<String> {
        values.iter().map(|value| scalar_value_to_token_stream(value).to_string()).collect()
    };
    let expressions = shown(different_values());
    assert_eq!(expressions, shown(different_values()));
    for (i, expression) in expressions.iter().enumerate() {
        assert!(!expressions[..i].contains(expression), "{expression}");
    }
}

#[test]
fn float_literals_are_checked() {
    let f32s = |text: &str| F32Literal::new(text.parse().unwrap()).is_some();
    let f64s = |text: &str| F64Literal::new(text.parse().unwrap()).is_some();
    for text in ["1f32", "-1f32", "1.5f32", "100000000000000000000f32"] {
        assert!(f32s(text), "{text}");
        assert!(!f64s(text), "{text}");
    }
    assert!(f64s("0.25f64"));
    for text in ["", "f32", "1", "1u32", "0x1f32", "+1f32", "--1f32", "1f32 2f32", "(1f32)"] {
        assert!(!f32s(text), "{text}");
    }
    let literal = F32Literal::new((-0.5f32).to_token_stream()).unwrap();
    assert_eq!(literal.tokens().to_string(), "- 0.5f32");
}

#[test]
fn enum_members_occur_once_and_keep_their_places() {
    let mut members = members(&["A", "B"]);
    let again = EnumMember {
        name: Identifier::new("A").unwrap(),
        description: "new".to_string(),
    };
    assert_eq!(members.insert(again), Some("".to_string()));
    assert_eq!(members.len(), 2);
    assert_eq!(members.get(0).name.as_str(), "A");
    assert_eq!(members.get(0).description, "new");
    assert_eq!(members.get(1).name.as_str(), "B");
}

#[test]
fn streams_are_those_of_the_crate_itself() {
    // One pointer: there is no second implementation to choose from.
    assert_eq!(
        std::mem::size_of::<proc_macro2::TokenStream>(),
        std::mem::size_of::<usize>()
    );
}

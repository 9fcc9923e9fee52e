//! The items of a package: components, concepts, types and the values that concepts suggest.
use crate::floats::{F32Literal, F64Literal};
use crate::tokens::{is_identifier, stream_tokens, Token};
use proc_macro2::TokenStream;
use vstd::prelude::*;

verus! {

/// A name that can stand as an identifier in generated code.
pub struct Identifier {
    text: String,
}

impl View for Identifier {
    type V = Seq<char>;

    closed spec fn view(&self) -> Seq<char> {
        self.text@
    }
}

impl Identifier {
    #[verifier::type_invariant]
    spec fn well_formed(self) -> bool {
        is_identifier(self.text@)
    }

    /// Takes a text as an identifier, where it is one.
    pub fn new(text: &str) -> (r: Option<Identifier>)
        ensures
            match r {
                Some(identifier) => is_identifier(text@) && identifier@ == text@,
                None => !is_identifier(text@),
            },
    {
        let mut first: bool = true;
        for c in it: text.chars()
            invariant
                it.seq() == text@,
                first == (it.index() == 0),
                it.index() > 0 ==> !('0' <= text@[0] <= '9'),
                forall|i: int|
                    0 <= i < it.index() ==> crate::tokens::is_identifier_char(#[trigger] text@[i]),
        {
            let letter = ('a' <= c && c <= 'z') || ('A' <= c && c <= 'Z') || c == '_';
            let digit = '0' <= c && c <= '9';
            assert(c == text@[it.index() as int]);
            if !letter && (first || !digit) {
                return None;
            }
            first = false;
        }
        if first {
            return None;
        }
        Some(Identifier { text: text.to_owned() })
    }

    /// The identifier as text.
    pub fn as_str(&self) -> (text: &str)
        ensures
            text@ == self@,
            is_identifier(text@),
    {
        proof {
            use_type_invariant(self);
        }
        self.text.as_str()
    }

    /// Whether the two identifiers are the same.
    pub fn is(&self, other: &Identifier) -> (same: bool)
        ensures
            same == (self@ == other@),
    {
        self.text == other.text
    }
}

/// Names a component of an [`ItemMap`].
#[derive(Clone, Copy, PartialEq, Eq, Structural, Debug)]
pub struct ComponentId(pub usize);

/// Names a concept of an [`ItemMap`].
#[derive(Clone, Copy, PartialEq, Eq, Structural, Debug)]
pub struct ConceptId(pub usize);

/// Names a type of an [`ItemMap`].
#[derive(Clone, Copy, PartialEq, Eq, Structural, Debug)]
pub struct TypeId(pub usize);

/// Why an item could not be printed.
pub struct PrintError {
    /// What to tell the user.
    pub message: String,
}

/// Tokens, or why there are none.
pub type Printed = Result<TokenStream, PrintError>;

/// What a printed item is: its tokens, or the message of the error.
pub open spec fn printed(result: Printed) -> Result<Seq<Token>, Seq<char>> {
    match result {
        Ok(stream) => Ok(stream_tokens(stream)),
        Err(error) => Err(error.message@),
    }
}

/// A value of a primitive type.
pub enum ScalarValue {
    Empty(()),
    Bool(bool),
    EntityId(u128),
    F32(F32Literal),
    F64(F64Literal),
    /// Column by column.
    Mat4([F32Literal; 16]),
    /// The components `x`, `y`, `z` and `w`.
    Quat([F32Literal; 4]),
    String(String),
    U8(u8),
    U16(u16),
    U32(u32),
    U64(u64),
    I8(i8),
    I16(i16),
    I32(i32),
    I64(i64),
    Vec2([F32Literal; 2]),
    Vec3([F32Literal; 3]),
    Vec4([F32Literal; 4]),
    Uvec2([u32; 2]),
    Uvec3([u32; 3]),
    Uvec4([u32; 4]),
    Ivec2([i32; 2]),
    Ivec3([i32; 3]),
    Ivec4([i32; 4]),
    Duration(Duration),
    ProceduralMeshHandle(u128),
    ProceduralTextureHandle(u128),
    ProceduralSamplerHandle(u128),
    ProceduralMaterialHandle(u128),
}

/// A span of time.
pub struct Duration {
    /// Whole seconds.
    pub secs: u64,
    /// The rest, in nanoseconds.
    pub nanos: u32,
}

/// A value that a concept can suggest for a component.
pub enum Value {
    Scalar(ScalarValue),
    Vec(Vec<ScalarValue>),
    Option(Option<ScalarValue>),
    /// A member of an enum type.
    Enum(TypeId, Identifier),
}

/// A suggested value, as far as it could be read.
pub enum ResolvableValue {
    /// The value was not brought to the type of its component.
    Unresolved,
    /// The value, and the text that shows it in documentation.
    Resolved { value: Value, display: String },
}

/// What a concept says about one of its components.
pub struct ConceptValue {
    pub description: Option<String>,
    pub suggested: Option<ResolvableValue>,
}

/// A component of a concept.
pub struct ConceptComponent {
    pub component: ComponentId,
    pub value: ConceptValue,
}

/// The components of a concept, in the order in which they were first named. No component occurs
/// twice.
pub struct ConceptComponents {
    parts: Vec<ConceptComponent>,
}

impl View for ConceptComponents {
    type V = Seq<ConceptComponent>;

    closed spec fn view(&self) -> Seq<ConceptComponent> {
        self.parts@
    }
}

/// Whether no component occurs twice.
pub open spec fn components_are_distinct(parts: Seq<ConceptComponent>) -> bool {
    forall|i: int, j: int|
        0 <= i < parts.len() && 0 <= j < parts.len() && (#[trigger] parts[i]).component == (
        #[trigger] parts[j]).component ==> i == j
}

impl ConceptComponents {
    #[verifier::type_invariant]
    spec fn well_formed(self) -> bool {
        components_are_distinct(self.parts@)
    }

    /// No components.
    pub fn new() -> (r: ConceptComponents)
        ensures
            r@ == Seq::<ConceptComponent>::empty(),
    {
        ConceptComponents { parts: Vec::new() }
    }

    /// How many components there are.
    pub fn len(&self) -> (r: usize)
        ensures
            r == self@.len(),
            components_are_distinct(self@),
    {
        proof {
            use_type_invariant(self);
        }
        self.parts.len()
    }

    /// The component in that place.
    pub fn get(&self, index: usize) -> (r: &ConceptComponent)
        requires
            index < self@.len(),
        ensures
            *r == self@[index as int],
    {
        &self.parts[index]
    }

    /// Adds a component at the end. Where the component is there already, it keeps its place, and
    /// what was said about it is replaced and given back.
    pub fn insert(&mut self, part: ConceptComponent) -> (r: Option<ConceptValue>)
        ensures
            components_are_distinct(final(self)@),
            match r {
                Some(value) => exists|i: int|
                    {
                        &&& 0 <= i < old(self)@.len()
                        &&& (#[trigger] old(self)@[i]).component == part.component
                        &&& value == old(self)@[i].value
                        &&& final(self)@ == old(self)@.update(i, part)
                    },
                None => {
                    &&& forall|i: int|
                        0 <= i < old(self)@.len() ==> (#[trigger] old(self)@[i]).component
                            != part.component
                    &&& final(self)@ == old(self)@.push(part)
                },
            },
    {
        proof {
            use_type_invariant(&*self);
        }
        let mut parts: Vec<ConceptComponent> = Vec::new();
        std::mem::swap(&mut parts, &mut self.parts);
        let ghost before = parts@;
        let mut i: usize = 0;
        while i < parts.len()
            invariant
                i <= parts@.len(),
                parts@ == before,
                self.parts@ == Seq::<ConceptComponent>::empty(),
                before == old(self)@,
                components_are_distinct(before),
                forall|j: int|
                    0 <= j < i ==> (#[trigger] before[j]).component != part.component,
            decreases parts.len() - i,
        {
            if parts[i].component == part.component {
                parts.push(part);
                let replaced = parts.swap_remove(i);
                assert(parts@ =~= before.update(i as int, part));
                self.parts = parts;
                assert(before[i as int].component == part.component);
                return Some(replaced.value);
            }
            i = i + 1;
        }
        parts.push(part);
        self.parts = parts;
        None
    }
}

/// A piece of data that an entity can have.
pub struct Component {
    pub id: Identifier,
    pub description: Option<String>,
    pub type_: TypeId,
    /// The fully qualified path, for documentation.
    pub display_path: String,
    /// The path by which generated code reaches the component.
    pub path: Printed,
}

/// A collection of components that describes some form of gameplay concept.
pub struct Concept {
    pub id: Identifier,
    pub name: Option<String>,
    pub description: Option<String>,
    /// The fully qualified path, for documentation.
    pub display_path: String,
    pub extends: Vec<ConceptId>,
    pub required_components: ConceptComponents,
    pub optional_components: ConceptComponents,
}

/// A member of an enum type.
pub struct EnumMember {
    pub name: Identifier,
    pub description: String,
}

/// The members of an enum type, in the order in which they were first named. No name occurs twice.
pub struct EnumMembers {
    members: Vec<EnumMember>,
}

impl View for EnumMembers {
    type V = Seq<EnumMember>;

    closed spec fn view(&self) -> Seq<EnumMember> {
        self.members@
    }
}

/// Whether no name occurs twice.
pub open spec fn names_are_distinct(members: Seq<EnumMember>) -> bool {
    forall|i: int, j: int|
        0 <= i < members.len() && 0 <= j < members.len() && (#[trigger] members[i]).name@ == (
        #[trigger] members[j]).name@ ==> i == j
}

impl EnumMembers {
    #[verifier::type_invariant]
    spec fn well_formed(self) -> bool {
        names_are_distinct(self.members@)
    }

    /// No members.
    pub fn new() -> (r: EnumMembers)
        ensures
            r@ == Seq::<EnumMember>::empty(),
    {
        EnumMembers { members: Vec::new() }
    }

    /// How many members there are.
    pub fn len(&self) -> (r: usize)
        ensures
            r == self@.len(),
            names_are_distinct(self@),
    {
        proof {
            use_type_invariant(self);
        }
        self.members.len()
    }

    /// The member in that place.
    pub fn get(&self, index: usize) -> (r: &EnumMember)
        requires
            index < self@.len(),
        ensures
            *r == self@[index as int],
    {
        &self.members[index]
    }

    /// Adds a member at the end. Where there is a member of that name already, it keeps its place,
    /// and its description is replaced and given back.
    pub fn insert(&mut self, member: EnumMember) -> (r: Option<String>)
        ensures
            names_are_distinct(final(self)@),
            match r {
                Some(description) => exists|i: int|
                    {
                        &&& 0 <= i < old(self)@.len()
                        &&& (#[trigger] old(self)@[i]).name@ == member.name@
                        &&& description == old(self)@[i].description
                        &&& final(self)@ == old(self)@.update(i, member)
                    },
                None => {
                    &&& forall|i: int|
                        0 <= i < old(self)@.len() ==> (#[trigger] old(self)@[i]).name@
                            != member.name@
                    &&& final(self)@ == old(self)@.push(member)
                },
            },
    {
        proof {
            use_type_invariant(&*self);
        }
        let mut members: Vec<EnumMember> = Vec::new();
        std::mem::swap(&mut members, &mut self.members);
        let ghost before = members@;
        let mut i: usize = 0;
        while i < members.len()
            invariant
                i <= members@.len(),
                members@ == before,
                self.members@ == Seq::<EnumMember>::empty(),
                before == old(self)@,
                names_are_distinct(before),
                forall|j: int| 0 <= j < i ==> (#[trigger] before[j]).name@ != member.name@,
            decreases members.len() - i,
        {
            if members[i].name.is(&member.name) {
                members.push(member);
                let replaced = members.swap_remove(i);
                assert(members@ =~= before.update(i as int, member));
                self.members = members;
                assert(before[i as int].name@ == member.name@);
                return Some(replaced.description);
            }
            i = i + 1;
        }
        members.push(member);
        self.members = members;
        None
    }
}

/// An enum type.
pub struct Enum {
    pub description: Option<String>,
    pub members: EnumMembers,
}

impl Enum {
    /// The names of the members, in order.
    pub open spec fn names(self) -> Seq<Seq<char>> {
        self.members@.map_values(|member: EnumMember| member.name@)
    }

    /// The place of a member among the members.
    pub fn get_index_of(&self, member: &Identifier) -> (r: Option<usize>)
        ensures
            match r {
                Some(index) => self.names().index_of_first(member@) == Some(index as int),
                None => !self.names().contains(member@),
            },
    {
        let mut i: usize = 0;
        while i < self.members.len()
            invariant
                i <= self.members@.len(),
                forall|j: int| 0 <= j < i ==> #[trigger] self.names()[j] != member@,
            decreases self.members@.len() - i,
        {
            assert(self.names()[i as int] == self.members@[i as int].name@);
            if self.members.get(i).name.is(member) {
                proof {
                    self.names().index_of_first_ensures(member@);
                }
                return Some(i);
            }
            i = i + 1;
        }
        None
    }
}

/// What a type is made of.
pub enum TypeInner {
    Enum(Enum),
    /// A primitive type, or a container of one.
    Other,
}

/// A type.
pub struct Type {
    pub id: Identifier,
    pub inner: TypeInner,
}

/// All the items of a package and of what it depends on.
pub struct ItemMap {
    pub components: Vec<Component>,
    pub concepts: Vec<Concept>,
    pub types: Vec<Type>,
}

impl ItemMap {
    /// Whether `id` names a component of the map.
    pub open spec fn has_component(self, id: ComponentId) -> bool {
        id.0 < self.components@.len()
    }

    /// The component that `id` names.
    pub open spec fn component(self, id: ComponentId) -> Component {
        self.components@[id.0 as int]
    }

    /// Whether `id` names a concept of the map.
    pub open spec fn has_concept(self, id: ConceptId) -> bool {
        id.0 < self.concepts@.len()
    }

    /// The concept that `id` names.
    pub open spec fn concept(self, id: ConceptId) -> Concept {
        self.concepts@[id.0 as int]
    }

    /// Whether `id` names an enum type of the map.
    pub open spec fn has_enum(self, id: TypeId) -> bool {
        &&& id.0 < self.types@.len()
        &&& self.types@[id.0 as int].inner is Enum
    }

    /// The enum type that `id` names.
    pub open spec fn enum_type(self, id: TypeId) -> Enum {
        self.types@[id.0 as int].inner->Enum_0
    }

    /// Whether a value names an enum type of the map and one of its members, if it names any.
    pub open spec fn has_value(self, value: Value) -> bool {
        match value {
            Value::Enum(id, member) => self.has_enum(id) && self.enum_type(id).names().contains(
                member@,
            ),
            _ => true,
        }
    }

    /// Whether the suggested value of a component, if it is resolved, is one of the map.
    pub open spec fn has_suggested(self, value: ConceptValue) -> bool {
        match value.suggested {
            Some(ResolvableValue::Resolved { value, .. }) => self.has_value(value),
            _ => true,
        }
    }

    /// Whether the concepts are in the map.
    pub open spec fn has_all_concepts(self, ids: Seq<ConceptId>) -> bool {
        forall|i: int| 0 <= i < ids.len() ==> self.has_concept(#[trigger] ids[i])
    }

    /// A map without items.
    pub fn new() -> (r: ItemMap)
        ensures
            r.components@.len() == 0,
            r.concepts@.len() == 0,
            r.types@.len() == 0,
    {
        ItemMap { components: Vec::new(), concepts: Vec::new(), types: Vec::new() }
    }

    /// Adds a component.
    pub fn add_component(&mut self, component: Component) -> (id: ComponentId)
        ensures
            id.0 == old(self).components@.len(),
            final(self).components@ == old(self).components@.push(component),
            final(self).concepts == old(self).concepts,
            final(self).types == old(self).types,
    {
        let id: usize = self.components.len();
        self.components.push(component);
        ComponentId(id)
    }

    /// Adds a concept.
    pub fn add_concept(&mut self, concept: Concept) -> (id: ConceptId)
        ensures
            id.0 == old(self).concepts@.len(),
            final(self).concepts@ == old(self).concepts@.push(concept),
            final(self).components == old(self).components,
            final(self).types == old(self).types,
    {
        let id: usize = self.concepts.len();
        self.concepts.push(concept);
        ConceptId(id)
    }

    /// Adds a type.
    pub fn add_type(&mut self, type_: Type) -> (id: TypeId)
        ensures
            id.0 == old(self).types@.len(),
            final(self).types@ == old(self).types@.push(type_),
            final(self).components == old(self).components,
            final(self).concepts == old(self).concepts,
    {
        let id: usize = self.types.len();
        self.types.push(type_);
        TypeId(id)
    }

    /// The component that `id` names.
    pub fn get_component(&self, id: ComponentId) -> (r: &Component)
        requires
            self.has_component(id),
        ensures
            *r == self.component(id),
    {
        &self.components[id.0]
    }

    /// The concept that `id` names.
    pub fn get_concept(&self, id: ConceptId) -> (r: &Concept)
        requires
            self.has_concept(id),
        ensures
            *r == self.concept(id),
    {
        &self.concepts[id.0]
    }
}

/// For whom code is generated.
pub enum Context {
    /// The runtime itself.
    Host,
    /// The API crate that guest code uses. Holds the path by which code reaches that API.
    GuestApi(TokenStream),
    /// The code of a package. Holds the path by which code reaches the API.
    GuestUser(TokenStream),
}

impl Context {
    /// The path by which generated code reaches the guest API. The host has none.
    pub open spec fn api_path(self) -> Option<Seq<Token>> {
        match self {
            Context::Host => None,
            Context::GuestApi(path) => Some(stream_tokens(path)),
            Context::GuestUser(path) => Some(stream_tokens(path)),
        }
    }

    /// The path by which generated code reaches the guest API. The host has none.
    pub fn guest_api_path(&self) -> (r: Option<&TokenStream>)
        ensures
            match r {
                Some(path) => self.api_path() == Some(stream_tokens(*path)),
                None => self.api_path() is None,
            },
    {
        match self {
            Context::Host => None,
            Context::GuestApi(path) => Some(path),
            Context::GuestUser(path) => Some(path),
        }
    }
}

/// The printed form of every type of an [`ItemMap`].
pub struct TypePrinter {
    pub types: Vec<Printed>,
}

impl TypePrinter {
    /// Whether the printer knows a type.
    pub open spec fn knows(self, id: TypeId) -> bool {
        id.0 < self.types@.len()
    }

    /// The printed form of a type.
    pub open spec fn type_tokens(self, id: TypeId) -> Result<Seq<Token>, Seq<char>> {
        printed(self.types@[id.0 as int])
    }

    /// The printed form of a type.
    pub fn get(&self, id: TypeId) -> (r: &Printed)
        requires
            self.knows(id),
        ensures
            printed(*r) == self.type_tokens(id),
    {
        &self.types[id.0]
    }
}

/// A concept of a scope.
pub struct ScopedConcept {
    pub concept: ConceptId,
    /// Whether code is generated for the concept in the context at hand.
    pub relevant: bool,
}

/// A part of a package.
pub struct Scope {
    pub concepts: Vec<ScopedConcept>,
}

} // verus!

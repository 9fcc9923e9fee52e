//! Token streams: what they hold, and a builder that writes them token by token.
//!
//! The streams are those of `proc_macro2`. Verus sees nothing inside such a stream, so the
//! contracts speak of [`stream_tokens`], the sequence of tokens that a stream holds.
//!
//! What is claimed of `proc_macro2` and `quote` here is claimed of these crates built without
//! their feature `proc-macro`, as the manifest asks for. They then have one implementation of
//! streams and literals, their own, and nothing of it depends on where the code runs. With the
//! feature they would hand the work to the compiler whenever the code runs inside a macro.
use crate::text::decimal;
use proc_macro2::{TokenStream, TokenTree};
use vstd::prelude::*;

verus! {

/// What stands around the tokens of a group.
#[derive(Clone, Copy, PartialEq, Eq, Structural, Debug)]
pub enum Delimiter {
    /// `( ... )`
    Parenthesis,
    /// `{ ... }`
    Brace,
    /// `[ ... ]`
    Bracket,
    /// Nothing that is written.
    Invisible,
}

/// One token of a stream.
pub enum Token {
    /// An identifier or a keyword, by its text.
    Ident(Seq<char>),
    /// A punctuation character, and whether it is joined to the punctuation that follows it.
    Punct(char, bool),
    /// A literal, by its text.
    Literal(Seq<char>),
    /// A delimited group.
    Group(Delimiter, Seq<Token>),
}

/// `proc_macro2::TokenStream`.
#[verifier::external_type_specification]
#[verifier::external_body]
pub struct ExTokenStream(proc_macro2::TokenStream);

/// The tokens that a stream holds, in order.
pub uninterp spec fn stream_tokens(stream: TokenStream) -> Seq<Token>;

// -------------------------------------------------------------------------------------------
// Tokens as the templates write them

/// Tokens without a token: what a template starts from.
pub open spec fn template() -> Seq<Token> {
    Seq::empty()
}

/// Tokens written one after the other. Each method adds to the end; the methods of [`Quote`] of
/// the same names do the same to a stream.
pub trait Template: Sized {
    /// Adds an identifier or a keyword that is known beforehand.
    spec fn ident(self, text: &str) -> Self;

    /// Adds an identifier.
    spec fn name(self, text: Seq<char>) -> Self;

    /// Adds a punctuation character that stands alone.
    spec fn punct(self, c: char) -> Self;

    /// Adds a punctuation character that is joined to the next one.
    spec fn joint(self, c: char) -> Self;

    /// Adds `( ... )`.
    spec fn parens(self, inner: Self) -> Self;

    /// Adds `{ ... }`.
    spec fn braces(self, inner: Self) -> Self;

    /// Adds `[ ... ]`.
    spec fn brackets(self, inner: Self) -> Self;

    /// Adds the literal of a string.
    spec fn string(self, value: Seq<char>) -> Self;

    /// Adds the raw literal of a string.
    spec fn raw_string(self, value: Seq<char>) -> Self;

    /// Adds all of the other tokens.
    spec fn tokens(self, other: Self) -> Self;
}

impl Template for Seq<Token> {
    open spec fn ident(self, text: &str) -> Self {
        self.push(Token::Ident(text@))
    }

    open spec fn name(self, text: Seq<char>) -> Self {
        self.push(Token::Ident(text))
    }

    open spec fn punct(self, c: char) -> Self {
        self.push(Token::Punct(c, false))
    }

    open spec fn joint(self, c: char) -> Self {
        self.push(Token::Punct(c, true))
    }

    open spec fn parens(self, inner: Self) -> Self {
        self.push(Token::Group(Delimiter::Parenthesis, inner))
    }

    open spec fn braces(self, inner: Self) -> Self {
        self.push(Token::Group(Delimiter::Brace, inner))
    }

    open spec fn brackets(self, inner: Self) -> Self {
        self.push(Token::Group(Delimiter::Bracket, inner))
    }

    open spec fn string(self, value: Seq<char>) -> Self {
        self.push(Token::Literal(string_literal(value)))
    }

    open spec fn raw_string(self, value: Seq<char>) -> Self {
        self.push(Token::Literal(raw_string_literal(value)))
    }

    open spec fn tokens(self, other: Self) -> Self {
        self + other
    }
}

/// The parts one after the other, each with a comma behind it.
pub open spec fn comma_terminated(parts: Seq<Seq<Token>>) -> Seq<Token>
    decreases parts.len(),
{
    if parts.len() == 0 {
        template()
    } else {
        comma_terminated(parts.drop_last()).tokens(parts.last()).punct(',')
    }
}

/// The parts one after the other, with a comma between each two of them.
pub open spec fn comma_separated(parts: Seq<Seq<Token>>) -> Seq<Token>
    decreases parts.len(),
{
    if parts.len() == 0 {
        template()
    } else if parts.len() == 1 {
        parts[0]
    } else {
        comma_separated(parts.drop_last()).punct(',').tokens(parts.last())
    }
}

/// The parts one after the other.
pub open spec fn concatenated(parts: Seq<Seq<Token>>) -> Seq<Token>
    decreases parts.len(),
{
    if parts.len() == 0 {
        template()
    } else {
        concatenated(parts.drop_last()).tokens(parts.last())
    }
}

/// The text of the literal that `proc_macro2::Literal::string` writes for the string `value`:
/// `value` between double quotes, escaped where a Rust string literal needs it.
pub uninterp spec fn string_literal(value: Seq<char>) -> Seq<char>;

/// Whether no other string has the literal of `value`.
pub open spec fn has_own_literal(value: Seq<char>) -> bool {
    forall|other: Seq<char>| #[trigger]
        string_literal(other) == string_literal(value) ==> other == value
}

/// The text of the raw string literal of `value`.
pub open spec fn raw_string_literal(value: Seq<char>) -> Seq<char> {
    seq!['r', '"'] + value + seq!['"']
}

/// Whether the raw string literal of `value` can be written without `#` marks.
pub open spec fn raw_string_ok(value: Seq<char>) -> bool {
    forall|i: int| 0 <= i < value.len() ==> #[trigger] value[i] != '"' && value[i] != '\r'
}

/// The tokens of the integer `value` with a type suffix: a numeral, and before it, for a negative
/// value, a minus sign of its own.
pub open spec fn integer_tokens(value: int, suffix: &str) -> Seq<Token> {
    if value < 0 {
        template().punct('-').push(Token::Literal(decimal((-value) as nat) + suffix@))
    } else {
        template().push(Token::Literal(decimal(value as nat) + suffix@))
    }
}

/// The token of a truth value.
pub open spec fn bool_token(value: bool) -> Token {
    if value {
        Token::Ident("true"@)
    } else {
        Token::Ident("false"@)
    }
}

/// Whether `c` can stand in an identifier.
pub open spec fn is_identifier_char(c: char) -> bool {
    ||| 'a' <= c <= 'z'
    ||| 'A' <= c <= 'Z'
    ||| '0' <= c <= '9'
    ||| c == '_'
}

/// Whether `s` is an identifier: ASCII letters, digits and underscores, the first of them no
/// digit.
pub open spec fn is_identifier(s: Seq<char>) -> bool {
    &&& s.len() > 0
    &&& !('0' <= s[0] <= '9')
    &&& forall|i: int| 0 <= i < s.len() ==> is_identifier_char(#[trigger] s[i])
}

/// Whether `c` is a punctuation character of the language.
pub open spec fn is_punct_char(c: char) -> bool {
    ||| c == '!' || c == '#' || c == '$' || c == '%' || c == '&' || c == '\''
    ||| c == '*' || c == '+' || c == ',' || c == '-' || c == '.' || c == '/'
    ||| c == ':' || c == ';' || c == '<' || c == '=' || c == '>' || c == '?'
    ||| c == '@' || c == '^' || c == '|' || c == '~'
}

/// Tokens after no tokens are those tokens.
pub(crate) proof fn nothing_before()
    ensures
        forall|tokens: Seq<Token>| #[trigger] (Seq::<Token>::empty() + tokens) == tokens,
{
    assert forall|tokens: Seq<Token>| #[trigger]
        (Seq::<Token>::empty() + tokens) == tokens by {
        assert(Seq::<Token>::empty() + tokens =~= tokens);
    }
}

/// One more part adds its tokens and a comma.
pub(crate) proof fn comma_terminated_step(parts: Seq<Seq<Token>>, i: int)
    requires
        0 <= i < parts.len(),
    ensures
        comma_terminated(parts.take(i + 1)) == comma_terminated(parts.take(i)).tokens(
            parts[i],
        ).punct(','),
{
    assert(parts.take(i + 1).drop_last() =~= parts.take(i));
}

/// One more part adds its tokens, and a comma before them unless it is the first.
pub(crate) proof fn comma_separated_step(parts: Seq<Seq<Token>>, i: int)
    requires
        0 <= i < parts.len(),
    ensures
        i == 0 ==> comma_separated(parts.take(i + 1)) == parts[i],
        i > 0 ==> comma_separated(parts.take(i + 1)) == comma_separated(parts.take(i)).punct(
            ',',
        ).tokens(parts[i]),
{
    assert(parts.take(i + 1).drop_last() =~= parts.take(i));
}

/// One more part adds its tokens.
pub(crate) proof fn concatenated_step(parts: Seq<Seq<Token>>, i: int)
    requires
        0 <= i < parts.len(),
    ensures
        concatenated(parts.take(i + 1)) == concatenated(parts.take(i)).tokens(parts[i]),
{
    assert(parts.take(i + 1).drop_last() =~= parts.take(i));
}

// -------------------------------------------------------------------------------------------
// Writing to a stream

/// `proc_macro2::TokenStream::new`: a stream without tokens.
pub assume_specification[ proc_macro2::TokenStream::new ]() -> (stream: proc_macro2::TokenStream)
    ensures
        stream_tokens(stream) == Seq::<Token>::empty(),
;

/// Appends a `proc_macro2::Ident`: one identifier token with the given text. `Ident::new` panics
/// where the text is no identifier.
#[verifier::external_body]
fn append_ident(stream: &mut TokenStream, text: &str)
    requires
        is_identifier(text@),
    ensures
        stream_tokens(*final(stream)) == stream_tokens(*old(stream)).push(Token::Ident(text@)),
{
    let ident = proc_macro2::Ident::new(text, proc_macro2::Span::call_site());
    quote::TokenStreamExt::append(stream, ident);
}

/// Appends a `proc_macro2::Punct` with the spacing `Alone`. `Punct::new` panics where the
/// character is no punctuation.
#[verifier::external_body]
fn append_punct(stream: &mut TokenStream, c: char)
    requires
        is_punct_char(c),
    ensures
        stream_tokens(*final(stream)) == stream_tokens(*old(stream)).push(Token::Punct(c, false)),
{
    quote::TokenStreamExt::append(stream, proc_macro2::Punct::new(c, proc_macro2::Spacing::Alone));
}

/// Appends a `proc_macro2::Punct` with the spacing `Joint`. `Punct::new` panics where the
/// character is no punctuation.
#[verifier::external_body]
fn append_joint(stream: &mut TokenStream, c: char)
    requires
        is_punct_char(c),
    ensures
        stream_tokens(*final(stream)) == stream_tokens(*old(stream)).push(Token::Punct(c, true)),
{
    quote::TokenStreamExt::append(stream, proc_macro2::Punct::new(c, proc_macro2::Spacing::Joint));
}

/// Appends a `proc_macro2::Group` in parentheses: one group token that holds the inner tokens.
#[verifier::external_body]
fn append_parens(stream: &mut TokenStream, inner: TokenStream)
    ensures
        stream_tokens(*final(stream)) == stream_tokens(*old(stream)).push(
            Token::Group(Delimiter::Parenthesis, stream_tokens(inner)),
        ),
{
    let group = proc_macro2::Group::new(proc_macro2::Delimiter::Parenthesis, inner);
    quote::TokenStreamExt::append(stream, group);
}

/// Appends a `proc_macro2::Group` in braces: one group token that holds the inner tokens.
#[verifier::external_body]
fn append_braces(stream: &mut TokenStream, inner: TokenStream)
    ensures
        stream_tokens(*final(stream)) == stream_tokens(*old(stream)).push(
            Token::Group(Delimiter::Brace, stream_tokens(inner)),
        ),
{
    let group = proc_macro2::Group::new(proc_macro2::Delimiter::Brace, inner);
    quote::TokenStreamExt::append(stream, group);
}

/// Appends a `proc_macro2::Group` in brackets: one group token that holds the inner tokens.
#[verifier::external_body]
fn append_brackets(stream: &mut TokenStream, inner: TokenStream)
    ensures
        stream_tokens(*final(stream)) == stream_tokens(*old(stream)).push(
            Token::Group(Delimiter::Bracket, stream_tokens(inner)),
        ),
{
    let group = proc_macro2::Group::new(proc_macro2::Delimiter::Bracket, inner);
    quote::TokenStreamExt::append(stream, group);
}

/// `quote::ToTokens` of a stream: appends all the tokens of another stream.
#[verifier::external_body]
fn append_stream(stream: &mut TokenStream, other: &TokenStream)
    ensures
        stream_tokens(*final(stream)) == stream_tokens(*old(stream)) + stream_tokens(*other),
{
    quote::ToTokens::to_tokens(other, stream);
}

/// `quote::ToTokens` of a string slice: appends the literal of the string, whose text is what
/// `proc_macro2::Literal::string` writes. The literal can be read back, so no other string has it.
#[verifier::external_body]
fn append_string(stream: &mut TokenStream, value: &str)
    ensures
        stream_tokens(*final(stream)) == stream_tokens(*old(stream)).push(
            Token::Literal(string_literal(value@)),
        ),
        forall|other: Seq<char>|
            stream_tokens(*final(stream)) == stream_tokens(*old(stream)).push(
                Token::Literal(#[trigger] string_literal(other)),
            ) ==> other == value@,
{
    quote::ToTokens::to_tokens(value, stream);
}

/// Appends the `proc_macro2::Literal` that `Literal::from_str` reads in `r"value"`: one literal
/// with that text. A value with a double quote or a carriage return does not read so.
#[verifier::external_body]
fn append_raw_string(stream: &mut TokenStream, value: &str)
    requires
        raw_string_ok(value@),
    ensures
        stream_tokens(*final(stream)) == stream_tokens(*old(stream)).push(
            Token::Literal(raw_string_literal(value@)),
        ),
{
    let literal: proc_macro2::Literal = format!("r\"{}\"", value).parse().unwrap();
    quote::TokenStreamExt::append(stream, literal);
}

/// `quote::ToTokens` of a truth value: appends the identifier `true` or `false`.
#[verifier::external_body]
fn append_bool(stream: &mut TokenStream, value: bool)
    ensures
        stream_tokens(*final(stream)) == stream_tokens(*old(stream)).push(bool_token(value)),
{
    quote::ToTokens::to_tokens(&value, stream);
}

/// `quote::ToTokens` of a `u8`: appends its numeral with the suffix `u8`.
#[verifier::external_body]
fn append_u8(stream: &mut TokenStream, value: u8)
    ensures
        stream_tokens(*final(stream)) == stream_tokens(*old(stream)) + integer_tokens(
            value as int,
            "u8",
        ),
{
    quote::ToTokens::to_tokens(&value, stream);
}

/// `quote::ToTokens` of a `u16`: appends its numeral with the suffix `u16`.
#[verifier::external_body]
fn append_u16(stream: &mut TokenStream, value: u16)
    ensures
        stream_tokens(*final(stream)) == stream_tokens(*old(stream)) + integer_tokens(
            value as int,
            "u16",
        ),
{
    quote::ToTokens::to_tokens(&value, stream);
}

/// `quote::ToTokens` of a `u32`: appends its numeral with the suffix `u32`.
#[verifier::external_body]
fn append_u32(stream: &mut TokenStream, value: u32)
    ensures
        stream_tokens(*final(stream)) == stream_tokens(*old(stream)) + integer_tokens(
            value as int,
            "u32",
        ),
{
    quote::ToTokens::to_tokens(&value, stream);
}

/// `quote::ToTokens` of a `u64`: appends its numeral with the suffix `u64`.
#[verifier::external_body]
fn append_u64(stream: &mut TokenStream, value: u64)
    ensures
        stream_tokens(*final(stream)) == stream_tokens(*old(stream)) + integer_tokens(
            value as int,
            "u64",
        ),
{
    quote::ToTokens::to_tokens(&value, stream);
}

/// `quote::ToTokens` of a `u128`: appends its numeral with the suffix `u128`.
#[verifier::external_body]
fn append_u128(stream: &mut TokenStream, value: u128)
    ensures
        stream_tokens(*final(stream)) == stream_tokens(*old(stream)) + integer_tokens(
            value as int,
            "u128",
        ),
{
    quote::ToTokens::to_tokens(&value, stream);
}

/// `quote::ToTokens` of a `usize`: appends its numeral with the suffix `usize`.
#[verifier::external_body]
fn append_usize(stream: &mut TokenStream, value: usize)
    ensures
        stream_tokens(*final(stream)) == stream_tokens(*old(stream)) + integer_tokens(
            value as int,
            "usize",
        ),
{
    quote::ToTokens::to_tokens(&value, stream);
}

/// `quote::ToTokens` of an `i8`: appends its numeral with the suffix `i8`. The stream splits a
/// negative literal into a minus sign and the numeral.
#[verifier::external_body]
fn append_i8(stream: &mut TokenStream, value: i8)
    ensures
        stream_tokens(*final(stream)) == stream_tokens(*old(stream)) + integer_tokens(
            value as int,
            "i8",
        ),
{
    quote::ToTokens::to_tokens(&value, stream);
}

/// `quote::ToTokens` of an `i16`: appends its numeral with the suffix `i16`. The stream splits a
/// negative literal into a minus sign and the numeral.
#[verifier::external_body]
fn append_i16(stream: &mut TokenStream, value: i16)
    ensures
        stream_tokens(*final(stream)) == stream_tokens(*old(stream)) + integer_tokens(
            value as int,
            "i16",
        ),
{
    quote::ToTokens::to_tokens(&value, stream);
}

/// `quote::ToTokens` of an `i32`: appends its numeral with the suffix `i32`. The stream splits a
/// negative literal into a minus sign and the numeral.
#[verifier::external_body]
fn append_i32(stream: &mut TokenStream, value: i32)
    ensures
        stream_tokens(*final(stream)) == stream_tokens(*old(stream)) + integer_tokens(
            value as int,
            "i32",
        ),
{
    quote::ToTokens::to_tokens(&value, stream);
}

/// `quote::ToTokens` of an `i64`: appends its numeral with the suffix `i64`. The stream splits a
/// negative literal into a minus sign and the numeral.
#[verifier::external_body]
fn append_i64(stream: &mut TokenStream, value: i64)
    ensures
        stream_tokens(*final(stream)) == stream_tokens(*old(stream)) + integer_tokens(
            value as int,
            "i64",
        ),
{
    quote::ToTokens::to_tokens(&value, stream);
}

/// A token stream in the making. Every method takes the builder and gives it back with more
/// tokens at its end.
pub struct Quote {
    stream: TokenStream,
}

impl View for Quote {
    type V = Seq<Token>;

    closed spec fn view(&self) -> Seq<Token> {
        stream_tokens(self.stream)
    }
}

impl Quote {
    /// A builder without tokens.
    pub fn new() -> (r: Quote)
        ensures
            r@ == Seq::<Token>::empty(),
    {
        Quote { stream: TokenStream::new() }
    }

    /// The stream that was built.
    pub fn finish(self) -> (r: TokenStream)
        ensures
            stream_tokens(r) == self@,
    {
        self.stream
    }

    /// Adds an identifier or a keyword.
    pub fn ident(self, text: &str) -> (r: Quote)
        requires
            is_identifier(text@),
        ensures
            r@ == self@.ident(text),
            r@ == self@.name(text@),
    {
        let mut quote = self;
        append_ident(&mut quote.stream, text);
        quote
    }

    /// Adds a punctuation character that stands alone.
    pub fn punct(self, c: char) -> (r: Quote)
        requires
            is_punct_char(c),
        ensures
            r@ == self@.punct(c),
    {
        let mut quote = self;
        append_punct(&mut quote.stream, c);
        quote
    }

    /// Adds a punctuation character that is joined to the next one.
    pub fn joint(self, c: char) -> (r: Quote)
        requires
            is_punct_char(c),
        ensures
            r@ == self@.joint(c),
    {
        let mut quote = self;
        append_joint(&mut quote.stream, c);
        quote
    }

    /// Adds `( ... )`.
    pub fn parens(self, inner: Quote) -> (r: Quote)
        ensures
            r@ == self@.parens(inner@),
    {
        let mut quote = self;
        append_parens(&mut quote.stream, inner.stream);
        quote
    }

    /// Adds `{ ... }`.
    pub fn braces(self, inner: Quote) -> (r: Quote)
        ensures
            r@ == self@.braces(inner@),
    {
        let mut quote = self;
        append_braces(&mut quote.stream, inner.stream);
        quote
    }

    /// Adds `[ ... ]`.
    pub fn brackets(self, inner: Quote) -> (r: Quote)
        ensures
            r@ == self@.brackets(inner@),
    {
        let mut quote = self;
        append_brackets(&mut quote.stream, inner.stream);
        quote
    }

    /// Adds all the tokens of a stream.
    pub fn stream(self, other: &TokenStream) -> (r: Quote)
        ensures
            r@ == self@.tokens(stream_tokens(*other)),
    {
        let mut quote = self;
        append_stream(&mut quote.stream, other);
        quote
    }

    /// Adds all the tokens of another builder.
    pub fn tokens(self, other: Quote) -> (r: Quote)
        ensures
            r@ == self@.tokens(other@),
    {
        self.stream(&other.stream)
    }

    /// Adds the literal of a string.
    pub fn string(self, value: &str) -> (r: Quote)
        ensures
            r@ == self@.string(value@),
            has_own_literal(value@),
    {
        let mut quote = self;
        append_string(&mut quote.stream, value);
        quote
    }

    /// Adds the raw literal of a string.
    pub fn raw_string(self, value: &str) -> (r: Quote)
        requires
            raw_string_ok(value@),
        ensures
            r@ == self@.raw_string(value@),
    {
        let mut quote = self;
        append_raw_string(&mut quote.stream, value);
        quote
    }

    /// Adds a truth value.
    pub fn bool(self, value: bool) -> (r: Quote)
        ensures
            r@ == self@.push(bool_token(value)),
    {
        let mut quote = self;
        append_bool(&mut quote.stream, value);
        quote
    }

    /// Adds a `u8`.
    pub fn u8(self, value: u8) -> (r: Quote)
        ensures
            r@ == self@.tokens(integer_tokens(value as int, "u8")),
    {
        let mut quote = self;
        append_u8(&mut quote.stream, value);
        quote
    }

    /// Adds a `u16`.
    pub fn u16(self, value: u16) -> (r: Quote)
        ensures
            r@ == self@.tokens(integer_tokens(value as int, "u16")),
    {
        let mut quote = self;
        append_u16(&mut quote.stream, value);
        quote
    }

    /// Adds a `u32`.
    pub fn u32(self, value: u32) -> (r: Quote)
        ensures
            r@ == self@.tokens(integer_tokens(value as int, "u32")),
    {
        let mut quote = self;
        append_u32(&mut quote.stream, value);
        quote
    }

    /// Adds a `u64`.
    pub fn u64(self, value: u64) -> (r: Quote)
        ensures
            r@ == self@.tokens(integer_tokens(value as int, "u64")),
    {
        let mut quote = self;
        append_u64(&mut quote.stream, value);
        quote
    }

    /// Adds a `u128`.
    pub fn u128(self, value: u128) -> (r: Quote)
        ensures
            r@ == self@.tokens(integer_tokens(value as int, "u128")),
    {
        let mut quote = self;
        append_u128(&mut quote.stream, value);
        quote
    }

    /// Adds a `usize`.
    pub fn usize(self, value: usize) -> (r: Quote)
        ensures
            r@ == self@.tokens(integer_tokens(value as int, "usize")),
    {
        let mut quote = self;
        append_usize(&mut quote.stream, value);
        quote
    }

    /// Adds an `i8`.
    pub fn i8(self, value: i8) -> (r: Quote)
        ensures
            r@ == self@.tokens(integer_tokens(value as int, "i8")),
    {
        let mut quote = self;
        append_i8(&mut quote.stream, value);
        quote
    }

    /// Adds an `i16`.
    pub fn i16(self, value: i16) -> (r: Quote)
        ensures
            r@ == self@.tokens(integer_tokens(value as int, "i16")),
    {
        let mut quote = self;
        append_i16(&mut quote.stream, value);
        quote
    }

    /// Adds an `i32`.
    pub fn i32(self, value: i32) -> (r: Quote)
        ensures
            r@ == self@.tokens(integer_tokens(value as int, "i32")),
    {
        let mut quote = self;
        append_i32(&mut quote.stream, value);
        quote
    }

    /// Adds an `i64`.
    pub fn i64(self, value: i64) -> (r: Quote)
        ensures
            r@ == self@.tokens(integer_tokens(value as int, "i64")),
    {
        let mut quote = self;
        append_i64(&mut quote.stream, value);
        quote
    }
}

// -------------------------------------------------------------------------------------------
// Reading a stream

/// One token of a stream, taken out of it.
pub enum Piece {
    /// A group and the stream inside it.
    Group(Delimiter, TokenStream),
    /// An identifier or a keyword.
    Ident(String),
    /// A punctuation character, and whether it is joined to the next one.
    Punct(char, bool),
    /// A literal.
    Literal(String),
}

impl View for Piece {
    type V = Token;

    open spec fn view(&self) -> Token {
        match *self {
            Piece::Group(delimiter, inner) => Token::Group(delimiter, stream_tokens(inner)),
            Piece::Ident(text) => Token::Ident(text@),
            Piece::Punct(c, joined) => Token::Punct(c, joined),
            Piece::Literal(text) => Token::Literal(text@),
        }
    }
}

/// The iterator of a `proc_macro2::TokenStream`: hands out the tokens of the stream, in order. A
/// group comes as its delimiter and its stream, every other token as its text.
#[verifier::external_body]
pub(crate) fn stream_pieces(stream: &TokenStream) -> (pieces: Vec<Piece>)
    ensures
        pieces@.map_values(|piece: Piece| piece@) == stream_tokens(*stream),
{
    let convert = |tree| match tree {
        TokenTree::Group(g) => match g.delimiter() {
            proc_macro2::Delimiter::Parenthesis => Piece::Group(Delimiter::Parenthesis, g.stream()),
            proc_macro2::Delimiter::Brace => Piece::Group(Delimiter::Brace, g.stream()),
            proc_macro2::Delimiter::Bracket => Piece::Group(Delimiter::Bracket, g.stream()),
            proc_macro2::Delimiter::None => Piece::Group(Delimiter::Invisible, g.stream()),
        },
        TokenTree::Ident(i) => Piece::Ident(i.to_string()),
        TokenTree::Punct(p) => {
            Piece::Punct(p.as_char(), p.spacing() == proc_macro2::Spacing::Joint)
        },
        TokenTree::Literal(l) => Piece::Literal(l.to_string()),
    };
    stream.clone().into_iter().map(convert).collect()
}

} // verus!

//! Floating-point numbers, as the literals that write them in code.
use crate::tokens::{stream_pieces, stream_tokens, Piece, Token};
use proc_macro2::TokenStream;
use vstd::prelude::*;

verus! {

/// Whether `text` is a decimal number with that suffix: digits and decimal points, the first of
/// them a digit, and after them the suffix.
pub open spec fn is_float_text(text: Seq<char>, suffix: Seq<char>) -> bool {
    let length = text.len() - suffix.len();
    &&& length > 0
    &&& text.skip(length) == suffix
    &&& '0' <= text[0] <= '9'
    &&& forall|i: int| 0 <= i < length ==> '0' <= #[trigger] text[i] <= '9' || text[i] == '.'
}

/// Whether the tokens are a number with that suffix: a literal, and before it, for a negative
/// number, a minus sign.
pub open spec fn is_float(tokens: Seq<Token>, suffix: Seq<char>) -> bool {
    ||| tokens.len() == 1 && (tokens[0] matches Token::Literal(text) && is_float_text(text, suffix))
    ||| tokens.len() == 2 && tokens[0] == Token::Punct('-', false) && (
        tokens[1] matches Token::Literal(text) && is_float_text(text, suffix))
}

/// The characters of a text.
fn chars_of(text: &str) -> (r: Vec<char>)
    ensures
        r@ == text@,
{
    let mut chars: Vec<char> = Vec::new();
    for c in it: text.chars()
        invariant
            it.seq() == text@,
            chars@ == text@.take(it.index() as int),
    {
        chars.push(c);
        assert(chars@ =~= text@.take(it.index() + 1));
    }
    assert(text@.take(text@.len() as int) =~= text@);
    chars
}

/// Whether `text` is a decimal number with that suffix.
fn check_text(text: &str, suffix: &str) -> (r: bool)
    ensures
        r == is_float_text(text@, suffix@),
{
    let chars = chars_of(text);
    let end = chars_of(suffix);
    if chars.len() <= end.len() {
        return false;
    }
    let length: usize = chars.len() - end.len();
    if !('0' <= chars[0] && chars[0] <= '9') {
        return false;
    }
    let mut i: usize = 0;
    while i < length
        invariant
            i <= length <= chars@.len(),
            length == text@.len() - suffix@.len(),
            chars@ == text@,
            forall|j: int| 0 <= j < i ==> '0' <= #[trigger] text@[j] <= '9' || text@[j] == '.',
        decreases length - i,
    {
        let c = chars[i];
        if !(('0' <= c && c <= '9') || c == '.') {
            assert(c == text@[i as int]);
            return false;
        }
        i = i + 1;
    }
    let mut j: usize = 0;
    while j < end.len()
        invariant
            j <= end@.len(),
            length + end@.len() == chars@.len() <= usize::MAX,
            chars@ == text@,
            end@ == suffix@,
            forall|k: int| 0 <= k < j ==> #[trigger] suffix@[k] == text@[length + k],
        decreases end.len() - j,
    {
        if chars[length + j] != end[j] {
            assert(text@.skip(length as int)[j as int] != suffix@[j as int]);
            return false;
        }
        j = j + 1;
    }
    assert(text@.skip(length as int) =~= suffix@);
    true
}

/// Whether a stream holds a number with that suffix.
fn check(stream: &TokenStream, suffix: &str) -> (r: bool)
    ensures
        r == is_float(stream_tokens(*stream), suffix@),
{
    let pieces = stream_pieces(stream);
    let ghost tokens = pieces@.map_values(|piece: Piece| piece@);
    assert(tokens.len() == pieces@.len());
    if pieces.len() == 1 {
        assert(tokens[0] == pieces@[0]@);
        match &pieces[0] {
            Piece::Literal(text) => check_text(text.as_str(), suffix),
            _ => false,
        }
    } else if pieces.len() == 2 {
        assert(tokens[0] == pieces@[0]@ && tokens[1] == pieces@[1]@);
        match (&pieces[0], &pieces[1]) {
            (Piece::Punct(c, joined), Piece::Literal(text)) => {
                *c == '-' && !*joined && check_text(text.as_str(), suffix)
            },
            _ => false,
        }
    } else {
        false
    }
}

/// A number of type `f32`.
pub struct F32Literal {
    tokens: TokenStream,
}

impl View for F32Literal {
    type V = Seq<Token>;

    closed spec fn view(&self) -> Seq<Token> {
        stream_tokens(self.tokens)
    }
}

impl F32Literal {
    #[verifier::type_invariant]
    spec fn well_formed(self) -> bool {
        is_float(stream_tokens(self.tokens), "f32"@)
    }

    /// Takes tokens as a number, where they are one.
    pub fn new(tokens: TokenStream) -> (r: Option<F32Literal>)
        ensures
            match r {
                Some(literal) => is_float(stream_tokens(tokens), "f32"@) && literal@
                    == stream_tokens(tokens),
                None => !is_float(stream_tokens(tokens), "f32"@),
            },
    {
        if check(&tokens, "f32") {
            Some(F32Literal { tokens })
        } else {
            None
        }
    }

    /// The tokens of the number.
    pub fn tokens(&self) -> (r: &TokenStream)
        ensures
            stream_tokens(*r) == self@,
            is_float(self@, "f32"@),
    {
        proof {
            use_type_invariant(self);
        }
        &self.tokens
    }
}

/// A number of type `f64`.
pub struct F64Literal {
    tokens: TokenStream,
}

impl View for F64Literal {
    type V = Seq<Token>;

    closed spec fn view(&self) -> Seq<Token> {
        stream_tokens(self.tokens)
    }
}

impl F64Literal {
    #[verifier::type_invariant]
    spec fn well_formed(self) -> bool {
        is_float(stream_tokens(self.tokens), "f64"@)
    }

    /// Takes tokens as a number, where they are one.
    pub fn new(tokens: TokenStream) -> (r: Option<F64Literal>)
        ensures
            match r {
                Some(literal) => is_float(stream_tokens(tokens), "f64"@) && literal@
                    == stream_tokens(tokens),
                None => !is_float(stream_tokens(tokens), "f64"@),
            },
    {
        if check(&tokens, "f64") {
            Some(F64Literal { tokens })
        } else {
            None
        }
    }

    /// The tokens of the number.
    pub fn tokens(&self) -> (r: &TokenStream)
        ensures
            stream_tokens(*r) == self@,
            is_float(self@, "f64"@),
    {
        proof {
            use_type_invariant(self);
        }
        &self.tokens
    }
}

/// Every decimal number with the suffix is a number, alone and behind a minus sign.
pub proof fn decimal_numbers_are_numbers(number: Seq<char>, suffix: Seq<char>)
    requires
        number.len() > 0,
        '0' <= number[0] <= '9',
        forall|i: int|
            0 <= i < number.len() ==> '0' <= #[trigger] number[i] <= '9' || number[i] == '.',
    ensures
        is_float(Seq::empty().push(Token::Literal(number + suffix)), suffix),
        is_float(
            Seq::empty().push(Token::Punct('-', false)).push(Token::Literal(number + suffix)),
            suffix,
        ),
{
    let text = number + suffix;
    assert(text.skip(text.len() - suffix.len()) =~= suffix);
    assert forall|i: int| 0 <= i < number.len() implies '0' <= #[trigger] text[i] <= '9' || text[i]
        == '.' by {
        assert(text[i] == number[i]);
    }
    assert(is_float_text(text, suffix));
}

/// A number is a literal, alone or behind a minus sign, that is made of digits and decimal points,
/// the first of them a digit, and the suffix.
pub proof fn numbers_are_decimal_numbers(tokens: Seq<Token>, suffix: Seq<char>) -> (number: Seq<
    char,
>)
    requires
        is_float(tokens, suffix),
    ensures
        tokens.last() == Token::Literal(number + suffix),
        tokens.len() == 1 || tokens.len() == 2 && tokens[0] == Token::Punct('-', false),
        number.len() > 0,
        '0' <= number[0] <= '9',
        forall|i: int|
            0 <= i < number.len() ==> '0' <= #[trigger] number[i] <= '9' || number[i] == '.',
{
    let text = tokens.last()->Literal_0;
    let number = text.take(text.len() - suffix.len());
    assert(number + text.skip(text.len() - suffix.len()) =~= text);
    assert forall|i: int| 0 <= i < number.len() implies '0' <= #[trigger] number[i] <= '9'
        || number[i] == '.' by {
        assert(number[i] == text[i]);
    }
    number
}

} // verus!

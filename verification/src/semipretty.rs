//! A one-line formatter for token streams.
use crate::tokens::{stream_pieces, stream_tokens, Delimiter, Piece, Token};
use proc_macro2::TokenStream;
use vstd::prelude::*;

verus! {

/// What is written before the tokens of a group.
pub open spec fn opening(delimiter: Delimiter) -> Seq<char> {
    match delimiter {
        Delimiter::Parenthesis => seq!['('],
        Delimiter::Brace => seq!['{'],
        Delimiter::Bracket => seq!['['],
        Delimiter::Invisible => seq![],
    }
}

/// What is written after the tokens of a group.
pub open spec fn closing(delimiter: Delimiter) -> Seq<char> {
    match delimiter {
        Delimiter::Parenthesis => seq![')'],
        Delimiter::Brace => seq!['}'],
        Delimiter::Bracket => seq![']'],
        Delimiter::Invisible => seq![],
    }
}

/// The text of one token. A comma is followed by a space; no other token is.
pub open spec fn token_text(token: Token) -> Seq<char>
    decreases token,
{
    match token {
        Token::Ident(text) => text,
        Token::Punct(c, _) => if c == ',' {
            seq![c, ' ']
        } else {
            seq![c]
        },
        Token::Literal(text) => text,
        Token::Group(delimiter, inner) => opening(delimiter) + semipretty(inner) + closing(
            delimiter,
        ),
    }
}

/// The text of a stream: the texts of its tokens one after the other.
pub open spec fn semipretty(tokens: Seq<Token>) -> Seq<char>
    decreases tokens,
{
    if tokens.len() == 0 {
        seq![]
    } else {
        semipretty(tokens.drop_last()) + token_text(tokens.last())
    }
}

/// Very, very basic one-line formatter for token streams
pub struct SemiprettyTokenStream(pub TokenStream);

impl SemiprettyTokenStream {
    /// The formatted stream.
    pub fn text(&self) -> (text: String)
        ensures
            text@ == semipretty(stream_tokens(self.0)),
    {
        let mut text = String::new();
        write_stream(&mut text, &self.0);
        assert(text@ =~= semipretty(stream_tokens(self.0)));
        text
    }
}

/// Appends the text of `stream` to `out`.
pub fn write_stream(out: &mut String, stream: &TokenStream)
    ensures
        final(out)@ == old(out)@ + semipretty(stream_tokens(*stream)),
    decreases stream_tokens(*stream),
{
    let ghost tokens = stream_tokens(*stream);
    let ghost start = out@;
    let pieces = stream_pieces(stream);
    let ghost views = pieces@.map_values(|piece: Piece| piece@);
    let mut i: usize = 0;
    assert(out@ =~= start + semipretty(tokens.take(0)));
    while i < pieces.len()
        invariant
            i <= pieces.len(),
            views == tokens,
            views == pieces@.map_values(|piece: Piece| piece@),
            tokens == stream_tokens(*stream),
            out@ == start + semipretty(tokens.take(i as int)),
        decreases pieces.len() - i,
    {
        assert(pieces@[i as int]@ == tokens[i as int]);
        write_piece(out, &pieces[i]);
        assert(tokens.take(i + 1).drop_last() =~= tokens.take(i as int));
        assert(tokens.take(i + 1).last() == tokens[i as int]);
        assert(out@ =~= start + semipretty(tokens.take(i + 1)));
        i = i + 1;
    }
    assert(tokens.take(tokens.len() as int) =~= tokens);
}

/// Appends the text of one token to `out`.
fn write_piece(out: &mut String, piece: &Piece)
    ensures
        final(out)@ == old(out)@ + token_text(piece@),
    decreases piece@,
{
    match piece {
        Piece::Group(delimiter, inner) => {
            match delimiter {
                Delimiter::Parenthesis => out.push('('),
                Delimiter::Brace => out.push('{'),
                Delimiter::Bracket => out.push('['),
                Delimiter::Invisible => {},
            }
            assert(out@ =~= old(out)@ + opening(*delimiter));
            write_stream(out, inner);
            let ghost written = out@;
            match delimiter {
                Delimiter::Parenthesis => out.push(')'),
                Delimiter::Brace => out.push('}'),
                Delimiter::Bracket => out.push(']'),
                Delimiter::Invisible => {},
            }
            assert(out@ =~= written + closing(*delimiter));
        },
        Piece::Ident(text) => out.append(text.as_str()),
        Piece::Punct(c, _) => {
            out.push(*c);
            if *c == ',' {
                out.push(' ');
            }
        },
        Piece::Literal(text) => out.append(text.as_str()),
    }
    assert(out@ =~= old(out)@ + token_text(piece@));
}

/// A stream without tokens has no text, and one token reads as itself: a comma with a space behind
/// it, a group with its delimiters around what stands in it, any other token as its text alone.
pub proof fn one_token_reads_as_itself(token: Token)
    ensures
        semipretty(Seq::empty()).len() == 0,
        ({
            let text = semipretty(Seq::empty().push(token));
            match token {
                Token::Ident(name) => text == name,
                Token::Literal(literal) => text == literal,
                Token::Punct(c, _) => {
                    &&& text[0] == c
                    &&& text.len() == if c == ',' { 2nat } else { 1nat }
                    &&& c == ',' ==> text[1] == ' '
                },
                Token::Group(delimiter, inner) => match delimiter {
                    Delimiter::Invisible => text == semipretty(inner),
                    _ => {
                        &&& text.len() == semipretty(inner).len() + 2
                        &&& text.subrange(1, text.len() - 1) == semipretty(inner)
                        &&& delimiter is Parenthesis ==> text[0] == '(' && text.last() == ')'
                        &&& delimiter is Brace ==> text[0] == '{' && text.last() == '}'
                        &&& delimiter is Bracket ==> text[0] == '[' && text.last() == ']'
                    },
                },
            }
        }),
{
    let one = Seq::empty().push(token);
    assert(one.drop_last() =~= Seq::<Token>::empty());
    assert(one.last() == token);
    assert(semipretty(one.drop_last()) =~= Seq::<char>::empty());
    assert(semipretty(one) =~= token_text(token)) by {
        assert(semipretty(one) == semipretty(one.drop_last()) + token_text(one.last()));
    }
    match token {
        Token::Group(delimiter, inner) => {
            let text = token_text(token);
            match delimiter {
                Delimiter::Invisible => assert(text =~= semipretty(inner)),
                _ => assert(text.subrange(1, text.len() - 1) =~= semipretty(inner)),
            }
        },
        _ => {},
    }
}

/// Two streams one after the other read as their texts one after the other.
pub proof fn semipretty_concatenates(left: Seq<Token>, right: Seq<Token>)
    ensures
        semipretty(left + right) == semipretty(left) + semipretty(right),
    decreases right.len(),
{
    if right.len() == 0 {
        assert(left + right =~= left);
        assert(semipretty(right) =~= Seq::<char>::empty());
        assert(semipretty(left) + semipretty(right) =~= semipretty(left));
    } else {
        assert((left + right).drop_last() =~= left + right.drop_last());
        semipretty_concatenates(left, right.drop_last());
        assert(semipretty(left + right) =~= semipretty(left) + semipretty(right));
    }
}

} // verus!

//! Reading tokens: the vocabulary in which the laws on generated code are stated, and how lists of
//! tokens come apart.
use crate::text::joined;
use crate::tokens::{
    comma_separated, comma_terminated, concatenated, is_identifier, string_literal, Delimiter,
    Template, Token,
};
use vstd::prelude::*;

verus! {

/// A word.
pub open spec fn word(text: &str) -> Token {
    Token::Ident(text@)
}

/// A punctuation character that stands alone.
pub open spec fn sign(c: char) -> Token {
    Token::Punct(c, false)
}

/// A punctuation character that is joined to the next one.
pub open spec fn joined_sign(c: char) -> Token {
    Token::Punct(c, true)
}

/// Whether a token is a group between those delimiters.
pub open spec fn is_group(token: Token, delimiter: Delimiter) -> bool {
    token is Group && token->Group_0 == delimiter
}

/// What stands in a group.
pub open spec fn content(token: Token) -> Seq<Token> {
    token->Group_1
}

/// Whether a token is `()`.
pub open spec fn is_unit(token: Token) -> bool {
    is_group(token, Delimiter::Parenthesis) && content(token).len() == 0
}

/// Whether two tokens at a place are `::`.
pub open spec fn is_path_sign(tokens: Seq<Token>, at: int) -> bool {
    tokens[at] == joined_sign(':') && tokens[at + 1] == sign(':')
}

/// Whether two tokens at a place are `->`.
pub open spec fn is_arrow(tokens: Seq<Token>, at: int) -> bool {
    tokens[at] == joined_sign('-') && tokens[at + 1] == sign('>')
}

/// Whether two tokens at a place are `#[doc = "text"]`.
pub open spec fn is_documentation(tokens: Seq<Token>, at: int, text: Seq<char>) -> bool {
    let inner = content(tokens[at + 1]);
    &&& tokens[at] == sign('#')
    &&& is_group(tokens[at + 1], Delimiter::Bracket)
    &&& inner.len() == 3
    &&& inner[0] == word("doc")
    &&& inner[1] == sign('=')
    &&& inner[2] == Token::Literal(string_literal(text))
}

/// Whether two tokens at a place are `#[doc = r"text"]`.
pub open spec fn is_raw_documentation(tokens: Seq<Token>, at: int, text: Seq<char>) -> bool {
    let inner = content(tokens[at + 1]);
    &&& tokens[at] == sign('#')
    &&& is_group(tokens[at + 1], Delimiter::Bracket)
    &&& inner.len() == 3
    &&& inner[0] == word("doc")
    &&& inner[1] == sign('=')
    &&& inner[2] == Token::Literal(seq!['r', '"'] + text + seq!['"'])
}

/// Whether two tokens at a place are `#[allow(lint)]`.
pub open spec fn allows(tokens: Seq<Token>, at: int, lint: &str) -> bool {
    let inner = content(tokens[at + 1]);
    &&& tokens[at] == sign('#')
    &&& is_group(tokens[at + 1], Delimiter::Bracket)
    &&& inner.len() == 2
    &&& inner[0] == word("allow")
    &&& is_group(inner[1], Delimiter::Parenthesis)
    &&& content(inner[1]).len() == 1
    &&& content(inner[1])[0] == word(lint)
}

/// Whether two tokens at a place are `#[allow(clippy::lint)]`.
pub open spec fn allows_in_clippy(tokens: Seq<Token>, at: int, lint: &str) -> bool {
    let inner = content(tokens[at + 1]);
    let named = content(inner[1]);
    &&& tokens[at] == sign('#')
    &&& is_group(tokens[at + 1], Delimiter::Bracket)
    &&& inner.len() == 2
    &&& inner[0] == word("allow")
    &&& is_group(inner[1], Delimiter::Parenthesis)
    &&& named.len() == 4
    &&& named[0] == word("clippy")
    &&& is_path_sign(named, 1)
    &&& named[3] == word(lint)
}

/// Whether tokens are the call of a path without arguments.
pub open spec fn calls(tokens: Seq<Token>, path: Seq<Token>) -> bool {
    &&& tokens.len() == path.len() + 1
    &&& tokens.take(path.len() as int) == path
    &&& is_unit(tokens.last())
}

/// Whether tokens are `&` and the call of a path without arguments.
pub open spec fn refers_to(tokens: Seq<Token>, path: Seq<Token>) -> bool {
    tokens.len() > 0 && tokens[0] == sign('&') && calls(tokens.skip(1), path)
}

/// Whether tokens come apart into the parts, one after the other and nothing else.
pub open spec fn comes_apart(tokens: Seq<Token>, parts: Seq<Seq<Token>>) -> bool {
    tokens == parts.flatten()
}

/// Whether tokens come apart into the parts at commas: with a comma behind the tokens, each part
/// has a comma behind it.
pub open spec fn comes_apart_at_commas(tokens: Seq<Token>, parts: Seq<Seq<Token>>) -> bool {
    if parts.len() == 0 {
        tokens.len() == 0
    } else {
        tokens.push(sign(',')) == with_commas(parts).flatten()
    }
}

/// The parts, each with a comma behind it.
pub open spec fn with_commas(parts: Seq<Seq<Token>>) -> Seq<Seq<Token>> {
    parts.map_values(|part: Seq<Token>| part.push(sign(',')))
}

/// Parts that are written one after the other come apart into these parts.
pub proof fn concatenations_come_apart(parts: Seq<Seq<Token>>)
    ensures
        comes_apart(concatenated(parts), parts),
    decreases parts.len(),
{
    if parts.len() > 0 {
        concatenations_come_apart(parts.drop_last());
        parts.drop_last().lemma_flatten_push(parts.last());
        assert(parts.drop_last().push(parts.last()) =~= parts);
    }
}

/// Parts that are written with a comma behind each come apart into these parts.
pub proof fn terminated_lists_come_apart(parts: Seq<Seq<Token>>)
    ensures
        comma_terminated(parts) == with_commas(parts).flatten(),
    decreases parts.len(),
{
    if parts.len() > 0 {
        let rest = parts.drop_last();
        terminated_lists_come_apart(rest);
        with_commas(rest).lemma_flatten_push(parts.last().push(sign(',')));
        assert(with_commas(rest).push(parts.last().push(sign(','))) =~= with_commas(parts));
        assert(comma_terminated(parts) =~= comma_terminated(rest) + parts.last().push(sign(',')));
    }
}

/// Parts that are written with commas between them come apart into these parts at the commas.
pub proof fn separated_lists_come_apart(parts: Seq<Seq<Token>>)
    ensures
        comes_apart_at_commas(comma_separated(parts), parts),
    decreases parts.len(),
{
    if parts.len() == 1 {
        with_commas(parts).lemma_flatten_one_element();
        assert(with_commas(parts).first() == parts[0].push(sign(',')));
    } else if parts.len() > 1 {
        let rest = parts.drop_last();
        separated_lists_come_apart(rest);
        with_commas(rest).lemma_flatten_push(parts.last().push(sign(',')));
        assert(with_commas(rest).push(parts.last().push(sign(','))) =~= with_commas(parts));
        assert(comma_separated(parts).push(sign(',')) =~= comma_separated(rest).push(sign(','))
            + parts.last().push(sign(',')));
    }
}

/// Parts of one length: the part at place `i` stands behind `i` times that length.
pub proof fn equal_parts_stand_in_order(parts: Seq<Seq<Token>>, length: nat)
    requires
        forall|i: int| 0 <= i < parts.len() ==> (#[trigger] parts[i]).len() == length,
    ensures
        parts.flatten().len() == parts.len() * length,
        forall|i: int, k: int|
            0 <= i < parts.len() && 0 <= k < length ==> parts.flatten()[i * length + k]
                == #[trigger] parts[i][k],
    decreases parts.len(),
{
    if parts.len() > 0 {
        let rest = parts.drop_last();
        let n = rest.len();
        assert forall|i: int| 0 <= i < n implies (#[trigger] rest[i]).len() == length by {
            assert(rest[i] == parts[i]);
        }
        equal_parts_stand_in_order(rest, length);
        rest.lemma_flatten_push(parts.last());
        assert(rest.push(parts.last()) =~= parts);
        assert(parts.flatten() == rest.flatten() + parts.last());
        assert(parts.len() * length == n * length + length) by (nonlinear_arith)
            requires
                parts.len() == n + 1,
        ;
        assert forall|i: int, k: int|
            0 <= i < parts.len() && 0 <= k < length implies parts.flatten()[i * length + k]
            == #[trigger] parts[i][k] by {
            if i < n {
                assert(rest[i] == parts[i]);
                assert(0 <= i * length + k < n * length) by (nonlinear_arith)
                    requires
                        0 <= i < n,
                        0 <= k < length,
                ;
                assert(rest.flatten()[i * length + k] == rest[i][k]);
            }
        }
    }
}

/// Texts that are joined come apart at the separators: with a separator behind the whole, each text
/// has one behind it.
pub proof fn joined_texts_come_apart(parts: Seq<Seq<char>>, separator: Seq<char>)
    ensures
        parts.len() == 0 ==> joined(parts, separator).len() == 0,
        parts.len() > 0 ==> joined(parts, separator) + separator == parts.map_values(
            |part: Seq<char>| part + separator,
        ).flatten(),
    decreases parts.len(),
{
    let ended = parts.map_values(|part: Seq<char>| part + separator);
    if parts.len() == 1 {
        ended.lemma_flatten_one_element();
    } else if parts.len() > 1 {
        let rest = parts.drop_last();
        let rest_ended = rest.map_values(|part: Seq<char>| part + separator);
        joined_texts_come_apart(rest, separator);
        rest_ended.lemma_flatten_push(parts.last() + separator);
        assert(rest_ended.push(parts.last() + separator) =~= ended);
        assert(joined(parts, separator) + separator =~= (joined(rest, separator) + separator) + (
        parts.last() + separator));
    }
}

/// The identifiers are the texts of ASCII letters, digits and underscores that are not empty and do
/// not start with a digit. With more of these characters behind it, an identifier is still one.
pub proof fn identifiers_are_made_of_letters(text: Seq<char>, more: Seq<char>)
    ensures
        is_identifier(text) ==> text.len() > 0 && !('0' <= text[0] <= '9'),
        is_identifier(text) ==> forall|i: int|
            0 <= i < text.len() ==> {
                ||| 'a' <= #[trigger] text[i] <= 'z'
                ||| 'A' <= text[i] <= 'Z'
                ||| '0' <= text[i] <= '9'
                ||| text[i] == '_'
            },
        is_identifier(text) && (forall|i: int|
            0 <= i < more.len() ==> {
                ||| 'a' <= #[trigger] more[i] <= 'z'
                ||| 'A' <= more[i] <= 'Z'
                ||| '0' <= more[i] <= '9'
                ||| more[i] == '_'
            }) ==> is_identifier(text + more),
        text.len() == 1 && (text[0] == '_' || 'a' <= text[0] <= 'z' || 'A' <= text[0] <= 'Z')
            ==> is_identifier(text),
{
    let all = text + more;
    if text.len() > 0 {
        assert(all[0] == text[0]);
    }
}

} // verus!

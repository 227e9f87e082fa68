//! Tokens: a text cut into identifiers, punctuation, literals and delimited
//! groups, and tokens written back out as text.

use crate::text::lemma_deep_view_push;
use proc_macro2::{Delimiter as Brackets, Spacing, TokenStream, TokenTree};
use std::str::FromStr;
use vstd::prelude::*;
use vstd::string::StringExecFns;

verus! {

/// The brackets around a group.
#[derive(Clone, Copy, Debug, PartialEq, Eq, Structural)]
pub enum Delimiter {
    Parenthesis,
    Brace,
    Bracket,
    /// A group without brackets of its own.
    Invisible,
}

/// One token. A group is one token: what stands between its brackets is
/// kept as text.
#[derive(Clone, Debug, PartialEq, Eq)]
pub enum Token {
    Ident(String),
    /// One punctuation character; `joint` where the next token follows it
    /// without a gap, as the first `:` of `::` does.
    Punct { ch: char, joint: bool },
    Literal(String),
    Group { delimiter: Delimiter, inner: String },
}

/// The view of `Token` that contracts speak of: every text as its sequence of
/// characters.
pub enum TokenView {
    Ident(Seq<char>),
    Punct { ch: char, joint: bool },
    Literal(Seq<char>),
    Group { delimiter: Delimiter, inner: Seq<char> },
}

impl DeepView for Token {
    type V = TokenView;

    open spec fn deep_view(&self) -> TokenView {
        match self {
            Token::Ident(name) => TokenView::Ident(name@),
            Token::Punct { ch, joint } => TokenView::Punct { ch: *ch, joint: *joint },
            Token::Literal(text) => TokenView::Literal(text@),
            Token::Group { delimiter, inner } => TokenView::Group {
                delimiter: *delimiter,
                inner: inner@,
            },
        }
    }
}

/// Calls `proc_macro2::TokenStream::from_str`, which gives `None` here where
/// it reports an error. Nothing is claimed of what the lexer makes of a text:
/// inside a procedural macro the compiler lexes and prints, elsewhere the
/// outside crate itself does, and the two print differently. The printing of
/// groups goes as deep as the groups are nested, with no limit but the stack.
/// Of an identifier and a literal the token keeps what `to_string` prints, of
/// a punctuation `as_char` and whether `spacing` is `Joint`, of a group its
/// `delimiter` and what `to_string` prints of its `stream`.
#[verifier::external_body]
pub(crate) fn lex(text: &str) -> (tokens: Option<Vec<Token>>) {
    let stream = TokenStream::from_str(text).ok()?;
    Some(stream.into_iter().map(|tree| match tree {
        TokenTree::Ident(ident) => Token::Ident(ident.to_string()),
        TokenTree::Literal(literal) => Token::Literal(literal.to_string()),
        TokenTree::Punct(punct) => Token::Punct { ch: punct.as_char(), joint: match punct.spacing() {
            Spacing::Joint => true,
            Spacing::Alone => false,
        } },
        TokenTree::Group(group) => Token::Group { inner: group.stream().to_string(), delimiter: match group.delimiter() {
            Brackets::Parenthesis => Delimiter::Parenthesis,
            Brackets::Brace => Delimiter::Brace,
            Brackets::Bracket => Delimiter::Bracket,
            Brackets::None => Delimiter::Invisible,
        } },
    }).collect())
}

/// `String::push` appends the character to the end of the string.
pub assume_specification[ String::push ](text: &mut String, ch: char)
    ensures
        final(text)@ == old(text)@.push(ch),
;

/// The bracket that opens a group.
pub open spec fn opening(delimiter: Delimiter) -> Seq<char> {
    match delimiter {
        Delimiter::Parenthesis => "("@,
        Delimiter::Brace => "{"@,
        Delimiter::Bracket => "["@,
        Delimiter::Invisible => " "@,
    }
}

/// The bracket that closes a group.
pub open spec fn closing(delimiter: Delimiter) -> Seq<char> {
    match delimiter {
        Delimiter::Parenthesis => ")"@,
        Delimiter::Brace => "}"@,
        Delimiter::Bracket => "]"@,
        Delimiter::Invisible => " "@,
    }
}

impl TokenView {
    /// The token written out. A group is its content between its brackets.
    pub open spec fn text(self) -> Seq<char> {
        match self {
            TokenView::Ident(name) => name,
            TokenView::Literal(text) => text,
            TokenView::Punct { ch, .. } => seq![ch],
            TokenView::Group { delimiter, inner } => opening(delimiter) + " "@ + inner + " "@
                + closing(delimiter),
        }
    }

    /// Whether the next token follows without a gap.
    pub open spec fn glued(self) -> bool {
        self matches TokenView::Punct { joint, .. } && joint
    }

    /// Whether the token is the punctuation character `ch`.
    pub open spec fn is_punct(self, ch: char) -> bool {
        self matches TokenView::Punct { ch: own, .. } && own == ch
    }
}

/// The tokens written out in order: a space after each token but a joint
/// punctuation.
pub open spec fn rendered(tokens: Seq<TokenView>) -> Seq<char>
    decreases tokens.len(),
{
    if tokens.len() == 0 {
        Seq::empty()
    } else {
        let before = rendered(tokens.drop_last()) + tokens.last().text();
        if tokens.last().glued() {
            before
        } else {
            before + " "@
        }
    }
}

impl Token {
    /// Whether the token is the punctuation character `ch`.
    pub fn is_punct(&self, ch: char) -> (yes: bool)
        ensures
            yes == self.deep_view().is_punct(ch),
    {
        match self {
            Token::Punct { ch: own, .. } => *own == ch,
            _ => false,
        }
    }

    /// Appends the token, written out, to `text`.
    pub fn write(&self, text: &mut String)
        ensures
            final(text)@ == old(text)@ + self.deep_view().text(),
    {
        match self {
            Token::Ident(name) => {
                text.append(name.as_str());
            },
            Token::Literal(literal) => {
                text.append(literal.as_str());
            },
            Token::Punct { ch, .. } => {
                text.push(*ch);
            },
            Token::Group { delimiter, inner } => {
                match delimiter {
                    Delimiter::Parenthesis => text.append("("),
                    Delimiter::Brace => text.append("{"),
                    Delimiter::Bracket => text.append("["),
                    Delimiter::Invisible => text.append(" "),
                }
                text.append(" ");
                text.append(inner.as_str());
                text.append(" ");
                match delimiter {
                    Delimiter::Parenthesis => text.append(")"),
                    Delimiter::Brace => text.append("}"),
                    Delimiter::Bracket => text.append("]"),
                    Delimiter::Invisible => text.append(" "),
                }
            },
        }
    }
}

/// Writes out the tokens from position `from` up to position `to`.
pub fn render(tokens: &Vec<Token>, from: usize, to: usize) -> (text: String)
    requires
        from <= to <= tokens.len(),
    ensures
        text@ == rendered(tokens.deep_view().subrange(from as int, to as int)),
{
    let ghost all = tokens.deep_view();
    let mut text = String::new();
    let mut i: usize = from;
    while i < to
        invariant
            from <= i <= to <= tokens.len(),
            all == tokens.deep_view(),
            text@ == rendered(all.subrange(from as int, i as int)),
        decreases to - i,
    {
        let ghost done = all.subrange(from as int, i as int);
        let ghost next = all.subrange(from as int, i + 1);
        assert(next.drop_last() =~= done);
        tokens[i].write(&mut text);
        let glued = match &tokens[i] {
            Token::Punct { joint, .. } => *joint,
            _ => false,
        };
        if !glued {
            text.append(" ");
        }
        i += 1;
    }
    text
}

impl Token {
    /// A copy of the token.
    pub fn copy(&self) -> (token: Token)
        ensures
            token.deep_view() == self.deep_view(),
    {
        match self {
            Token::Ident(name) => Token::Ident(name.clone()),
            Token::Literal(text) => Token::Literal(text.clone()),
            Token::Punct { ch, joint } => Token::Punct { ch: *ch, joint: *joint },
            Token::Group { delimiter, inner } => Token::Group {
                delimiter: *delimiter,
                inner: inner.clone(),
            },
        }
    }
}

/// A copy of the tokens from position `from` up to position `to`.
pub fn copy_tokens(tokens: &Vec<Token>, from: usize, to: usize) -> (copy: Vec<Token>)
    requires
        from <= to <= tokens.len(),
    ensures
        copy.deep_view() == tokens.deep_view().subrange(from as int, to as int),
{
    let mut copy: Vec<Token> = Vec::new();
    let mut i: usize = from;
    while i < to
        invariant
            from <= i <= to <= tokens.len(),
            copy.deep_view() =~= tokens.deep_view().subrange(from as int, i as int),
        decreases to - i,
    {
        let ghost before = copy;
        let token = tokens[i].copy();
        let ghost pushed = token;
        copy.push(token);
        proof {
            lemma_deep_view_push(before, pushed, copy);
        }
        i += 1;
    }
    copy
}

} // verus!

//! The parser: from tokens to a syntax tree.
//!
//! The grammar, with `*` for repetition and `?` for an optional part:
//!
//! ```text
//! Program    := Statement*
//! Statement  := Expression ';'?
//! Expression := Postfix (('==' | '!=' | '===' | '!==') Postfix)*
//! Postfix    := Primary ('.' Identifier | '[' Expression ']' | '(' List ')')*
//! Primary    := Number | String | Identifier | 'true' | 'false' | 'null'
//!             | '(' Expression ')' | '[' List ']' | '{' Members '}' | Arrow
//! List       := (Expression (',' Expression)*)?
//! Members    := (Name ':' Expression (',' Name ':' Expression)*)?
//! Name       := Identifier | String | Number
//! Arrow      := (Identifier | '(' (Identifier (',' Identifier)*)? ')') '=>' Body
//! Body       := '{' Statement* '}' | Expression
//! ```
//!
//! Every step into a part of the grammar spends one unit of fuel, so that a
//! program that is nested too deeply is refused.

use vstd::prelude::*;
use crate::syntax::ast::{
    lemma_member_models_push, lemma_node_models_push, lemma_texts_push, member_models, node_model,
    node_models, texts, CompareOp, Node, NodeView,
};
use crate::syntax::lexer::{Punctuator, Token};
use crate::text::{decimal, signed_decimal, signed_to_string};

verus! {

/// Why a sequence of tokens is no program; with the index of the token.
#[derive(Clone, Copy, Debug, PartialEq, Eq, Structural)]
pub enum ParseError {
    /// A token that cannot stand where it stands.
    UnexpectedToken(usize),
    /// The tokens end where more are needed.
    UnexpectedEnd,
    /// The program is nested too deeply.
    TooDeep,
}

/// The source from `start` up to `end`; nothing where that is no range of
/// the source.
pub open spec fn span(src: Seq<char>, start: usize, end: usize) -> Seq<char> {
    if start <= end <= src.len() {
        src.subrange(start as int, end as int)
    } else {
        Seq::empty()
    }
}

/// The token at `pos` is the punctuator `p`.
pub open spec fn is_punctuator(tokens: Seq<Token>, pos: nat, p: Punctuator) -> bool {
    pos < tokens.len() && tokens[pos as int] == Token::Punctuator(p)
}

/// The comparison operator that the token at `pos` is, if it is one.
pub open spec fn comparison_at(tokens: Seq<Token>, pos: nat) -> Option<CompareOp> {
    if pos < tokens.len() {
        match tokens[pos as int] {
            Token::Punctuator(Punctuator::Equal) => Some(CompareOp::Equal),
            Token::Punctuator(Punctuator::NotEqual) => Some(CompareOp::NotEqual),
            Token::Punctuator(Punctuator::StrictEqual) => Some(CompareOp::StrictEqual),
            Token::Punctuator(Punctuator::StrictNotEqual) => Some(CompareOp::StrictNotEqual),
            _ => None,
        }
    } else {
        None
    }
}

/// The name that the token at `pos` gives a member of an object literal: the
/// text of an identifier or string, or a number in decimal notation.
pub open spec fn member_name_at(src: Seq<char>, tokens: Seq<Token>, pos: nat) -> Option<Seq<char>> {
    if pos < tokens.len() {
        match tokens[pos as int] {
            Token::Identifier(a, b) => Some(span(src, a, b)),
            Token::Text(a, b) => Some(span(src, a, b)),
            Token::Number(n) => Some(signed_decimal(n as int)),
            _ => None,
        }
    } else {
        None
    }
}

/// The error for the token at `pos` where it cannot stand, or for the end of
/// the tokens.
pub open spec fn unexpected(tokens: Seq<Token>, pos: nat) -> ParseError {
    if pos < tokens.len() && pos <= usize::MAX {
        ParseError::UnexpectedToken(pos as usize)
    } else {
        ParseError::UnexpectedEnd
    }
}

/// The node that an identifier stands for: a keyword or a name.
pub open spec fn identifier_node(text: Seq<char>) -> NodeView {
    if text == "true"@ {
        NodeView::Bool(true)
    } else if text == "false"@ {
        NodeView::Bool(false)
    } else if text == "null"@ {
        NodeView::Null
    } else {
        NodeView::Local(text)
    }
}

/// The parameters of an arrow function whose parameter list goes on at
/// `pos`, and the position after its arrow; nothing where the tokens are no
/// parameter list followed by an arrow.
pub open spec fn parameter_items(
    src: Seq<char>,
    tokens: Seq<Token>,
    acc: Seq<Seq<char>>,
    pos: nat,
) -> Option<(Seq<Seq<char>>, nat)>
    decreases tokens.len() - pos,
{
    if pos < tokens.len() {
        match tokens[pos as int] {
            Token::Identifier(a, b) => {
                if is_punctuator(tokens, pos + 1, Punctuator::Comma) {
                    parameter_items(src, tokens, acc.push(span(src, a, b)), pos + 2)
                } else if is_punctuator(tokens, pos + 1, Punctuator::CloseParen) && is_punctuator(
                    tokens,
                    pos + 2,
                    Punctuator::Arrow,
                ) {
                    Some((acc.push(span(src, a, b)), pos + 3))
                } else {
                    None
                }
            },
            _ => None,
        }
    } else {
        None
    }
}

/// The parameters of an arrow function whose parameter list starts after the
/// parenthesis before `pos`, and the position after its arrow.
pub open spec fn arrow_parameters(src: Seq<char>, tokens: Seq<Token>, pos: nat) -> Option<
    (Seq<Seq<char>>, nat),
> {
    if is_punctuator(tokens, pos, Punctuator::CloseParen) {
        if is_punctuator(tokens, pos + 1, Punctuator::Arrow) {
            Some((Seq::empty(), pos + 2))
        } else {
            None
        }
    } else {
        parameter_items(src, tokens, Seq::empty(), pos)
    }
}

/// Statements from `pos` on, after those of `acc`: up to the end of the
/// tokens or, where `nested`, up to a closing brace, which is passed.
pub open spec fn statements(
    src: Seq<char>,
    tokens: Seq<Token>,
    acc: Seq<NodeView>,
    pos: nat,
    fuel: nat,
    nested: bool,
) -> Result<(Seq<NodeView>, nat), ParseError>
    decreases fuel,
{
    if fuel == 0 {
        Err(ParseError::TooDeep)
    } else if pos >= tokens.len() {
        if nested {
            Err(ParseError::UnexpectedEnd)
        } else {
            Ok((acc, pos))
        }
    } else if is_punctuator(tokens, pos, Punctuator::Semicolon) {
        statements(src, tokens, acc, pos + 1, (fuel - 1) as nat, nested)
    } else if nested && is_punctuator(tokens, pos, Punctuator::CloseBrace) {
        Ok((acc, pos + 1))
    } else {
        match expression(src, tokens, pos, (fuel - 1) as nat) {
            Err(e) => Err(e),
            Ok((node, next)) => statements(src, tokens, acc.push(node), next, (fuel - 1) as nat, nested),
        }
    }
}

/// An expression that starts at `pos`, and the position after it.
pub open spec fn expression(src: Seq<char>, tokens: Seq<Token>, pos: nat, fuel: nat) -> Result<
    (NodeView, nat),
    ParseError,
>
    decreases fuel,
{
    if fuel == 0 {
        Err(ParseError::TooDeep)
    } else {
        match postfix(src, tokens, pos, (fuel - 1) as nat) {
            Err(e) => Err(e),
            Ok((left, next)) => comparisons(src, tokens, left, next, (fuel - 1) as nat),
        }
    }
}

/// The comparisons that go on at `pos` after the operand `left`.
pub open spec fn comparisons(
    src: Seq<char>,
    tokens: Seq<Token>,
    left: NodeView,
    pos: nat,
    fuel: nat,
) -> Result<(NodeView, nat), ParseError>
    decreases fuel,
{
    if fuel == 0 {
        Err(ParseError::TooDeep)
    } else {
        match comparison_at(tokens, pos) {
            None => Ok((left, pos)),
            Some(op) => match postfix(src, tokens, pos + 1, (fuel - 1) as nat) {
                Err(e) => Err(e),
                Ok((right, next)) => comparisons(
                    src,
                    tokens,
                    NodeView::Compare(op, Box::new(left), Box::new(right)),
                    next,
                    (fuel - 1) as nat,
                ),
            },
        }
    }
}

/// A primary expression with the accesses and calls that follow it.
pub open spec fn postfix(src: Seq<char>, tokens: Seq<Token>, pos: nat, fuel: nat) -> Result<
    (NodeView, nat),
    ParseError,
>
    decreases fuel,
{
    if fuel == 0 {
        Err(ParseError::TooDeep)
    } else {
        match primary(src, tokens, pos, (fuel - 1) as nat) {
            Err(e) => Err(e),
            Ok((node, next)) => accesses(src, tokens, node, next, (fuel - 1) as nat),
        }
    }
}

/// The accesses and calls that go on at `pos` after the expression `node`.
pub open spec fn accesses(
    src: Seq<char>,
    tokens: Seq<Token>,
    node: NodeView,
    pos: nat,
    fuel: nat,
) -> Result<(NodeView, nat), ParseError>
    decreases fuel,
{
    if fuel == 0 {
        Err(ParseError::TooDeep)
    } else if is_punctuator(tokens, pos, Punctuator::Dot) {
        if pos + 1 < tokens.len() {
            match tokens[pos + 1 as int] {
                Token::Identifier(a, b) => accesses(
                    src,
                    tokens,
                    NodeView::Field(Box::new(node), span(src, a, b)),
                    pos + 2,
                    (fuel - 1) as nat,
                ),
                _ => Err(unexpected(tokens, pos + 1)),
            }
        } else {
            Err(ParseError::UnexpectedEnd)
        }
    } else if is_punctuator(tokens, pos, Punctuator::OpenBracket) {
        match expression(src, tokens, pos + 1, (fuel - 1) as nat) {
            Err(e) => Err(e),
            Ok((key, next)) => if is_punctuator(tokens, next, Punctuator::CloseBracket) {
                accesses(
                    src,
                    tokens,
                    NodeView::Index(Box::new(node), Box::new(key)),
                    next + 1,
                    (fuel - 1) as nat,
                )
            } else {
                Err(unexpected(tokens, next))
            },
        }
    } else if is_punctuator(tokens, pos, Punctuator::OpenParen) {
        match list(src, tokens, pos + 1, (fuel - 1) as nat, Punctuator::CloseParen) {
            Err(e) => Err(e),
            Ok((arguments, next)) => accesses(
                src,
                tokens,
                NodeView::Call(Box::new(node), arguments),
                next,
                (fuel - 1) as nat,
            ),
        }
    } else {
        Ok((node, pos))
    }
}

/// A list of expressions separated by commas that starts at `pos` and ends
/// with the punctuator `close`, which is passed.
pub open spec fn list(
    src: Seq<char>,
    tokens: Seq<Token>,
    pos: nat,
    fuel: nat,
    close: Punctuator,
) -> Result<(Seq<NodeView>, nat), ParseError>
    decreases fuel,
{
    if fuel == 0 {
        Err(ParseError::TooDeep)
    } else if is_punctuator(tokens, pos, close) {
        Ok((Seq::empty(), pos + 1))
    } else {
        list_items(src, tokens, Seq::empty(), pos, (fuel - 1) as nat, close)
    }
}

/// The expressions of a list from `pos` on, after those of `acc`.
pub open spec fn list_items(
    src: Seq<char>,
    tokens: Seq<Token>,
    acc: Seq<NodeView>,
    pos: nat,
    fuel: nat,
    close: Punctuator,
) -> Result<(Seq<NodeView>, nat), ParseError>
    decreases fuel,
{
    if fuel == 0 {
        Err(ParseError::TooDeep)
    } else {
        match expression(src, tokens, pos, (fuel - 1) as nat) {
            Err(e) => Err(e),
            Ok((node, next)) => if is_punctuator(tokens, next, Punctuator::Comma) {
                list_items(src, tokens, acc.push(node), next + 1, (fuel - 1) as nat, close)
            } else if is_punctuator(tokens, next, close) {
                Ok((acc.push(node), next + 1))
            } else {
                Err(unexpected(tokens, next))
            },
        }
    }
}

/// The members of an object literal from `pos` on, after those of `acc`, up
/// to the closing brace, which is passed.
pub open spec fn member_items(
    src: Seq<char>,
    tokens: Seq<Token>,
    acc: Seq<(Seq<char>, NodeView)>,
    pos: nat,
    fuel: nat,
) -> Result<(Seq<(Seq<char>, NodeView)>, nat), ParseError>
    decreases fuel,
{
    if fuel == 0 {
        Err(ParseError::TooDeep)
    } else {
        match member_name_at(src, tokens, pos) {
            None => Err(unexpected(tokens, pos)),
            Some(name) => if !is_punctuator(tokens, pos + 1, Punctuator::Colon) {
                Err(unexpected(tokens, pos + 1))
            } else {
                match expression(src, tokens, pos + 2, (fuel - 1) as nat) {
                    Err(e) => Err(e),
                    Ok((node, next)) => if is_punctuator(tokens, next, Punctuator::Comma) {
                        member_items(src, tokens, acc.push((name, node)), next + 1, (fuel - 1) as nat)
                    } else if is_punctuator(tokens, next, Punctuator::CloseBrace) {
                        Ok((acc.push((name, node)), next + 1))
                    } else {
                        Err(unexpected(tokens, next))
                    },
                }
            },
        }
    }
}

/// The body of an arrow function with the given parameters, which starts at
/// `pos`: statements in braces, or an expression.
pub open spec fn arrow_body(
    src: Seq<char>,
    tokens: Seq<Token>,
    parameters: Seq<Seq<char>>,
    pos: nat,
    fuel: nat,
) -> Result<(NodeView, nat), ParseError>
    decreases fuel,
{
    if fuel == 0 {
        Err(ParseError::TooDeep)
    } else if is_punctuator(tokens, pos, Punctuator::OpenBrace) {
        match statements(src, tokens, Seq::empty(), pos + 1, (fuel - 1) as nat, true) {
            Err(e) => Err(e),
            Ok((body, next)) => Ok(
                (NodeView::Arrow(parameters, Box::new(NodeView::Block(body))), next),
            ),
        }
    } else {
        match expression(src, tokens, pos, (fuel - 1) as nat) {
            Err(e) => Err(e),
            Ok((body, next)) => Ok((NodeView::Arrow(parameters, Box::new(body)), next)),
        }
    }
}

/// A primary expression that starts at `pos`.
pub open spec fn primary(src: Seq<char>, tokens: Seq<Token>, pos: nat, fuel: nat) -> Result<
    (NodeView, nat),
    ParseError,
>
    decreases fuel,
{
    if fuel == 0 {
        Err(ParseError::TooDeep)
    } else if pos >= tokens.len() {
        Err(ParseError::UnexpectedEnd)
    } else {
        match tokens[pos as int] {
            Token::Number(n) => Ok((NodeView::Number(n), pos + 1)),
            Token::Text(a, b) => Ok((NodeView::Text(span(src, a, b)), pos + 1)),
            Token::Identifier(a, b) => if is_punctuator(tokens, pos + 1, Punctuator::Arrow) {
                arrow_body(src, tokens, seq![span(src, a, b)], pos + 2, (fuel - 1) as nat)
            } else {
                Ok((identifier_node(span(src, a, b)), pos + 1))
            },
            Token::Punctuator(Punctuator::OpenParen) => match arrow_parameters(src, tokens, pos + 1) {
                Some((parameters, next)) => arrow_body(
                    src,
                    tokens,
                    parameters,
                    next,
                    (fuel - 1) as nat,
                ),
                None => match expression(src, tokens, pos + 1, (fuel - 1) as nat) {
                    Err(e) => Err(e),
                    Ok((node, next)) => if is_punctuator(tokens, next, Punctuator::CloseParen) {
                        Ok((node, next + 1))
                    } else {
                        Err(unexpected(tokens, next))
                    },
                },
            },
            Token::Punctuator(Punctuator::OpenBracket) => match list(
                src,
                tokens,
                pos + 1,
                (fuel - 1) as nat,
                Punctuator::CloseBracket,
            ) {
                Err(e) => Err(e),
                Ok((items, next)) => Ok((NodeView::Array(items), next)),
            },
            Token::Punctuator(Punctuator::OpenBrace) => if is_punctuator(
                tokens,
                pos + 1,
                Punctuator::CloseBrace,
            ) {
                Ok((NodeView::Object(Seq::empty()), pos + 2))
            } else {
                match member_items(src, tokens, Seq::empty(), pos + 1, (fuel - 1) as nat) {
                    Err(e) => Err(e),
                    Ok((members, next)) => Ok((NodeView::Object(members), next)),
                }
            },
            _ => Err(unexpected(tokens, pos)),
        }
    }
}

/// The fuel that a program of `n` tokens is parsed with.
pub open spec fn initial_fuel(n: nat) -> nat {
    if n <= 0x0fff_ffff_ffff_ffff {
        8 * n + 16
    } else {
        0xffff_ffff_ffff_ffff
    }
}

/// The most tokens that a program can have.
pub const MAX_TOKENS: usize = 0x7fff_fff0;

/// The program that the tokens are: a block of its statements. More than
/// [`MAX_TOKENS`] tokens are no program.
pub open spec fn program(src: Seq<char>, tokens: Seq<Token>) -> Result<NodeView, ParseError> {
    if tokens.len() > MAX_TOKENS {
        Err(ParseError::TooDeep)
    } else {
        match statements(src, tokens, Seq::empty(), 0, initial_fuel(tokens.len()), false) {
            Err(e) => Err(e),
            Ok((nodes, _)) => Ok(NodeView::Block(nodes)),
        }
    }
}

/// The result of parsing a node, as the executable parser holds it and as
/// the grammar defines it.
pub open spec fn same_node(r: Result<(Node, usize), ParseError>, expected: Result<(NodeView, nat), ParseError>) -> bool {
    match r {
        Ok((node, next)) => expected == Ok::<(NodeView, nat), ParseError>((node@, next as nat)),
        Err(e) => expected == Err::<(NodeView, nat), ParseError>(e),
    }
}

/// The result of parsing a list of nodes, as the executable parser holds
/// it and as the grammar defines it.
pub open spec fn same_nodes(r: Result<(Vec<Node>, usize), ParseError>, expected: Result<(Seq<NodeView>, nat), ParseError>) -> bool {
    match r {
        Ok((nodes, next)) => expected == Ok::<(Seq<NodeView>, nat), ParseError>(
            (node_models(nodes@), next as nat),
        ),
        Err(e) => expected == Err::<(Seq<NodeView>, nat), ParseError>(e),
    }
}

/// The position that a result goes on at is within the tokens.
pub open spec fn within<T>(r: Result<(T, usize), ParseError>, n: nat) -> bool {
    match r {
        Ok((_, next)) => next <= n,
        Err(_) => true,
    }
}

/// A parser for the tokens of a source text.
pub struct Parser<'a> {
    pub src: &'a Vec<char>,
    pub tokens: &'a Vec<Token>,
}

impl<'a> Parser<'a> {
    /// Validity: there are no more than [`MAX_TOKENS`] tokens.
    pub open spec fn wf(&self) -> bool {
        self.tokens@.len() <= MAX_TOKENS
    }

    /// Whether the token at `pos` is the punctuator `p`.
    pub fn is(&self, pos: usize, p: Punctuator) -> (r: bool)
        ensures
            r == is_punctuator(self.tokens@, pos as nat, p),
    {
        pos < self.tokens.len() && match self.tokens[pos] {
            Token::Punctuator(q) => q == p,
            _ => false,
        }
    }

    /// The source from `start` up to `end`.
    pub fn text(&self, start: usize, end: usize) -> (r: String)
        ensures
            r@ == span(self.src@, start, end),
    {
        let mut s = String::new();
        if start <= end && end <= self.src.len() {
            let mut i = start;
            while i < end
                invariant
                    start <= i <= end <= self.src@.len(),
                    s@ == self.src@.subrange(start as int, i as int),
                decreases end - i,
            {
                s.push(self.src[i]);
                i += 1;
                assert(s@ =~= self.src@.subrange(start as int, i as int));
            }
        }
        assert(s@ =~= span(self.src@, start, end));
        s
    }

    /// The error for the token at `pos`.
    pub fn unexpected(&self, pos: usize) -> (r: ParseError)
        ensures
            r == unexpected(self.tokens@, pos as nat),
    {
        if pos < self.tokens.len() {
            ParseError::UnexpectedToken(pos)
        } else {
            ParseError::UnexpectedEnd
        }
    }

    /// The comparison operator that the token at `pos` is.
    pub fn comparison(&self, pos: usize) -> (r: Option<CompareOp>)
        ensures
            r == comparison_at(self.tokens@, pos as nat),
    {
        if pos < self.tokens.len() {
            match self.tokens[pos] {
                Token::Punctuator(Punctuator::Equal) => Some(CompareOp::Equal),
                Token::Punctuator(Punctuator::NotEqual) => Some(CompareOp::NotEqual),
                Token::Punctuator(Punctuator::StrictEqual) => Some(CompareOp::StrictEqual),
                Token::Punctuator(Punctuator::StrictNotEqual) => Some(CompareOp::StrictNotEqual),
                _ => None,
            }
        } else {
            None
        }
    }

    /// The name that the token at `pos` gives a member of an object literal.
    pub fn member_name(&self, pos: usize) -> (r: Option<String>)
        ensures
            match r {
                Some(name) => member_name_at(self.src@, self.tokens@, pos as nat) == Some(name@),
                None => member_name_at(self.src@, self.tokens@, pos as nat) is None,
            },
    {
        if pos < self.tokens.len() {
            match self.tokens[pos] {
                Token::Identifier(a, b) => Some(self.text(a, b)),
                Token::Text(a, b) => Some(self.text(a, b)),
                Token::Number(n) => Some(signed_to_string(n as i64)),
                _ => None,
            }
        } else {
            None
        }
    }

    /// The node that an identifier stands for.
    pub fn identifier(text: String) -> (r: Node)
        ensures
            r@ == identifier_node(text@),
    {
        if text == "true".to_owned() {
            Node::Bool(true)
        } else if text == "false".to_owned() {
            Node::Bool(false)
        } else if text == "null".to_owned() {
            Node::Null
        } else {
            Node::Local(text)
        }
    }

    /// The parameters of an arrow function, as [`parameter_items`] defines
    /// them.
    pub fn parameter_items(&self, acc: Vec<String>, pos: usize) -> (r: Option<(Vec<String>, usize)>)
        requires
            self.wf(),
            pos <= self.tokens@.len(),
        ensures
            match r {
                Some((parameters, next)) => parameter_items(
                    self.src@,
                    self.tokens@,
                    texts(acc@),
                    pos as nat,
                ) == Some((texts(parameters@), next as nat)) && next <= self.tokens@.len(),
                None => parameter_items(self.src@, self.tokens@, texts(acc@), pos as nat) is None,
            },
        decreases self.tokens@.len() - pos,
    {
        if pos < self.tokens.len() {
            match self.tokens[pos] {
                Token::Identifier(a, b) => {
                    let name = self.text(a, b);
                    let mut acc = acc;
                    proof {
                        lemma_texts_push(acc@, name);
                    }
                    acc.push(name);
                    if self.is(pos + 1, Punctuator::Comma) {
                        self.parameter_items(acc, pos + 2)
                    } else if self.is(pos + 1, Punctuator::CloseParen) && self.is(
                        pos + 2,
                        Punctuator::Arrow,
                    ) {
                        Some((acc, pos + 3))
                    } else {
                        None
                    }
                },
                _ => None,
            }
        } else {
            None
        }
    }

    /// The parameters of an arrow function, as [`arrow_parameters`] defines
    /// them.
    pub fn arrow_parameters(&self, pos: usize) -> (r: Option<(Vec<String>, usize)>)
        requires
            self.wf(),
            pos <= self.tokens@.len(),
        ensures
            match r {
                Some((parameters, next)) => arrow_parameters(self.src@, self.tokens@, pos as nat)
                    == Some((texts(parameters@), next as nat)) && next <= self.tokens@.len(),
                None => arrow_parameters(self.src@, self.tokens@, pos as nat) is None,
            },
    {
        if self.is(pos, Punctuator::CloseParen) {
            if self.is(pos + 1, Punctuator::Arrow) {
                Some((Vec::new(), pos + 2))
            } else {
                None
            }
        } else {
            self.parameter_items(Vec::new(), pos)
        }
    }

    /// Statements, as [`statements`] defines them.
    pub fn statements(&self, acc: Vec<Node>, pos: usize, fuel: u64, nested: bool) -> (r: Result<
        (Vec<Node>, usize),
        ParseError,
    >)
        requires
            self.wf(),
            pos <= self.tokens@.len(),
        ensures
            same_nodes(
                r,
                statements(self.src@, self.tokens@, node_models(acc@), pos as nat, fuel as nat, nested),
            ),
            within(r, self.tokens@.len()),
        decreases fuel,
    {
        if fuel == 0 {
            Err(ParseError::TooDeep)
        } else if pos >= self.tokens.len() {
            if nested {
                Err(ParseError::UnexpectedEnd)
            } else {
                Ok((acc, pos))
            }
        } else if self.is(pos, Punctuator::Semicolon) {
            self.statements(acc, pos + 1, fuel - 1, nested)
        } else if nested && self.is(pos, Punctuator::CloseBrace) {
            Ok((acc, pos + 1))
        } else {
            match self.expression(pos, fuel - 1) {
                Err(e) => Err(e),
                Ok((node, next)) => {
                    let mut acc = acc;
                    proof {
                        lemma_node_models_push(acc@, node);
                    }
                    acc.push(node);
                    self.statements(acc, next, fuel - 1, nested)
                },
            }
        }
    }

    /// An expression, as [`expression`] defines it.
    pub fn expression(&self, pos: usize, fuel: u64) -> (r: Result<(Node, usize), ParseError>)
        requires
            self.wf(),
            pos <= self.tokens@.len(),
        ensures
            same_node(r, expression(self.src@, self.tokens@, pos as nat, fuel as nat)),
            within(r, self.tokens@.len()),
        decreases fuel,
    {
        if fuel == 0 {
            Err(ParseError::TooDeep)
        } else {
            match self.postfix(pos, fuel - 1) {
                Err(e) => Err(e),
                Ok((left, next)) => self.comparisons(left, next, fuel - 1),
            }
        }
    }

    /// Comparisons, as [`comparisons`] defines them.
    pub fn comparisons(&self, left: Node, pos: usize, fuel: u64) -> (r: Result<
        (Node, usize),
        ParseError,
    >)
        requires
            self.wf(),
            pos <= self.tokens@.len(),
        ensures
            same_node(r, comparisons(self.src@, self.tokens@, left@, pos as nat, fuel as nat)),
            within(r, self.tokens@.len()),
        decreases fuel,
    {
        if fuel == 0 {
            Err(ParseError::TooDeep)
        } else {
            match self.comparison(pos) {
                None => Ok((left, pos)),
                Some(op) => match self.postfix(pos + 1, fuel - 1) {
                    Err(e) => Err(e),
                    Ok((right, next)) => self.comparisons(
                        Node::Compare(op, Box::new(left), Box::new(right)),
                        next,
                        fuel - 1,
                    ),
                },
            }
        }
    }

    /// A primary expression with what follows it, as [`postfix`] defines it.
    pub fn postfix(&self, pos: usize, fuel: u64) -> (r: Result<(Node, usize), ParseError>)
        requires
            self.wf(),
            pos <= self.tokens@.len(),
        ensures
            same_node(r, postfix(self.src@, self.tokens@, pos as nat, fuel as nat)),
            within(r, self.tokens@.len()),
        decreases fuel,
    {
        if fuel == 0 {
            Err(ParseError::TooDeep)
        } else {
            match self.primary(pos, fuel - 1) {
                Err(e) => Err(e),
                Ok((node, next)) => self.accesses(node, next, fuel - 1),
            }
        }
    }

    /// Accesses and calls, as [`accesses`] defines them.
    pub fn accesses(&self, node: Node, pos: usize, fuel: u64) -> (r: Result<(Node, usize), ParseError>)
        requires
            self.wf(),
            pos <= self.tokens@.len(),
        ensures
            same_node(r, accesses(self.src@, self.tokens@, node@, pos as nat, fuel as nat)),
            within(r, self.tokens@.len()),
        decreases fuel,
    {
        if fuel == 0 {
            Err(ParseError::TooDeep)
        } else if self.is(pos, Punctuator::Dot) {
            if pos + 1 < self.tokens.len() {
                match self.tokens[pos + 1] {
                    Token::Identifier(a, b) => {
                        let name = self.text(a, b);
                        self.accesses(Node::Field(Box::new(node), name), pos + 2, fuel - 1)
                    },
                    _ => Err(self.unexpected(pos + 1)),
                }
            } else {
                Err(ParseError::UnexpectedEnd)
            }
        } else if self.is(pos, Punctuator::OpenBracket) {
            match self.expression(pos + 1, fuel - 1) {
                Err(e) => Err(e),
                Ok((key, next)) => if self.is(next, Punctuator::CloseBracket) {
                    self.accesses(Node::Index(Box::new(node), Box::new(key)), next + 1, fuel - 1)
                } else {
                    Err(self.unexpected(next))
                },
            }
        } else if self.is(pos, Punctuator::OpenParen) {
            match self.list(pos + 1, fuel - 1, Punctuator::CloseParen) {
                Err(e) => Err(e),
                Ok((arguments, next)) => self.accesses(
                    Node::Call(Box::new(node), arguments),
                    next,
                    fuel - 1,
                ),
            }
        } else {
            Ok((node, pos))
        }
    }

    /// A list of expressions, as [`list`] defines it.
    pub fn list(&self, pos: usize, fuel: u64, close: Punctuator) -> (r: Result<
        (Vec<Node>, usize),
        ParseError,
    >)
        requires
            self.wf(),
            pos <= self.tokens@.len(),
        ensures
            same_nodes(r, list(self.src@, self.tokens@, pos as nat, fuel as nat, close)),
            within(r, self.tokens@.len()),
        decreases fuel,
    {
        if fuel == 0 {
            Err(ParseError::TooDeep)
        } else if self.is(pos, close) {
            Ok((Vec::new(), pos + 1))
        } else {
            self.list_items(Vec::new(), pos, fuel - 1, close)
        }
    }

    /// The expressions of a list, as [`list_items`] defines them.
    pub fn list_items(&self, acc: Vec<Node>, pos: usize, fuel: u64, close: Punctuator) -> (r: Result<
        (Vec<Node>, usize),
        ParseError,
    >)
        requires
            self.wf(),
            pos <= self.tokens@.len(),
        ensures
            same_nodes(
                r,
                list_items(self.src@, self.tokens@, node_models(acc@), pos as nat, fuel as nat, close),
            ),
            within(r, self.tokens@.len()),
        decreases fuel,
    {
        if fuel == 0 {
            Err(ParseError::TooDeep)
        } else {
            match self.expression(pos, fuel - 1) {
                Err(e) => Err(e),
                Ok((node, next)) => {
                    let mut acc = acc;
                    proof {
                        lemma_node_models_push(acc@, node);
                    }
                    acc.push(node);
                    if self.is(next, Punctuator::Comma) {
                        self.list_items(acc, next + 1, fuel - 1, close)
                    } else if self.is(next, close) {
                        Ok((acc, next + 1))
                    } else {
                        Err(self.unexpected(next))
                    }
                },
            }
        }
    }

    /// The members of an object literal, as [`member_items`] defines them.
    pub fn member_items(&self, acc: Vec<(String, Node)>, pos: usize, fuel: u64) -> (r: Result<
        (Vec<(String, Node)>, usize),
        ParseError,
    >)
        requires
            self.wf(),
            pos <= self.tokens@.len(),
        ensures
            match r {
                Ok((members, next)) => member_items(
                    self.src@,
                    self.tokens@,
                    member_models(acc@),
                    pos as nat,
                    fuel as nat,
                ) == Ok::<(Seq<(Seq<char>, NodeView)>, nat), ParseError>(
                    (member_models(members@), next as nat),
                ) && next <= self.tokens@.len(),
                Err(e) => member_items(
                    self.src@,
                    self.tokens@,
                    member_models(acc@),
                    pos as nat,
                    fuel as nat,
                ) == Err::<(Seq<(Seq<char>, NodeView)>, nat), ParseError>(e),
            },
        decreases fuel,
    {
        if fuel == 0 {
            Err(ParseError::TooDeep)
        } else {
            match self.member_name(pos) {
                None => Err(self.unexpected(pos)),
                Some(name) => if !self.is(pos + 1, Punctuator::Colon) {
                    Err(self.unexpected(pos + 1))
                } else {
                    match self.expression(pos + 2, fuel - 1) {
                        Err(e) => Err(e),
                        Ok((node, next)) => {
                            let mut acc = acc;
                            proof {
                                lemma_member_models_push(acc@, name, node);
                            }
                            acc.push((name, node));
                            if self.is(next, Punctuator::Comma) {
                                self.member_items(acc, next + 1, fuel - 1)
                            } else if self.is(next, Punctuator::CloseBrace) {
                                Ok((acc, next + 1))
                            } else {
                                Err(self.unexpected(next))
                            }
                        },
                    }
                },
            }
        }
    }

    /// The body of an arrow function, as [`arrow_body`] defines it.
    pub fn arrow_body(&self, parameters: Vec<String>, pos: usize, fuel: u64) -> (r: Result<
        (Node, usize),
        ParseError,
    >)
        requires
            self.wf(),
            pos <= self.tokens@.len(),
        ensures
            same_node(
                r,
                arrow_body(self.src@, self.tokens@, texts(parameters@), pos as nat, fuel as nat),
            ),
            within(r, self.tokens@.len()),
        decreases fuel,
    {
        proof {
            reveal_with_fuel(node_model, 3);
            assert(node_models(Seq::<Node>::empty()) =~= Seq::<NodeView>::empty());
        }
        if fuel == 0 {
            Err(ParseError::TooDeep)
        } else if self.is(pos, Punctuator::OpenBrace) {
            match self.statements(Vec::new(), pos + 1, fuel - 1, true) {
                Err(e) => Err(e),
                Ok((body, next)) => Ok((Node::Arrow(parameters, Box::new(Node::Block(body))), next)),
            }
        } else {
            match self.expression(pos, fuel - 1) {
                Err(e) => Err(e),
                Ok((body, next)) => Ok((Node::Arrow(parameters, Box::new(body)), next)),
            }
        }
    }

    /// A primary expression, as [`primary`] defines it.
    pub fn primary(&self, pos: usize, fuel: u64) -> (r: Result<(Node, usize), ParseError>)
        requires
            self.wf(),
            pos <= self.tokens@.len(),
        ensures
            same_node(r, primary(self.src@, self.tokens@, pos as nat, fuel as nat)),
            within(r, self.tokens@.len()),
        decreases fuel,
    {
        proof {
            reveal_with_fuel(node_model, 3);
            assert(node_models(Seq::<Node>::empty()) =~= Seq::<NodeView>::empty());
            assert(member_models(Seq::<(String, Node)>::empty()) =~= Seq::<
                (Seq<char>, NodeView),
            >::empty());
            assert(texts(Seq::<String>::empty()) =~= Seq::<Seq<char>>::empty());
        }
        if fuel == 0 {
            Err(ParseError::TooDeep)
        } else if pos >= self.tokens.len() {
            Err(ParseError::UnexpectedEnd)
        } else {
            match self.tokens[pos] {
                Token::Number(n) => Ok((Node::Number(n), pos + 1)),
                Token::Text(a, b) => Ok((Node::Text(self.text(a, b)), pos + 1)),
                Token::Identifier(a, b) => {
                    let name = self.text(a, b);
                    if self.is(pos + 1, Punctuator::Arrow) {
                        let mut parameters: Vec<String> = Vec::new();
                        proof {
                            lemma_texts_push(parameters@, name);
                            assert(texts(parameters@) =~= Seq::<Seq<char>>::empty());
                            assert(Seq::<Seq<char>>::empty().push(name@) =~= seq![name@]);
                        }
                        parameters.push(name);
                        self.arrow_body(parameters, pos + 2, fuel - 1)
                    } else {
                        Ok((Parser::identifier(name), pos + 1))
                    }
                },
                Token::Punctuator(Punctuator::OpenParen) => match self.arrow_parameters(pos + 1) {
                    Some((parameters, next)) => self.arrow_body(parameters, next, fuel - 1),
                    None => match self.expression(pos + 1, fuel - 1) {
                        Err(e) => Err(e),
                        Ok((node, next)) => if self.is(next, Punctuator::CloseParen) {
                            Ok((node, next + 1))
                        } else {
                            Err(self.unexpected(next))
                        },
                    },
                },
                Token::Punctuator(Punctuator::OpenBracket) => match self.list(
                    pos + 1,
                    fuel - 1,
                    Punctuator::CloseBracket,
                ) {
                    Err(e) => Err(e),
                    Ok((items, next)) => Ok((Node::Array(items), next)),
                },
                Token::Punctuator(Punctuator::OpenBrace) => if self.is(
                    pos + 1,
                    Punctuator::CloseBrace,
                ) {
                    Ok((Node::Object(Vec::new()), pos + 2))
                } else {
                    match self.member_items(Vec::new(), pos + 1, fuel - 1) {
                        Err(e) => Err(e),
                        Ok((members, next)) => Ok((Node::Object(members), next)),
                    }
                },
                _ => Err(self.unexpected(pos)),
            }
        }
    }

    /// The program that the tokens are, as [`program`] defines it.
    pub fn parse_all(&self) -> (r: Result<Node, ParseError>)
        ensures
            match r {
                Ok(node) => program(self.src@, self.tokens@) == Ok::<NodeView, ParseError>(node@),
                Err(e) => program(self.src@, self.tokens@) == Err::<NodeView, ParseError>(e),
            },
    {
        let n = self.tokens.len();
        if n > MAX_TOKENS {
            return Err(ParseError::TooDeep);
        }
        let fuel: u64 = 8 * (n as u64) + 16;
        match self.statements(Vec::new(), 0, fuel, false) {
            Err(e) => Err(e),
            Ok((nodes, _)) => Ok(Node::Block(nodes)),
        }
    }
}

/// The message of a parse error.
pub open spec fn parse_error_text(e: ParseError) -> Seq<char> {
    match e {
        ParseError::UnexpectedToken(p) => "unexpected token "@ + decimal(p as nat),
        ParseError::UnexpectedEnd => "unexpected end of input"@,
        ParseError::TooDeep => "program is nested too deeply"@,
    }
}

impl ParseError {
    /// The message of the error.
    pub fn message(&self) -> (r: String)
        ensures
            r@ == parse_error_text(*self),
    {
        match self {
            ParseError::UnexpectedToken(p) => {
                let mut s = "unexpected token ".to_owned();
                crate::text::push_decimal(&mut s, *p as u64);
                s
            },
            ParseError::UnexpectedEnd => "unexpected end of input".to_owned(),
            ParseError::TooDeep => "program is nested too deeply".to_owned(),
        }
    }
}

} // verus!

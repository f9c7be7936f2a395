//! The parser: from tokens to a syntax tree of nodes.
//!
//! The parser reads its tokens from the end. One parse takes the last three
//! tokens as the two operands and the operator of a binary expression and
//! hangs that expression under the root.

use vstd::prelude::*;
use vstd::string::*;
use crate::liamc::lexer::{Token, TokenType, TokenView};

verus! {

/// What kind of node a node is.
#[derive(Clone, Copy, Debug, PartialEq, Eq, Structural)]
pub enum NodeType {
    File,
    BinaryExpression,
    IntLiteral,
    Identifier,
    Plus,
}

/// A node of the syntax tree: its kind, its children, its text, and where
/// it stands in the source.
#[derive(Debug, PartialEq, Eq)]
pub struct Node {
    pub node_type: NodeType,
    pub nodes: Vec<Node>,
    pub string: String,
    pub start: usize,
    pub end: usize,
}

/// The kind of the node that a token of kind `token_type` becomes, if such
/// a token can become a node. An identifier becomes a node of the same kind
/// as an integer literal.
pub open spec fn node_type_of(token_type: TokenType) -> Option<NodeType> {
    match token_type {
        TokenType::IntLiteral => Some(NodeType::IntLiteral),
        TokenType::Identifier => Some(NodeType::IntLiteral),
        TokenType::Plus => Some(NodeType::Plus),
        _ => None,
    }
}

impl Node {
    /// Whether this node has no children and is of kind `node_type`, with
    /// text `string`, standing from `start` to `end`.
    pub open spec fn is_leaf(&self, node_type: NodeType, string: Seq<char>, start: nat, end: nat)
        -> bool {
        &&& self.node_type == node_type
        &&& self.nodes@.len() == 0
        &&& self.string@ == string
        &&& self.start == start
        &&& self.end == end
    }

    /// Whether this node is the leaf that `token` becomes.
    pub open spec fn is_leaf_of(&self, token: TokenView) -> bool {
        node_type_of(token.token_type) is Some && self.is_leaf(
            node_type_of(token.token_type)->Some_0,
            token.string,
            token.start,
            token.end,
        )
    }

    /// Whether this node is the binary expression read from three tokens:
    /// it has no text, its children are the leaves of `first`, `operator`
    /// and `second` in that order, and it stands from the start of `first`
    /// to the end of `second`.
    pub open spec fn is_binary_of(&self, first: TokenView, operator: TokenView, second: TokenView)
        -> bool {
        &&& self.node_type == NodeType::BinaryExpression
        &&& self.string@ == Seq::<char>::empty()
        &&& self.start == first.start
        &&& self.end == second.end
        &&& self.nodes@.len() == 3
        &&& self.nodes@[0].is_leaf_of(first)
        &&& self.nodes@[1].is_leaf_of(operator)
        &&& self.nodes@[2].is_leaf_of(second)
    }

    /// A node without children.
    pub fn new(node_type: NodeType, string: String, start: usize, end: usize) -> (node: Self)
        ensures
            node.is_leaf(node_type, string@, start as nat, end as nat),
            node.string == string,
    {
        Node { node_type, nodes: Vec::new(), string, start, end }
    }

    /// Whether a token of kind `token_type` can become a node.
    pub fn can_create_from(token_type: TokenType) -> (b: bool)
        ensures
            b == node_type_of(token_type) is Some,
    {
        match token_type {
            TokenType::IntLiteral | TokenType::Identifier | TokenType::Plus => true,
            _ => false,
        }
    }

    /// The leaf that `token` becomes: it keeps the token's text and place.
    /// Only literals, identifiers and `+` become nodes.
    pub fn create_from(token: Token) -> (node: Self)
        requires
            node_type_of(token.token_type) is Some,
        ensures
            node.is_leaf_of(token@),
    {
        match token.token_type {
            TokenType::IntLiteral => Node::new(
                NodeType::IntLiteral,
                token.string,
                token.start,
                token.end,
            ),
            TokenType::Identifier => Node::new(
                NodeType::IntLiteral,
                token.string,
                token.start,
                token.end,
            ),
            _ => Node::new(NodeType::Plus, token.string, token.start, token.end),
        }
    }
}

/// The parser: the tokens not yet read, and the root of the tree.
pub struct Parser {
    pub tokens: Vec<Token>,
    pub root: Node,
}

impl Parser {
    /// Whether an expression can be parsed: there are three tokens left,
    /// and each of the last three can become a node.
    pub open spec fn spec_can_parse(&self) -> bool {
        &&& self.tokens@.len() >= 3
        &&& forall|i: int|
            self.tokens@.len() - 3 <= i < self.tokens@.len() ==> node_type_of(
                (#[trigger] self.tokens@[i]).token_type,
            ) is Some
    }

    /// A parser for `tokens`, with a root of kind `File` that has no
    /// children, no text and stands at the start of the source.
    pub fn new(tokens: Vec<Token>) -> (parser: Self)
        ensures
            parser.tokens == tokens,
            parser.root.is_leaf(NodeType::File, Seq::empty(), 0, 0),
    {
        Parser { tokens, root: Node::new(NodeType::File, String::new(), 0, 0) }
    }

    /// Whether an expression can be parsed.
    #[verifier::when_used_as_spec(spec_can_parse)]
    pub fn can_parse(&self) -> (b: bool)
        ensures
            b == self.spec_can_parse(),
    {
        let n: usize = self.tokens.len();
        if n < 3 {
            return false;
        }
        Node::can_create_from(self.tokens[n - 1].token_type) && Node::can_create_from(
            self.tokens[n - 2].token_type,
        ) && Node::can_create_from(self.tokens[n - 3].token_type)
    }

    /// Parses one expression from the last three tokens and adds it to the
    /// children of the root.
    pub fn parse(&mut self) -> (r: Result<(), String>)
        requires
            old(self).spec_can_parse(),
        ensures
            r is Ok,
            final(self).tokens@ == old(self).tokens@.take(old(self).tokens@.len() - 3),
            final(self).root.node_type == old(self).root.node_type,
            final(self).root.string == old(self).root.string,
            final(self).root.start == old(self).root.start,
            final(self).root.end == old(self).root.end,
            final(self).root.nodes@.len() == old(self).root.nodes@.len() + 1,
            final(self).root.nodes@.drop_last() == old(self).root.nodes@,
            final(self).root.nodes@.last().is_binary_of(
                old(self).tokens@[old(self).tokens@.len() - 1]@,
                old(self).tokens@[old(self).tokens@.len() - 2]@,
                old(self).tokens@[old(self).tokens@.len() - 3]@,
            ),
    {
        let expression = self.parse_expression();
        self.root.nodes.push(expression);
        assert(self.root.nodes@.drop_last() =~= old(self).root.nodes@);
        Ok(())
    }

    /// Takes the last three tokens and makes a binary expression of them:
    /// the last token is its first operand, the one before is its operator,
    /// and the one before that is its second operand.
    fn parse_expression(&mut self) -> (node: Node)
        requires
            old(self).spec_can_parse(),
        ensures
            final(self).tokens@ == old(self).tokens@.take(old(self).tokens@.len() - 3),
            final(self).root == old(self).root,
            node.is_binary_of(
                old(self).tokens@[old(self).tokens@.len() - 1]@,
                old(self).tokens@[old(self).tokens@.len() - 2]@,
                old(self).tokens@[old(self).tokens@.len() - 3]@,
            ),
    {
        let int_1 = Node::create_from(self.tokens.pop().unwrap());
        let op = Node::create_from(self.tokens.pop().unwrap());
        let int_2 = Node::create_from(self.tokens.pop().unwrap());
        let mut node = Node::new(NodeType::BinaryExpression, String::new(), int_1.start, int_2.end);
        node.nodes.push(int_1);
        node.nodes.push(op);
        node.nodes.push(int_2);
        node
    }
}

} // verus!

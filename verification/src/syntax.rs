//! The syntax tree that the rules read.
//!
//! A tree holds, in the order in which a depth-first visit of the source meets
//! them, the constructs that some rule asks about. Constructs that no rule asks
//! about are not nodes of their own: their parts hang below the nearest node
//! that encloses them.
use vstd::prelude::*;

verus! {

/// How an attribute is written.
#[derive(Clone, Copy, Debug, PartialEq, Eq, Structural)]
pub enum Shape {
    /// `#[name]`
    Path,
    /// `#[name(...)]`
    List,
    /// `#[name = value]`
    NameValue,
}

/// What construct a node stands for.
#[derive(Clone, Copy, Debug, PartialEq, Eq, Structural)]
pub enum Kind {
    File,
    /// A free function; `name` is its identifier.
    Function,
    /// A method of an `impl` block; `name` is its identifier.
    Method { public: bool },
    Module,
    Impl,
    Struct { named: bool },
    /// A field of a struct; `name` is its identifier.
    FieldDef,
    Const,
    Static,
    /// Any other item.
    Item,
    /// An attribute; `name` is its path, `text` what stands inside the brackets.
    Attribute { shape: Shape },
    /// A typed parameter.
    Param,
    /// `self`, `&self` or `&mut self`.
    Receiver { reference: bool, mutable: bool },
    Block,
    /// A `let` statement.
    Local,
    /// An expression that stands as a statement.
    ExprStmt { semi: bool },
    /// A macro call that stands as a statement.
    StmtMacro,
    /// A macro call; `words` is its path, `tokens` its body, and `args` the body
    /// read as a comma-separated list of expressions, if it is one.
    Macro,
    /// A path; `words` holds its segments, and `name` the identifier that it is,
    /// if it is a single one.
    Path,
    PathExpr,
    Call,
    /// A method call; `name` is the method.
    MethodCall,
    MacroExpr,
    Paren,
    Group,
    Reference { mutable: bool },
    Cast,
    /// A unary operation; `name` is the operator.
    Unary,
    Try,
    /// A field access; `name` is the field.
    Field { named: bool },
    Index,
    /// A range; `closed` says that it holds its end.
    Range { closed: bool },
    BlockExpr,
    /// A block marked `unsafe`.
    Unsafe,
    /// A binary operation; `name` is the operator.
    Binary,
    Assign,
    If,
    Match,
    Return,
    StructExpr,
    /// A field of a struct expression; `name` is the field.
    FieldValue,
    LitInt,
    LitFloat,
    /// A literal that is no number.
    Literal,
    /// Any other expression.
    Expr,
    /// A binding; `name` is the bound identifier.
    PatIdent,
    PatType,
    PatTuple,
    PatReference,
    PatTupleStruct,
    /// Any other pattern.
    Pat,
    Type,
}

/// The part that a node plays in the node above it.
#[derive(Clone, Copy, Debug, PartialEq, Eq, Structural)]
pub enum Role {
    Attribute,
    Param,
    /// A declared result type.
    Output,
    /// The body of a function or a method.
    Body,
    /// A statement of a block, or an item of a file, a module or an `impl`.
    Entry,
    Callee,
    Receiver,
    Argument,
    /// The one operand of a unary construct, or the base of an access.
    Operand,
    /// What is inside the brackets of an index expression.
    Index,
    Left,
    Right,
    Condition,
    /// The block of an `if` behind its condition, or what an arm of a `match` gives.
    Then,
    Else,
    Pattern,
    /// The value that a `let` binds.
    Init,
    Type,
    Field,
    /// Anything else.
    Part,
}

/// The brackets around a token group.
#[derive(Clone, Copy, Debug, PartialEq, Eq, Structural)]
pub enum Delimiter {
    Parenthesis,
    Brace,
    Bracket,
    Invisible,
}

/// A token, or a bracketed group of tokens.
#[derive(Debug)]
pub enum Token {
    Ident(String),
    /// `joint` says that the next token is a punctuation mark right behind.
    Punct { mark: char, joint: bool },
    Literal(String),
    Group { delimiter: Delimiter, tokens: Vec<Token> },
}

/// A node of the syntax tree.
#[derive(Debug)]
pub struct Node {
    pub kind: Kind,
    pub role: Role,
    pub name: String,
    /// The tokens of the construct, printed.
    pub text: String,
    pub words: Vec<String>,
    pub tokens: Vec<Token>,
    pub args: Option<Vec<Node>>,
    pub children: Vec<Node>,
    pub line: usize,
    pub column: usize,
}

/// The nodes of `list` that play `role`, in order.
pub open spec fn playing(list: Seq<Node>, role: Role) -> Seq<Node>
    decreases list.len(),
{
    if list.len() == 0 {
        Seq::empty()
    } else {
        let before = playing(list.drop_last(), role);
        if list.last().role == role { before.push(list.last()) } else { before }
    }
}

impl Node {
    /// The children that play `role`, in order.
    pub open spec fn parts(self, role: Role) -> Seq<Node> {
        playing(self.children@, role)
    }

    /// The first child that plays `role`.
    pub open spec fn part(self, role: Role) -> Option<Node> {
        if self.parts(role).len() > 0 { Some(self.parts(role)[0]) } else { None }
    }

    /// The last segment of the node's path.
    pub open spec fn last_word(self) -> Option<Seq<char>> {
        if self.words@.len() > 0 { Some(self.words@.last()@) } else { None }
    }

    /// The printed body of a function or a method.
    pub open spec fn body_text(self) -> Seq<char> {
        match self.part(Role::Body) {
            Some(body) => body.text@,
            None => Seq::empty(),
        }
    }

    /// Collects the children that play `role`.
    pub fn get_parts(&self, role: Role) -> (r: Vec<&Node>)
        ensures
            r@.unref() == self.parts(role),
    {
        let mut r: Vec<&Node> = Vec::new();
        let mut i: usize = 0;
        while i < self.children.len()
            invariant
                i <= self.children@.len(),
                r@.unref() == playing(self.children@.take(i as int), role),
            decreases self.children@.len() - i,
        {
            assert(self.children@.take(i as int + 1).drop_last() =~= self.children@.take(i as int));
            if self.children[i].role == role {
                r.push(&self.children[i]);
            }
            i = i + 1;
        }
        assert(self.children@.take(i as int) =~= self.children@);
        r
    }

    /// Finds the first child that plays `role`.
    pub fn get_part(&self, role: Role) -> (r: Option<&Node>)
        ensures
            r.is_some() == self.part(role).is_some(),
            r.is_some() ==> Some(*r.unwrap()) == self.part(role),
    {
        let parts = self.get_parts(role);
        if parts.len() > 0 {
            assert(parts@.unref()[0] == *parts@[0]);
            Some(parts[0])
        } else {
            None
        }
    }

    /// Reads the last segment of the node's path.
    pub fn get_last_word(&self) -> (r: Option<&str>)
        ensures
            r.is_some() == self.last_word().is_some(),
            r.is_some() ==> Some(r.unwrap()@) == self.last_word(),
    {
        if self.words.len() > 0 {
            Some(self.words[self.words.len() - 1].as_str())
        } else {
            None
        }
    }

    /// Reads the printed body of a function or a method.
    pub fn get_body_text(&self) -> (r: &str)
        ensures
            r@ == self.body_text(),
    {
        proof {
            reveal_strlit("");
        }
        match self.get_part(Role::Body) {
            Some(body) => body.text.as_str(),
            None => "",
        }
    }
}

/// A node among `list` that plays `role` is an element of `list`.
pub proof fn lemma_playing_member(list: Seq<Node>, role: Role, i: int)
    requires
        0 <= i < playing(list, role).len(),
    ensures
        list.contains(playing(list, role)[i]),
        playing(list, role)[i].role == role,
    decreases list.len(),
{
    let before = playing(list.drop_last(), role);
    if i < before.len() {
        lemma_playing_member(list.drop_last(), role, i);
        let j = choose|j: int| 0 <= j < list.drop_last().len() && list.drop_last()[j] == before[i];
        assert(list[j] == before[i]);
    } else {
        assert(list[list.len() - 1] == playing(list, role)[i]);
    }
}

/// A part of a node is smaller than the node.
pub proof fn lemma_part_smaller(n: Node, role: Role)
    ensures
        n.part(role) matches Some(c) ==> decreases_to!(n => c),
{
    if n.part(role) is Some {
        lemma_playing_member(n.children@, role, 0);
        let c = n.part(role)->0;
        let j = choose|j: int| 0 <= j < n.children@.len() && n.children@[j] == c;
        assert(decreases_to!(n => n.children@[j]));
    }
}

/// Each part of a node is smaller than the node.
pub proof fn lemma_parts_smaller(n: Node, role: Role, i: int)
    requires
        0 <= i < n.parts(role).len(),
    ensures
        decreases_to!(n => n.parts(role)[i]),
{
    lemma_playing_member(n.children@, role, i);
    let c = n.parts(role)[i];
    let j = choose|j: int| 0 <= j < n.children@.len() && n.children@[j] == c;
    assert(decreases_to!(n => n.children@[j]));
}

/// All parts of a node are smaller than the node.
pub proof fn lemma_all_parts_smaller(n: Node, role: Role)
    ensures
        forall|i: int|
            0 <= i < n.parts(role).len() ==> decreases_to!(n => #[trigger] n.parts(role)[i]),
{
    assert forall|i: int| 0 <= i < n.parts(role).len() implies decreases_to!(
        n => #[trigger] n.parts(role)[i]
    ) by {
        lemma_parts_smaller(n, role, i);
    }
}

} // verus!

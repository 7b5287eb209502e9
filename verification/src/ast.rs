//! The syntax tree the compiler works on, and the tokens the parser reads.
use vstd::prelude::*;

verus! {

/// A source position: line and column, both counted from 1.
#[derive(Clone, Copy, Debug)]
pub struct Pos {
    pub line: i32,
    pub col: i32,
}

/// The kinds of token the lexer produces.
#[derive(Debug)]
pub enum TokenKind {
    Ident(String),
    Int(i32),
    Str(String),
    Char(char),
    Bool(bool),
    LParen,
    RParen,
    LBrace,
    RBrace,
    LBracket,
    RBracket,
    Comma,
    Colon,
    DoubleColon,
    Dot,
    Arrow,
    FatArrow,
    Bind,
    BindMut,
    Pipe,
    At,
    Plus,
    Minus,
    Star,
    Slash,
    EqEq,
    NotEq,
    Lt,
    Gt,
    Newline,
    Eof,
}

/// A token with the position where it starts.
#[derive(Debug)]
pub struct Token {
    pub kind: TokenKind,
    pub pos: Pos,
}

impl TokenKind {
    /// A copy of this token kind, equal to it.
    pub fn copied(&self) -> (r: TokenKind)
        ensures
            r == *self,
    {
        match self {
            TokenKind::Ident(s) => TokenKind::Ident(s.clone()),
            TokenKind::Int(n) => TokenKind::Int(*n),
            TokenKind::Str(s) => TokenKind::Str(s.clone()),
            TokenKind::Char(c) => TokenKind::Char(*c),
            TokenKind::Bool(b) => TokenKind::Bool(*b),
            TokenKind::LParen => TokenKind::LParen,
            TokenKind::RParen => TokenKind::RParen,
            TokenKind::LBrace => TokenKind::LBrace,
            TokenKind::RBrace => TokenKind::RBrace,
            TokenKind::LBracket => TokenKind::LBracket,
            TokenKind::RBracket => TokenKind::RBracket,
            TokenKind::Comma => TokenKind::Comma,
            TokenKind::Colon => TokenKind::Colon,
            TokenKind::DoubleColon => TokenKind::DoubleColon,
            TokenKind::Dot => TokenKind::Dot,
            TokenKind::Arrow => TokenKind::Arrow,
            TokenKind::FatArrow => TokenKind::FatArrow,
            TokenKind::Bind => TokenKind::Bind,
            TokenKind::BindMut => TokenKind::BindMut,
            TokenKind::Pipe => TokenKind::Pipe,
            TokenKind::At => TokenKind::At,
            TokenKind::Plus => TokenKind::Plus,
            TokenKind::Minus => TokenKind::Minus,
            TokenKind::Star => TokenKind::Star,
            TokenKind::Slash => TokenKind::Slash,
            TokenKind::EqEq => TokenKind::EqEq,
            TokenKind::NotEq => TokenKind::NotEq,
            TokenKind::Lt => TokenKind::Lt,
            TokenKind::Gt => TokenKind::Gt,
            TokenKind::Newline => TokenKind::Newline,
            TokenKind::Eof => TokenKind::Eof,
        }
    }
}

impl Token {
    /// A copy of this token, equal to it.
    pub fn copied(&self) -> (r: Token)
        ensures
            r == *self,
    {
        Token { kind: self.kind.copied(), pos: self.pos }
    }
}

/// Binary operators.
#[derive(Clone, Copy, Debug)]
pub enum BinOp {
    Add,
    Sub,
    Mul,
    Div,
    Eq,
    Ne,
    Lt,
    Gt,
    And,
    Or,
}

/// Type annotations.
#[derive(Debug)]
pub enum TypeExpr {
    Name(String),
    Generic(String, Vec<TypeExpr>),
    Tuple(Vec<TypeExpr>),
    Fn(Vec<TypeExpr>, Box<TypeExpr>),
}

/// A lambda parameter: its name, its optional type, and whether it is
/// passed as a mutable reference (`a::T`).
#[derive(Debug)]
pub struct Param {
    pub name: String,
    pub ty: Option<TypeExpr>,
    pub is_mut: bool,
}

/// One variant of an enum definition: its name and its fields, each with an
/// optional name.
#[derive(Debug)]
pub struct VariantDef {
    pub name: String,
    pub fields: Vec<(Option<String>, TypeExpr)>,
}

/// Expressions.
#[derive(Debug)]
pub enum Expr {
    Int(i64),
    Bool(bool),
    Str(String),
    Char(char),
    Ident(String),
    List(Vec<Expr>),
    Call(Box<Expr>, Vec<Expr>),
    Field(Box<Expr>, String),
    BinOp(BinOp, Box<Expr>, Box<Expr>),
    Index(Box<Expr>, Box<Expr>),
    /// `base[from:to:step]`, each bound optional.
    Slice(Box<Expr>, Option<Box<Expr>>, Option<Box<Expr>>, Option<Box<Expr>>),
    /// Condition, then-branch statements and final expression, and the
    /// optional else-branch.
    If(Box<Expr>, Vec<Stmt>, Box<Expr>, Option<(Vec<Stmt>, Box<Expr>)>),
    /// Loop variable, iterated expression, body, optional final expression.
    For(String, Box<Expr>, Vec<Stmt>, Option<Box<Expr>>),
    /// Condition, body, optional final expression.
    While(Box<Expr>, Vec<Stmt>, Option<Box<Expr>>),
    /// `break`, optionally with a value (`break => v`).
    Break(Option<Box<Expr>>),
    /// `range(start, end, step)`, each part optional.
    Range(Option<Box<Expr>>, Option<Box<Expr>>, Option<Box<Expr>>),
    Lambda {
        generics: Vec<String>,
        params: Vec<Param>,
        ret_ty: Option<TypeExpr>,
        void_mark: Option<TypeExpr>,
        stmts: Vec<Stmt>,
        final_expr: Box<Expr>,
    },
    Unit,
}

/// Statements.
#[derive(Debug)]
pub enum Stmt {
    /// `name := value` (immutable binding).
    Bind(String, Expr),
    /// `name ::= value` (mutable binding or reassignment).
    BindMut(String, Expr),
    Expr(Expr),
    /// `use a::b::c`, as its path segments.
    Use(Vec<String>),
    EnumDef(String, Vec<VariantDef>),
}

} // verus!

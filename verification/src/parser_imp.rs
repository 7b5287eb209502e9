//! The parser's token cursor and error slot, and the syntax-tree
//! constructors that the parser uses.
use vstd::prelude::*;
use crate::ast::{Expr, Param, Stmt, Token, TokenKind, TypeExpr, VariantDef};
use crate::codegen_helpers::unbox;

verus! {

// ─── Parser state ───────────────────────────────────────────────────────────

/// The state a parse runs on: the tokens, the index of the current token,
/// the first error message (empty while there is none), and the counter for
/// generated names.
pub struct ParserState {
    pub tokens: Vec<Token>,
    pub pos: usize,
    pub err: String,
    pub gensym_counter: i32,
}

/// The index of the token the cursor looks at: the current position, or the
/// last token (the end-of-file token) once the position has run past it.
pub open spec fn current_index(pos: int, len: int) -> int {
    if pos < len - 1 {
        pos
    } else {
        len - 1
    }
}

/// The name of a token kind, as its derived `Debug` output begins.
pub open spec fn kind_name(kind: TokenKind) -> Seq<char> {
    match kind {
        TokenKind::Ident(_) => "Ident"@,
        TokenKind::Int(_) => "Int"@,
        TokenKind::Str(_) => "Str"@,
        TokenKind::Char(_) => "Char"@,
        TokenKind::Bool(_) => "Bool"@,
        TokenKind::LParen => "LParen"@,
        TokenKind::RParen => "RParen"@,
        TokenKind::LBrace => "LBrace"@,
        TokenKind::RBrace => "RBrace"@,
        TokenKind::LBracket => "LBracket"@,
        TokenKind::RBracket => "RBracket"@,
        TokenKind::Comma => "Comma"@,
        TokenKind::Colon => "Colon"@,
        TokenKind::DoubleColon => "DoubleColon"@,
        TokenKind::Dot => "Dot"@,
        TokenKind::Arrow => "Arrow"@,
        TokenKind::FatArrow => "FatArrow"@,
        TokenKind::Bind => "Bind"@,
        TokenKind::BindMut => "BindMut"@,
        TokenKind::Pipe => "Pipe"@,
        TokenKind::At => "At"@,
        TokenKind::Plus => "Plus"@,
        TokenKind::Minus => "Minus"@,
        TokenKind::Star => "Star"@,
        TokenKind::Slash => "Slash"@,
        TokenKind::EqEq => "EqEq"@,
        TokenKind::NotEq => "NotEq"@,
        TokenKind::Lt => "Lt"@,
        TokenKind::Gt => "Gt"@,
        TokenKind::Newline => "Newline"@,
        TokenKind::Eof => "Eof"@,
    }
}

/// The name of a token kind, without its payload (`Ident`, `LBrace`, ...).
pub fn token_kind_str(kind: &TokenKind) -> (r: String)
    ensures
        r@ == kind_name(*kind),
{
    let name: &str = match kind {
        TokenKind::Ident(_) => "Ident",
        TokenKind::Int(_) => "Int",
        TokenKind::Str(_) => "Str",
        TokenKind::Char(_) => "Char",
        TokenKind::Bool(_) => "Bool",
        TokenKind::LParen => "LParen",
        TokenKind::RParen => "RParen",
        TokenKind::LBrace => "LBrace",
        TokenKind::RBrace => "RBrace",
        TokenKind::LBracket => "LBracket",
        TokenKind::RBracket => "RBracket",
        TokenKind::Comma => "Comma",
        TokenKind::Colon => "Colon",
        TokenKind::DoubleColon => "DoubleColon",
        TokenKind::Dot => "Dot",
        TokenKind::Arrow => "Arrow",
        TokenKind::FatArrow => "FatArrow",
        TokenKind::Bind => "Bind",
        TokenKind::BindMut => "BindMut",
        TokenKind::Pipe => "Pipe",
        TokenKind::At => "At",
        TokenKind::Plus => "Plus",
        TokenKind::Minus => "Minus",
        TokenKind::Star => "Star",
        TokenKind::Slash => "Slash",
        TokenKind::EqEq => "EqEq",
        TokenKind::NotEq => "NotEq",
        TokenKind::Lt => "Lt",
        TokenKind::Gt => "Gt",
        TokenKind::Newline => "Newline",
        TokenKind::Eof => "Eof",
    };
    name.to_owned()
}

/// `n` widened to 64 bits.
pub fn to_i64(n: i32) -> (r: i64)
    ensures
        r == n,
{
    n as i64
}

impl ParserState {
    /// A fresh parse of `tokens`: position 0, no error, the name counter at 0.
    pub fn new(tokens: Vec<Token>) -> (r: Self)
        ensures
            r.tokens == tokens,
            r.pos == 0,
            r.err@.len() == 0,
            r.gensym_counter == 0,
    {
        ParserState { tokens, pos: 0, err: String::new(), gensym_counter: 0 }
    }

    /// Whether an error has been recorded.
    pub fn has_err_internal(&self) -> (r: bool)
        ensures
            r == (self.err@.len() > 0),
    {
        !self.err.as_str().is_empty()
    }

    /// The token under the cursor (the last token once the cursor has run
    /// past the end).
    pub fn peek_token_internal(&self) -> (r: Token)
        requires
            self.tokens.len() > 0,
        ensures
            r == self.tokens@[current_index(self.pos as int, self.tokens.len() as int)],
    {
        let len = self.tokens.len();
        let idx = if self.pos < len - 1 {
            self.pos
        } else {
            len - 1
        };
        self.tokens[idx].copied()
    }

    /// Moves the cursor one token on, unless it is already past the end.
    pub fn advance_internal(&mut self)
        ensures
            final(self).pos == (if old(self).pos < old(self).tokens.len() {
                old(self).pos + 1
            } else {
                old(self).pos as int
            }),
            final(self).tokens == old(self).tokens,
            final(self).err == old(self).err,
            final(self).gensym_counter == old(self).gensym_counter,
    {
        if self.pos < self.tokens.len() {
            self.pos = self.pos + 1;
        }
    }

    /// Clears the recorded error.
    pub fn ps_clear_err(&mut self)
        ensures
            final(self).err@.len() == 0,
            final(self).tokens == old(self).tokens,
            final(self).pos == old(self).pos,
            final(self).gensym_counter == old(self).gensym_counter,
    {
        self.err = String::new();
    }

    /// The token under the cursor.
    pub fn ps_peek_token(&self) -> (r: Token)
        requires
            self.tokens.len() > 0,
        ensures
            r == self.tokens@[current_index(self.pos as int, self.tokens.len() as int)],
    {
        self.peek_token_internal()
    }

    /// Whether the token under the cursor starts on the same line as the
    /// token before it; false after an error, and false at the first token.
    pub fn ps_same_line(&self) -> (r: bool)
        requires
            self.err@.len() == 0 ==> self.tokens.len() > 0,
        ensures
            r == (self.err@.len() == 0 && {
                let cur = current_index(self.pos as int, self.tokens.len() as int);
                cur > 0 && self.tokens@[cur].pos.line == self.tokens@[cur - 1].pos.line
            }),
    {
        if self.has_err_internal() {
            return false;
        }
        let len = self.tokens.len();
        let cur = if self.pos < len - 1 {
            self.pos
        } else {
            len - 1
        };
        cur > 0 && self.tokens[cur].pos.line == self.tokens[cur - 1].pos.line
    }

    /// The kind name of the token after the one under the cursor (the last
    /// token's when there is none); `"Eof"` after an error.
    pub fn ps_peek_next_kind(&self) -> (r: String)
        requires
            self.err@.len() == 0 ==> self.tokens.len() > 0,
        ensures
            self.err@.len() > 0 ==> r@ == "Eof"@,
            self.err@.len() == 0 ==> r@ == kind_name(
                self.tokens@[current_index(self.pos + 1, self.tokens.len() as int)].kind,
            ),
    {
        if self.has_err_internal() {
            return "Eof".to_owned();
        }
        let len = self.tokens.len();
        let next = if self.pos < len - 1 {
            self.pos + 1
        } else {
            len - 1
        };
        token_kind_str(&self.tokens[next].kind)
    }

    /// The outcome of the parse once the program has been read: the program,
    /// or the recorded error message when there is one.
    pub fn into_result(self, program: Vec<Stmt>) -> (r: Result<Vec<Stmt>, String>)
        ensures
            self.err@.len() == 0 ==> r == Ok::<Vec<Stmt>, String>(program),
            self.err@.len() > 0 ==> r == Err::<Vec<Stmt>, String>(self.err),
    {
        if self.err.as_str().is_empty() {
            Ok(program)
        } else {
            Err(self.err)
        }
    }
}

// ─── Syntax-tree constructors ───────────────────────────────────────────────

/// An optional expression, boxed.
pub open spec fn rebox(o: Option<Expr>) -> Option<Box<Expr>> {
    match o {
        Some(e) => Some(Box::new(e)),
        None => None,
    }
}

fn boxed(o: Option<Expr>) -> (r: Option<Box<Expr>>)
    ensures
        r == rebox(o),
{
    match o {
        Some(e) => Some(Box::new(e)),
        None => None,
    }
}

/// A character literal holding the first character of `s`, or `'\0'` when
/// `s` is empty.
pub fn mk_expr_char_from_str(s: String) -> (r: Expr)
    ensures
        r == Expr::Char(if s@.len() > 0 { s@[0] } else { '\0' }),
{
    let t = s.as_str();
    if t.unicode_len() == 0 {
        Expr::Char('\0')
    } else {
        Expr::Char(t.get_char(0))
    }
}

/// The slice expression `base[from:to:step]`.
pub open spec fn slice_expr(base: Expr, from: Option<Expr>, to: Option<Expr>, step: Option<Expr>) -> Expr {
    Expr::Slice(Box::new(base), rebox(from), rebox(to), rebox(step))
}

/// Builds `base[from:to:step]`.
pub fn mk_expr_slice(base: Expr, from: Option<Expr>, to: Option<Expr>, step: Option<Expr>) -> (r: Expr)
    ensures
        r == slice_expr(base, from, to, step),
{
    Expr::Slice(Box::new(base), boxed(from), boxed(to), boxed(step))
}

/// Builds a lambda without generic parameters.
pub fn mk_expr_lambda(
    params: Vec<Param>,
    ret_ty: Option<TypeExpr>,
    void_mark: Option<TypeExpr>,
    stmts: Vec<Stmt>,
    final_expr: Expr,
) -> (r: Expr)
    ensures
        r is Lambda,
        r->generics@.len() == 0,
        r->params == params,
        r->ret_ty == ret_ty,
        r->void_mark == void_mark,
        r->stmts == stmts,
        *r->final_expr == final_expr,
{
    Expr::Lambda {
        generics: Vec::new(),
        params,
        ret_ty,
        void_mark,
        stmts,
        final_expr: Box::new(final_expr),
    }
}

/// Builds a lambda with generic parameters.
pub fn mk_expr_lambda_generics(
    generics: Vec<String>,
    params: Vec<Param>,
    ret_ty: Option<TypeExpr>,
    void_mark: Option<TypeExpr>,
    stmts: Vec<Stmt>,
    final_expr: Expr,
) -> (r: Expr)
    ensures
        r == (Expr::Lambda {
            generics,
            params,
            ret_ty,
            void_mark,
            stmts,
            final_expr: Box::new(final_expr),
        }),
{
    Expr::Lambda { generics, params, ret_ty, void_mark, stmts, final_expr: Box::new(final_expr) }
}

/// Builds `for var in iter { stmts; final_expr }`.
pub fn mk_expr_for(var: String, iter: Expr, stmts: Vec<Stmt>, final_expr: Option<Expr>) -> (r: Expr)
    ensures
        r == Expr::For(var, Box::new(iter), stmts, rebox(final_expr)),
{
    Expr::For(var, Box::new(iter), stmts, boxed(final_expr))
}

/// Builds `while cond { stmts; final_expr }`.
pub fn mk_expr_while(cond: Expr, stmts: Vec<Stmt>, final_expr: Option<Expr>) -> (r: Expr)
    ensures
        r == Expr::While(Box::new(cond), stmts, rebox(final_expr)),
{
    Expr::While(Box::new(cond), stmts, boxed(final_expr))
}

/// A field name as a variant stores it: an empty name means a positional
/// field.
pub open spec fn field_label(name: String) -> Option<String> {
    if name@.len() == 0 {
        None
    } else {
        Some(name)
    }
}

/// Builds a variant whose fields pair `fnames` with `ftys` position by
/// position; an empty name makes a positional field, and fields past the
/// shorter list are dropped.
pub fn mk_variantdef_multi(name: String, fnames: Vec<String>, ftys: Vec<TypeExpr>) -> (r: VariantDef)
    ensures
        r.name == name,
        r.fields@.len() == (if fnames@.len() < ftys@.len() {
            fnames@.len()
        } else {
            ftys@.len()
        }),
        forall|i: int|
            0 <= i < r.fields@.len() ==> #[trigger] r.fields@[i] == (
                field_label(fnames@[i]),
                ftys@[i],
            ),
{
    let ghost names0 = fnames@;
    let ghost tys0 = ftys@;
    let mut fnames = fnames;
    let mut ftys = ftys;
    let mut fields: Vec<(Option<String>, TypeExpr)> = Vec::new();
    let ghost mut i: int = 0;
    while fnames.len() > 0 && ftys.len() > 0
        invariant
            0 <= i,
            fnames@ == names0.skip(i),
            ftys@ == tys0.skip(i),
            i <= names0.len(),
            i <= tys0.len(),
            fields@.len() == i,
            forall|k: int|
                0 <= k < i ==> #[trigger] fields@[k] == (field_label(names0[k]), tys0[k]),
        decreases fnames.len(),
    {
        let n = fnames.remove(0);
        let ty = ftys.remove(0);
        proof {
            assert(n == names0[i]);
            assert(ty == tys0[i]);
            assert(fnames@ =~= names0.skip(i + 1));
            assert(ftys@ =~= tys0.skip(i + 1));
        }
        let label = if n.as_str().is_empty() {
            None
        } else {
            Some(n)
        };
        fields.push((label, ty));
        proof {
            i = i + 1;
        }
    }
    VariantDef { name, fields }
}

/// Builds a variant whose fields are all positional, with types `ftys`.
pub fn mk_variantdef_positional(name: String, ftys: Vec<TypeExpr>) -> (r: VariantDef)
    ensures
        r.name == name,
        r.fields@.len() == ftys@.len(),
        forall|i: int|
            0 <= i < r.fields@.len() ==> #[trigger] r.fields@[i] == (None::<String>, ftys@[i]),
{
    let ghost tys0 = ftys@;
    let mut ftys = ftys;
    let mut fields: Vec<(Option<String>, TypeExpr)> = Vec::new();
    let ghost mut i: int = 0;
    while ftys.len() > 0
        invariant
            0 <= i <= tys0.len(),
            ftys@ == tys0.skip(i),
            fields@.len() == i,
            forall|k: int| 0 <= k < i ==> #[trigger] fields@[k] == (None::<String>, tys0[k]),
        decreases ftys.len(),
    {
        let ty = ftys.remove(0);
        proof {
            assert(ty == tys0[i]);
            assert(ftys@ =~= tys0.skip(i + 1));
        }
        fields.push((None, ty));
        proof {
            i = i + 1;
        }
    }
    VariantDef { name, fields }
}

/// The else branch `else { stmts; expr }` of an `if`.
pub fn some_else(stmts: Vec<Stmt>, expr: Expr) -> (r: Option<(Vec<Stmt>, Box<Expr>)>)
    ensures
        r == Some((stmts, Box::new(expr))),
{
    Some((stmts, Box::new(expr)))
}

/// An absent else branch.
pub fn no_else() -> (r: Option<(Vec<Stmt>, Box<Expr>)>)
    ensures
        r is None,
{
    None
}

/// Taking a slice expression apart gives back the parts it was built from.
pub proof fn law_slice_parts_read_back(base: Expr, from: Option<Expr>, to: Option<Expr>, step: Option<Expr>)
    ensures
        slice_expr(base, from, to, step) matches Expr::Slice(b, f, t, s) && *b == base && unbox(f)
            == from && unbox(t) == to && unbox(s) == step,
{
}

/// Taking a `for` or `while` loop apart gives back the final expression it
/// was built with.
pub proof fn law_loop_final_read_back(var: String, iter: Expr, cond: Expr, stmts: Vec<Stmt>, last: Option<Expr>)
    ensures
        Expr::For(var, Box::new(iter), stmts, rebox(last)) matches Expr::For(_, _, _, l)
            && unbox(l) == last,
        Expr::While(Box::new(cond), stmts, rebox(last)) matches Expr::While(_, _, l) && unbox(l)
            == last,
{
}

/// The cursor never points outside the token list: whatever the position,
/// the index it looks at is a valid index of a non-empty list.
pub proof fn law_cursor_stays_in_bounds(pos: int, len: int)
    requires
        0 <= pos,
        len > 0,
    ensures
        0 <= current_index(pos, len) < len,
        current_index(pos + 1, len) >= current_index(pos, len),
{
}

/// Different token kinds have different names, so the name of the next
/// token tells which kind it is: two kinds with the same name are the same
/// kind.
#[verifier::rlimit(50)]
pub proof fn law_kind_names_tell_kinds_apart(a: TokenKind, b: TokenKind)
    requires
        kind_name(a) == kind_name(b),
    ensures
        (a is Ident) == (b is Ident),
        (a is Int) == (b is Int),
        (a is Str) == (b is Str),
        (a is Char) == (b is Char),
        (a is Bool) == (b is Bool),
        (a is LParen) == (b is LParen),
        (a is RParen) == (b is RParen),
        (a is LBrace) == (b is LBrace),
        (a is RBrace) == (b is RBrace),
        (a is LBracket) == (b is LBracket),
        (a is RBracket) == (b is RBracket),
        (a is Comma) == (b is Comma),
        (a is Colon) == (b is Colon),
        (a is DoubleColon) == (b is DoubleColon),
        (a is Dot) == (b is Dot),
        (a is Arrow) == (b is Arrow),
        (a is FatArrow) == (b is FatArrow),
        (a is Bind) == (b is Bind),
        (a is BindMut) == (b is BindMut),
        (a is Pipe) == (b is Pipe),
        (a is At) == (b is At),
        (a is Plus) == (b is Plus),
        (a is Minus) == (b is Minus),
        (a is Star) == (b is Star),
        (a is Slash) == (b is Slash),
        (a is EqEq) == (b is EqEq),
        (a is NotEq) == (b is NotEq),
        (a is Lt) == (b is Lt),
        (a is Gt) == (b is Gt),
        (a is Newline) == (b is Newline),
        (a is Eof) == (b is Eof),
{
    reveal_strlit("Ident");
    reveal_strlit("Int");
    reveal_strlit("Str");
    reveal_strlit("Char");
    reveal_strlit("Bool");
    reveal_strlit("LParen");
    reveal_strlit("RParen");
    reveal_strlit("LBrace");
    reveal_strlit("RBrace");
    reveal_strlit("LBracket");
    reveal_strlit("RBracket");
    reveal_strlit("Comma");
    reveal_strlit("Colon");
    reveal_strlit("DoubleColon");
    reveal_strlit("Dot");
    reveal_strlit("Arrow");
    reveal_strlit("FatArrow");
    reveal_strlit("Bind");
    reveal_strlit("BindMut");
    reveal_strlit("Pipe");
    reveal_strlit("At");
    reveal_strlit("Plus");
    reveal_strlit("Minus");
    reveal_strlit("Star");
    reveal_strlit("Slash");
    reveal_strlit("EqEq");
    reveal_strlit("NotEq");
    reveal_strlit("Lt");
    reveal_strlit("Gt");
    reveal_strlit("Newline");
    reveal_strlit("Eof");
    let na = kind_name(a);
    let nb = kind_name(b);
    assert(na.len() == nb.len());
    if na.len() > 0 {
        assert(na[0] == nb[0]);
    }
    if na.len() > 1 {
        assert(na[1] == nb[1]);
    }
    if na.len() > 2 {
        assert(na[2] == nb[2]);
    }
}

} // verus!

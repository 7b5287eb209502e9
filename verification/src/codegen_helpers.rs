//! String, type and syntax-tree helpers of the code generator, and the name
//! registries that steer how enum variants and bindings are emitted.
use vstd::prelude::*;
use vstd::hash_map::StringHashMap;
use vstd::hash_set::StringHashSet;
use crate::ast::{Expr, Param, Stmt, TypeExpr};
use crate::text::{join_strings, join_with, run_of, spaces, views};

verus! {

// ─── Indentation and lists ──────────────────────────────────────────────────

/// Indentation for nesting depth `n`: `4 * n` spaces.
pub fn ind(n: i32) -> (r: String)
    requires
        0 <= n,
        4 * n <= i32::MAX,
    ensures
        r@ == run_of(' ', 4 * n as nat),
{
    spaces((n * 4) as usize)
}

/// The strings of `a` followed by those of `b`.
pub fn vec_extend_strings(a: Vec<String>, b: Vec<String>) -> (r: Vec<String>)
    ensures
        r@ == a@ + b@,
{
    let mut a = a;
    let mut b = b;
    a.append(&mut b);
    a
}

// ─── Capitalisation ─────────────────────────────────────────────────────────

/// The first character of `s` is an ASCII uppercase letter `A`–`Z`; false
/// for the empty string.
pub open spec fn starts_with_upper(s: Seq<char>) -> bool {
    s.len() > 0 && 'A' <= s[0] <= 'Z'
}

/// Whether `s` starts with an ASCII uppercase letter: how the code generator
/// tells enum variants (`PascalCase`) from struct fields.
pub fn is_upper_first(s: String) -> (r: bool)
    ensures
        r == starts_with_upper(s@),
{
    let t = s.as_str();
    if t.unicode_len() == 0 {
        return false;
    }
    let c = t.get_char(0);
    'A' <= c && c <= 'Z'
}

// ─── Homun macro names ──────────────────────────────────────────────────────

/// Whether `name` is a Homun builtin emitted as a Rust macro: `range`,
/// `len`, `filter`, `map`, `reduce`, `slice`, `dict` or `set`.
pub fn is_homun_macro(name: String) -> (r: bool)
    ensures
        r == crate::helpers::is_macro_name(name@),
{
    crate::helpers::is_homun_macro(name.as_str())
}

// ─── Generic parameter clause ───────────────────────────────────────────────

/// The generic clause for `generics`: `<A, B>` with the parameters joined
/// by `", "`, or nothing when there are none.
pub open spec fn generics_clause(generics: Seq<Seq<char>>) -> Seq<char> {
    if generics.len() == 0 {
        Seq::empty()
    } else {
        "<"@ + join_with(generics, ", "@) + ">"@
    }
}

/// Formats the generic type-parameter clause of a function.
pub fn generics_str(generics: Vec<String>) -> (r: String)
    ensures
        r@ == generics_clause(views(generics@)),
{
    if generics.len() == 0 {
        return String::new();
    }
    let mut r = String::new();
    r.append("<");
    let inner = join_strings(&generics, ", ");
    r.append(inner.as_str());
    r.append(">");
    r
}

// ─── Registries ─────────────────────────────────────────────────────────────

/// The names the code generator remembers while it emits a program: the
/// enum types that refer to themselves (their recursive fields are boxed),
/// the field types of each variant, keyed by `Enum.Variant` (for unboxing in
/// match patterns), and the bindings declared `@thread_local`.
pub struct CodegenRegistry {
    recursive: StringHashSet,
    variant_fields: StringHashMap<Vec<TypeExpr>>,
    thread_locals: StringHashSet,
    no_fields: NoFields,
}

/// An empty list of field types, handed out for unknown variants.
struct NoFields {
    empty: Vec<TypeExpr>,
}

impl NoFields {
    #[verifier::type_invariant]
    spec fn is_empty(self) -> bool {
        self.empty@.len() == 0
    }
}

impl CodegenRegistry {
    /// The self-recursive types registered since the last clear.
    pub closed spec fn recursive_types(&self) -> Set<Seq<char>> {
        self.recursive@
    }

    /// The field types registered for each qualified variant name.
    pub closed spec fn field_types(&self) -> Map<Seq<char>, Vec<TypeExpr>> {
        self.variant_fields@
    }

    /// The bindings registered as thread-local since the last clear.
    pub closed spec fn thread_local_vars(&self) -> Set<Seq<char>> {
        self.thread_locals@
    }

    /// A registry that knows no names.
    pub fn new() -> (r: Self)
        ensures
            r.recursive_types() == Set::<Seq<char>>::empty(),
            r.field_types() == Map::<Seq<char>, Vec<TypeExpr>>::empty(),
            r.thread_local_vars() == Set::<Seq<char>>::empty(),
    {
        CodegenRegistry {
            recursive: StringHashSet::new(),
            variant_fields: StringHashMap::new(),
            thread_locals: StringHashSet::new(),
            no_fields: NoFields { empty: Vec::new() },
        }
    }

    /// Marks `name` as a self-recursive type while its variants are emitted.
    pub fn register_recursive_type(&mut self, name: String)
        ensures
            final(self).recursive_types() == old(self).recursive_types().insert(name@),
            final(self).field_types() == old(self).field_types(),
            final(self).thread_local_vars() == old(self).thread_local_vars(),
    {
        self.recursive.insert(name);
    }

    /// Forgets every self-recursive type.
    pub fn clear_recursive_types(&mut self)
        ensures
            final(self).recursive_types() == Set::<Seq<char>>::empty(),
            final(self).field_types() == old(self).field_types(),
            final(self).thread_local_vars() == old(self).thread_local_vars(),
    {
        self.recursive.clear();
    }

    /// Whether `name` is currently registered as self-recursive.
    pub fn is_self_recursive_type(&self, name: String) -> (r: bool)
        ensures
            r == self.recursive_types().contains(name@),
    {
        self.recursive.contains(name.as_str())
    }

    /// Records the field types of the variant `qual` (`Enum.Variant`),
    /// replacing what was recorded for it before.
    pub fn register_variant_field_types(&mut self, qual: String, fields: Vec<TypeExpr>)
        ensures
            final(self).field_types() == old(self).field_types().insert(qual@, fields),
            final(self).recursive_types() == old(self).recursive_types(),
            final(self).thread_local_vars() == old(self).thread_local_vars(),
    {
        self.variant_fields.insert(qual, fields);
    }

    /// The field types recorded for `qual`, or an empty list when the variant
    /// is unknown.
    pub fn variant_field_types_get(&self, qual: String) -> (r: &Vec<TypeExpr>)
        ensures
            self.field_types().contains_key(qual@) ==> *r == self.field_types()[qual@],
            !self.field_types().contains_key(qual@) ==> r@.len() == 0,
    {
        proof {
            use_type_invariant(&self.no_fields);
        }
        match self.variant_fields.get(qual.as_str()) {
            Some(fields) => fields,
            None => &self.no_fields.empty,
        }
    }

    /// Whether field types were recorded for `qual`.
    pub fn variant_field_types_known(&self, qual: String) -> (r: bool)
        ensures
            r == self.field_types().contains_key(qual@),
    {
        self.variant_fields.contains_key(qual.as_str())
    }

    /// Marks `name` as a `@thread_local` binding.
    pub fn register_thread_local_var(&mut self, name: String)
        ensures
            final(self).thread_local_vars() == old(self).thread_local_vars().insert(name@),
            final(self).recursive_types() == old(self).recursive_types(),
            final(self).field_types() == old(self).field_types(),
    {
        self.thread_locals.insert(name);
    }

    /// Whether `name` was declared `@thread_local`.
    pub fn is_thread_local_var(&self, name: String) -> (r: bool)
        ensures
            r == self.thread_local_vars().contains(name@),
    {
        self.thread_locals.contains(name.as_str())
    }

    /// Forgets every thread-local binding, as each compilation starts.
    pub fn clear_thread_local_vars(&mut self)
        ensures
            final(self).thread_local_vars() == Set::<Seq<char>>::empty(),
            final(self).recursive_types() == old(self).recursive_types(),
            final(self).field_types() == old(self).field_types(),
    {
        self.thread_locals.clear();
    }
}

/// Read after write for self-recursive types: once `register_recursive_type`
/// has taken the registry from `before` to `after`, `is_self_recursive_type`
/// reports the registered name and gives every other name the answer it had.
pub proof fn law_recursive_type_read_back(
    before: CodegenRegistry,
    after: CodegenRegistry,
    name: Seq<char>,
    other: Seq<char>,
)
    requires
        after.recursive_types() == before.recursive_types().insert(name),
    ensures
        after.recursive_types().contains(name),
        other != name ==> after.recursive_types().contains(other)
            == before.recursive_types().contains(other),
{
}

/// After `clear_recursive_types`, `is_self_recursive_type` is false for every
/// name; after `clear_thread_local_vars`, `is_thread_local_var` is.
pub proof fn law_clear_forgets_every_name(after: CodegenRegistry, name: Seq<char>)
    requires
        after.recursive_types() == Set::<Seq<char>>::empty(),
        after.thread_local_vars() == Set::<Seq<char>>::empty(),
    ensures
        !after.recursive_types().contains(name),
        !after.thread_local_vars().contains(name),
{
}

/// Read after write for thread-local bindings: once
/// `register_thread_local_var` has taken the registry from `before` to
/// `after`, `is_thread_local_var` reports the registered name and gives every
/// other name the answer it had.
pub proof fn law_thread_local_read_back(
    before: CodegenRegistry,
    after: CodegenRegistry,
    name: Seq<char>,
    other: Seq<char>,
)
    requires
        after.thread_local_vars() == before.thread_local_vars().insert(name),
    ensures
        after.thread_local_vars().contains(name),
        other != name ==> after.thread_local_vars().contains(other)
            == before.thread_local_vars().contains(other),
{
}

/// Read after write for variant field types: once
/// `register_variant_field_types(qual, fields)` has taken the registry from
/// `before` to `after`, `variant_field_types_known(qual)` is true and
/// `variant_field_types_get(qual)` gives `fields`, while every other variant
/// keeps its entry.
pub proof fn law_field_types_read_back(
    before: CodegenRegistry,
    after: CodegenRegistry,
    qual: Seq<char>,
    fields: Vec<TypeExpr>,
    other: Seq<char>,
)
    requires
        after.field_types() == before.field_types().insert(qual, fields),
    ensures
        after.field_types().contains_key(qual),
        after.field_types()[qual] == fields,
        other != qual ==> after.field_types().contains_key(other)
            == before.field_types().contains_key(other),
        other != qual && before.field_types().contains_key(other) ==> after.field_types()[other]
            == before.field_types()[other],
{
}

// ─── Expression accessors ───────────────────────────────────────────────────

/// The expression inside an optional box.
pub open spec fn unbox(o: Option<Box<Expr>>) -> Option<Expr> {
    match o {
        Some(b) => Some(*b),
        None => None,
    }
}

fn take_boxed(o: Option<Box<Expr>>) -> (r: Option<Expr>)
    ensures
        r == unbox(o),
{
    match o {
        Some(b) => Some(*b),
        None => None,
    }
}

/// Whether `e` is a lambda.
pub fn expr_is_lambda(e: Expr) -> (r: bool)
    ensures
        r == (e is Lambda),
{
    match e {
        Expr::Lambda { .. } => true,
        _ => false,
    }
}

/// The start bound of a slice expression.
pub fn expr_slice_from(e: Expr) -> (r: Option<Expr>)
    requires
        e is Slice,
    ensures
        e matches Expr::Slice(_, from, _, _) && r == unbox(from),
{
    match e {
        Expr::Slice(_, from, _, _) => take_boxed(from),
        _ => None,
    }
}

/// The end bound of a slice expression.
pub fn expr_slice_to(e: Expr) -> (r: Option<Expr>)
    requires
        e is Slice,
    ensures
        e matches Expr::Slice(_, _, to, _) && r == unbox(to),
{
    match e {
        Expr::Slice(_, _, to, _) => take_boxed(to),
        _ => None,
    }
}

/// The step of a slice expression.
pub fn expr_slice_step(e: Expr) -> (r: Option<Expr>)
    requires
        e is Slice,
    ensures
        e matches Expr::Slice(_, _, _, step) && r == unbox(step),
{
    match e {
        Expr::Slice(_, _, _, step) => take_boxed(step),
        _ => None,
    }
}

/// Whether an `if` expression has an else branch.
pub fn expr_if_has_else(e: Expr) -> (r: bool)
    requires
        e is If,
    ensures
        e matches Expr::If(_, _, _, else_part) && r == else_part is Some,
{
    match e {
        Expr::If(_, _, _, else_part) => else_part.is_some(),
        _ => false,
    }
}

/// The statements of an `if` expression's else branch.
pub fn expr_if_else_stmts(e: Expr) -> (r: Vec<Stmt>)
    requires
        e matches Expr::If(_, _, _, Some(_)),
    ensures
        e matches Expr::If(_, _, _, Some(else_part)) && r == else_part.0,
{
    match e {
        Expr::If(_, _, _, Some((stmts, _))) => stmts,
        _ => Vec::new(),
    }
}

/// The final expression of an `if` expression's else branch.
pub fn expr_if_else_expr(e: Expr) -> (r: Expr)
    requires
        e matches Expr::If(_, _, _, Some(_)),
    ensures
        e matches Expr::If(_, _, _, Some(else_part)) && r == *else_part.1,
{
    match e {
        Expr::If(_, _, _, Some((_, last))) => *last,
        _ => Expr::Unit,
    }
}

/// The final expression of a `for` loop.
pub fn expr_for_final(e: Expr) -> (r: Option<Expr>)
    requires
        e is For,
    ensures
        e matches Expr::For(_, _, _, last) && r == unbox(last),
{
    match e {
        Expr::For(_, _, _, last) => take_boxed(last),
        _ => None,
    }
}

/// The final expression of a `while` loop.
pub fn expr_while_final(e: Expr) -> (r: Option<Expr>)
    requires
        e is While,
    ensures
        e matches Expr::While(_, _, last) && r == unbox(last),
{
    match e {
        Expr::While(_, _, last) => take_boxed(last),
        _ => None,
    }
}

/// The value of a `break => value`.
pub fn expr_break_value(e: Expr) -> (r: Option<Expr>)
    requires
        e is Break,
    ensures
        e matches Expr::Break(v) && r == unbox(v),
{
    match e {
        Expr::Break(v) => take_boxed(v),
        _ => None,
    }
}

/// The parameters of a lambda.
pub fn expr_lambda_params(e: Expr) -> (r: Vec<Param>)
    requires
        e is Lambda,
    ensures
        r == e->params,
{
    match e {
        Expr::Lambda { params, .. } => params,
        _ => Vec::new(),
    }
}

/// The body statements of a lambda.
pub fn expr_lambda_stmts(e: Expr) -> (r: Vec<Stmt>)
    requires
        e is Lambda,
    ensures
        r == e->stmts,
{
    match e {
        Expr::Lambda { stmts, .. } => stmts,
        _ => Vec::new(),
    }
}

/// The final expression of a lambda.
pub fn expr_lambda_final(e: Expr) -> (r: Expr)
    requires
        e is Lambda,
    ensures
        r == *e->final_expr,
{
    match e {
        Expr::Lambda { final_expr, .. } => *final_expr,
        _ => Expr::Unit,
    }
}

/// The declared return type of a lambda.
pub fn expr_lambda_ret_ty(e: Expr) -> (r: Option<TypeExpr>)
    requires
        e is Lambda,
    ensures
        r == e->ret_ty,
{
    match e {
        Expr::Lambda { ret_ty, .. } => ret_ty,
        _ => None,
    }
}

/// The void marker (`-> _`) of a lambda.
pub fn expr_lambda_void_mark(e: Expr) -> (r: Option<TypeExpr>)
    requires
        e is Lambda,
    ensures
        r == e->void_mark,
{
    match e {
        Expr::Lambda { void_mark, .. } => void_mark,
        _ => None,
    }
}

/// The generic parameters of a lambda.
pub fn expr_lambda_generics(e: Expr) -> (r: Vec<String>)
    requires
        e is Lambda,
    ensures
        r == e->generics,
{
    match e {
        Expr::Lambda { generics, .. } => generics,
        _ => Vec::new(),
    }
}

/// The start of a `range(...)`.
pub fn expr_range_start(e: Expr) -> (r: Option<Expr>)
    requires
        e is Range,
    ensures
        e matches Expr::Range(start, _, _) && r == unbox(start),
{
    match e {
        Expr::Range(start, _, _) => take_boxed(start),
        _ => None,
    }
}

/// The end of a `range(...)`.
pub fn expr_range_end(e: Expr) -> (r: Option<Expr>)
    requires
        e is Range,
    ensures
        e matches Expr::Range(_, end, _) && r == unbox(end),
{
    match e {
        Expr::Range(_, end, _) => take_boxed(end),
        _ => None,
    }
}

/// The step of a `range(...)`.
pub fn expr_range_step(e: Expr) -> (r: Option<Expr>)
    requires
        e is Range,
    ensures
        e matches Expr::Range(_, _, step) && r == unbox(step),
{
    match e {
        Expr::Range(_, _, step) => take_boxed(step),
        _ => None,
    }
}

} // verus!

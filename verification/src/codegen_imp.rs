//! Storage behind the code generator's function-signature registry, lookups
//! in the resolved-dependency tables, and generic list concatenation.
use vstd::prelude::*;
use vstd::hash_map::StringHashMap;
use vstd::hash_set::StringHashSet;
use crate::ast::Expr;

pub use crate::codegen_helpers::{
    expr_break_value, expr_for_final, expr_if_else_expr, expr_if_else_stmts, expr_if_has_else,
    expr_range_end, expr_range_start, expr_range_step, expr_slice_from, expr_slice_step,
    expr_slice_to, expr_while_final, CodegenRegistry,
};

verus! {

/// Resolved `.rs` dependency contents, keyed by module name.
pub type RsContent = StringHashMap<String>;

/// Names of the resolved `.hom` dependencies.
pub type HomFiles = StringHashSet;

/// The contents recorded for `key`, if any.
pub fn rs_content_get(map: RsContent, key: String) -> (r: Option<String>)
    ensures
        map@.contains_key(key@) ==> r == Some(map@[key@]),
        !map@.contains_key(key@) ==> r is None,
{
    match map.get(key.as_str()) {
        Some(content) => Some(content.clone()),
        None => None,
    }
}

/// Whether `key` names a resolved `.hom` dependency.
pub fn hom_files_contains(set: HomFiles, key: String) -> (r: bool)
    ensures
        r == set@.contains(key@),
{
    set.contains(key.as_str())
}

/// The elements of `a` followed by those of `b`.
pub fn vec_extend<T>(a: Vec<T>, b: Vec<T>) -> (r: Vec<T>)
    ensures
        r@ == a@ + b@,
{
    let mut a = a;
    let mut b = b;
    a.append(&mut b);
    a
}

/// What the code generator knows of the functions it has emitted: for each
/// function, which parameters are taken by mutable reference and which have
/// default arguments; and, for the function being emitted now, the names of
/// its mutable-reference parameters.
pub struct FnSignatures {
    mut_params: StringHashMap<Vec<bool>>,
    defaults: StringHashMap<Vec<Option<Expr>>>,
    current_mut_refs: StringHashSet,
    no_defaults: NoDefaults,
}

/// An empty list of defaults, handed out for unknown functions.
struct NoDefaults {
    empty: Vec<Option<Expr>>,
}

impl NoDefaults {
    #[verifier::type_invariant]
    spec fn is_empty(self) -> bool {
        self.empty@.len() == 0
    }
}

impl FnSignatures {
    /// For each function, the mutability flag of each parameter.
    pub closed spec fn mut_flags(&self) -> Map<Seq<char>, Vec<bool>> {
        self.mut_params@
    }

    /// For each function, the default argument of each parameter.
    pub closed spec fn default_args(&self) -> Map<Seq<char>, Vec<Option<Expr>>> {
        self.defaults@
    }

    /// The mutable-reference parameters of the function being emitted.
    pub closed spec fn current_mut_ref_params(&self) -> Set<Seq<char>> {
        self.current_mut_refs@
    }

    /// A registry that knows no function.
    pub fn new() -> (r: Self)
        ensures
            r.mut_flags() == Map::<Seq<char>, Vec<bool>>::empty(),
            r.default_args() == Map::<Seq<char>, Vec<Option<Expr>>>::empty(),
            r.current_mut_ref_params() == Set::<Seq<char>>::empty(),
    {
        FnSignatures {
            mut_params: StringHashMap::new(),
            defaults: StringHashMap::new(),
            current_mut_refs: StringHashSet::new(),
            no_defaults: NoDefaults { empty: Vec::new() },
        }
    }

    /// Records the mutability flags of `name`'s parameters.
    pub fn fn_mut_params_insert(&mut self, name: String, flags: Vec<bool>)
        ensures
            final(self).mut_flags() == old(self).mut_flags().insert(name@, flags),
            final(self).default_args() == old(self).default_args(),
            final(self).current_mut_ref_params() == old(self).current_mut_ref_params(),
    {
        self.mut_params.insert(name, flags);
    }

    /// Records the default arguments of `name`'s parameters.
    pub fn fn_defaults_insert(&mut self, name: String, defaults: Vec<Option<Expr>>)
        ensures
            final(self).default_args() == old(self).default_args().insert(name@, defaults),
            final(self).mut_flags() == old(self).mut_flags(),
            final(self).current_mut_ref_params() == old(self).current_mut_ref_params(),
    {
        self.defaults.insert(name, defaults);
    }

    /// Forgets the mutable-reference parameters of the previous function.
    pub fn current_mut_ref_params_clear(&mut self)
        ensures
            final(self).current_mut_ref_params() == Set::<Seq<char>>::empty(),
            final(self).mut_flags() == old(self).mut_flags(),
            final(self).default_args() == old(self).default_args(),
    {
        self.current_mut_refs.clear();
    }

    /// Marks `name` as a mutable-reference parameter of the current function.
    pub fn current_mut_ref_params_add(&mut self, name: String)
        ensures
            final(self).current_mut_ref_params() == old(self).current_mut_ref_params().insert(
                name@,
            ),
            final(self).mut_flags() == old(self).mut_flags(),
            final(self).default_args() == old(self).default_args(),
    {
        self.current_mut_refs.insert(name);
    }

    /// Whether `name` is a mutable-reference parameter of the current function.
    pub fn is_mut_ref_param(&self, name: String) -> (r: bool)
        ensures
            r == self.current_mut_ref_params().contains(name@),
    {
        self.current_mut_refs.contains(name.as_str())
    }

    /// Whether argument `arg_idx` of a call to `fn_name` goes to a parameter
    /// taken by mutable reference; false for an unknown function or an index
    /// outside its parameter list.
    pub fn is_param_mutable_in_call(&self, fn_name: String, arg_idx: i32) -> (r: bool)
        ensures
            r == param_is_mutable(self.mut_flags(), fn_name@, arg_idx as int),
    {
        match self.mut_params.get(fn_name.as_str()) {
            Some(flags) => {
                if 0 <= arg_idx && (arg_idx as usize) < flags.len() {
                    flags[arg_idx as usize]
                } else {
                    false
                }
            },
            None => false,
        }
    }

    /// The default arguments recorded for `fn_name`, or an empty list for an
    /// unknown function.
    pub fn fn_defaults_get_for(&self, fn_name: String) -> (r: &Vec<Option<Expr>>)
        ensures
            self.default_args().contains_key(fn_name@) ==> *r == self.default_args()[fn_name@],
            !self.default_args().contains_key(fn_name@) ==> r@.len() == 0,
    {
        proof {
            use_type_invariant(&self.no_defaults);
        }
        match self.defaults.get(fn_name.as_str()) {
            Some(d) => d,
            None => &self.no_defaults.empty,
        }
    }
}

/// The flag recorded for parameter `idx` of `name`, false when there is none.
pub open spec fn param_is_mutable(flags: Map<Seq<char>, Vec<bool>>, name: Seq<char>, idx: int) -> bool {
    &&& flags.contains_key(name)
    &&& 0 <= idx < flags[name]@.len()
    &&& flags[name]@[idx]
}

/// Read after write: once `name`'s flags are recorded, asking about argument
/// `i` of a call to `name` gives the recorded flag, and false past the end.
pub proof fn law_mut_flags_read_back(
    before: Map<Seq<char>, Vec<bool>>,
    name: Seq<char>,
    flags: Vec<bool>,
    i: int,
)
    ensures
        param_is_mutable(before.insert(name, flags), name, i) == (0 <= i < flags@.len()
            && flags@[i]),
{
}

/// Recording one function's flags leaves what is known of every other
/// function as it was.
pub proof fn law_mut_flags_other_names(
    before: Map<Seq<char>, Vec<bool>>,
    name: Seq<char>,
    flags: Vec<bool>,
    other: Seq<char>,
    i: int,
)
    requires
        other != name,
    ensures
        param_is_mutable(before.insert(name, flags), other, i) == param_is_mutable(
            before,
            other,
            i,
        ),
{
}

} // verus!

//! Verified core of the Homun-to-Rust compiler's support code: the runtime
//! helpers that generated programs call, the string and character helpers of
//! the code generator, the name registries that drive code generation, the
//! scope sets of semantic analysis, and the parser's token cursor.
use vstd::prelude::*;

pub mod ast;
pub mod chars;
pub mod codegen_helpers;
pub mod codegen_imp;
pub mod driver;
pub mod embedded;
pub mod helpers;
pub mod helpers_imp;
pub mod homun_std;
pub mod parser_imp;
pub mod scope;
pub mod text;

verus! {

} // verus!

//! Declarations of the outside crates' types that appear in trusted
//! signatures, so that Verus can carry their values through.

use vstd::prelude::*;

verus! {

#[verifier::external_type_specification]
#[verifier::external_body]
pub struct ExRxAst(regex_syntax::ast::Ast);

#[verifier::external_type_specification]
#[verifier::external_body]
pub struct ExRxClassSet(regex_syntax::ast::ClassSet);

#[verifier::external_type_specification]
#[verifier::external_body]
pub struct ExRxClassSetItem(regex_syntax::ast::ClassSetItem);

#[verifier::external_type_specification]
#[verifier::external_body]
pub struct ExRxSpan(regex_syntax::ast::Span);

#[verifier::external_type_specification]
#[verifier::external_body]
pub struct ExRxError(regex_syntax::ast::Error);

#[verifier::external_type_specification]
#[verifier::external_body]
pub struct ExRegex(regex::Regex);

} // verus!

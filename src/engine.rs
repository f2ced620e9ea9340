//! Declarations of the PostgreSQL client's and the pooling engine's types
//! that the library carries through without looking inside.
use vstd::prelude::*;

verus! {

#[verifier::external_type_specification]
#[verifier::external_body]
pub struct ExPgError(tokio_postgres::Error);

#[verifier::external_type_specification]
#[verifier::external_body]
pub struct ExPgConfig(tokio_postgres::Config);

#[verifier::external_type_specification]
#[verifier::external_body]
#[verifier::reject_recursive_types(E)]
pub struct ExRunError<E>(bb8::RunError<E>);

} // verus!

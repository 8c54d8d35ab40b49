//! Small helpers shared by the server.

use vstd::prelude::*;

verus! {

#[verifier::external_type_specification]
#[verifier::external_body]
pub struct ExIoError(std::io::Error);

/// Relies on `std::io::Error::new`: an I/O error of kind `Other` whose inner error
/// is the given message.
#[verifier::external_body]
fn other_io_error<E: std::fmt::Display>(e: E) -> (r: std::io::Error) {
    std::io::Error::new(std::io::ErrorKind::Other, e.to_string())
}

/// Keeps a success as it is and turns a failure into an I/O error of kind `Other`
/// that carries the failure's message.
pub fn to_io_error<R, E: std::fmt::Display>(result: Result<R, E>) -> (r: Result<R, std::io::Error>)
    ensures
        r is Ok <==> result is Ok,
        result matches Ok(v) ==> r matches Ok(w) && w == v,
{
    match result {
        Ok(v) => Ok(v),
        Err(e) => Err(other_io_error(e)),
    }
}

} // verus!

//! What the client side of a connection decides.
use vstd::prelude::*;

use crate::proto::Error;

verus! {

/// The abstract-namespace socket the daemon binds by default.
pub const DEFAULT_SOCKET_NAME: &'static str = "netdiag";

/// The socket path of an abstract name: a zero byte and the name. The path has
/// 108 bytes and the first is the leading zero.
pub fn abstract_path(name: &[u8]) -> (r: Result<Vec<u8>, String>)
    ensures
        match r {
            Ok(path) => name@.len() < 107 && path@ == seq![0u8] + name@,
            Err(words) => name@.len() >= 107 && words@ == "abstract socket name is too long"@,
        },
{
    if name.len() >= 107 {
        return Err(String::from_str("abstract socket name is too long"));
    }
    let mut path: Vec<u8> = Vec::new();
    path.push(0);
    path.extend_from_slice(name);
    assert(path@ =~= seq![0u8] + name@);
    Ok(path)
}

/// What a reply that may be an error comes to: the error's message and code, in
/// words.
pub fn check_error(error: &Option<Error>) -> (r: Result<(), String>)
    ensures
        match r {
            Ok(_) => error is None,
            Err(words) => error is Some && words@ == (error->0).message@ + " ("@ + (error->0).code.name_text() + ")"@,
        },
{
    match error {
        None => Ok(()),
        Some(e) => Err(String::from_str(e.message.as_str())
            .concat(" (")
            .concat(e.code.name())
            .concat(")")),
    }
}

} // verus!

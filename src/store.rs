//! The persisted universe: exactly 512 raw bytes, byte `i` holding the level
//! last sent on channel `i`, at a location an override may name.

use vstd::prelude::*;

verus! {

/// Why no universe could be had from the store.
#[derive(Clone, Copy, Debug, PartialEq, Eq, Structural)]
pub enum StateError {
    /// Neither an override nor a usable cache directory gives a location.
    NotFound,
    /// The stored payload is not exactly 512 bytes long.
    WrongLength,
    /// The location could not be read or written.
    Unreadable,
}

/// The universe that a stored payload holds, if it is one.
pub open spec fn decoded_state(bytes: Seq<u8>) -> Option<Seq<u8>> {
    if bytes.len() == 512 {
        Some(bytes)
    } else {
        None
    }
}

/// The payload that stores a universe.
pub open spec fn encoded_state(universe: Seq<u8>) -> Seq<u8> {
    universe
}

/// Reads a universe from a stored payload; a payload of any other length
/// than 512 bytes is refused rather than cut or padded.
pub fn decode_universe(bytes: &Vec<u8>) -> (r: Result<[u8; 512], StateError>)
    ensures
        r is Ok <==> decoded_state(bytes@) is Some,
        r is Ok ==> Some(r->Ok_0@) == decoded_state(bytes@),
        r is Err ==> r->Err_0 == StateError::WrongLength,
{
    if bytes.len() != 512 {
        return Err(StateError::WrongLength);
    }
    let mut universe = [0u8; 512];
    let mut i: usize = 0;
    while i < 512
        invariant
            i <= 512,
            bytes@.len() == 512,
            universe@.len() == 512,
            forall|j: int| 0 <= j < i ==> universe@[j] == bytes@[j],
        decreases 512 - i,
    {
        universe[i] = bytes[i];
        i = i + 1;
    }
    assert(universe@ =~= bytes@);
    Ok(universe)
}

/// The payload that stores `universe`.
pub fn encode_universe(universe: &[u8; 512]) -> (r: Vec<u8>)
    ensures
        r@ == encoded_state(universe@),
{
    let mut out: Vec<u8> = Vec::new();
    let mut i: usize = 0;
    while i < 512
        invariant
            i <= 512,
            universe@.len() == 512,
            out@ =~= universe@.take(i as int),
        decreases 512 - i,
    {
        out.push(universe[i]);
        i = i + 1;
    }
    assert(universe@.take(512) =~= universe@);
    out
}

/// Saving what was loaded leaves the stored bytes as they were, and loading
/// what was saved gives back exactly the universe saved.
pub proof fn lemma_state_round_trip(universe: [u8; 512], stored: Seq<u8>)
    ensures
        decoded_state(encoded_state(universe@)) == Some(universe@),
        decoded_state(stored) is Some ==> encoded_state(decoded_state(stored)->Some_0) == stored,
{
}

/// Picks where the state lives: a path given by override wins over the
/// default file under the user's cache directory, which is offered only where
/// that directory exists.
pub fn resolve_state_path(override_path: Option<String>, default_path: Option<String>) -> (r:
    Result<String, StateError>)
    ensures
        override_path is Some ==> r == Ok::<String, StateError>(override_path->Some_0),
        override_path is None && default_path is Some ==> r == Ok::<String, StateError>(
            default_path->Some_0,
        ),
        override_path is None && default_path is None ==> r == Err::<String, StateError>(
            StateError::NotFound,
        ),
{
    match override_path {
        Some(p) => Ok(p),
        None => match default_path {
            Some(p) => Ok(p),
            None => Err(StateError::NotFound),
        },
    }
}

} // verus!

use vstd::prelude::*;

verus! {

/// Why a value could not be turned into a term, or a term into a value.
#[derive(Debug)]
pub enum SerdeError {
    /// An atom was expected, or an atom name was too long.
    InvalidAtom,
    /// An atom or a UTF-8 binary was expected.
    ExpectedStringable,
    /// The atom `true` or `false` was expected.
    ExpectedBoolean,
    /// A binary was expected.
    ExpectedBinary,
    /// The term is not a number.
    InvalidNumber,
    /// The number does not fit the requested type.
    ExpectedNumber,
    /// A tuple was expected.
    ExpectedTuple,
    /// The tuple does not have the expected size.
    InvalidTuple,
    /// A float that is infinite or not a number, where those are not accepted.
    NonFiniteFloat,
    /// Serialization went wrong, as the message says.
    SerializationError(String),
    /// The keys and values do not make a map.
    InvalidMap,
}

} // verus!

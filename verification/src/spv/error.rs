//! Why a module could not be written.

use spirv_headers as spirv;
use vstd::prelude::*;

verus! {

/// Why a module could not be written.
#[derive(Clone, Debug)]
pub enum Error {
    /// None of these capabilities was given to the writer, and the module needs one of them.
    MissingCapabilities(Vec<spirv::Capability>),
    /// The module holds something that the writer does not know how to write.
    FeatureNotImplemented(&'static str),
}

/// What an [`Error`] says.
#[verifier::ext_equal]
pub enum Failure {
    MissingCapabilities(Seq<spirv::Capability>),
    FeatureNotImplemented(Seq<char>),
}

impl View for Error {
    type V = Failure;

    open spec fn view(&self) -> Failure {
        match self {
            Error::MissingCapabilities(capabilities) => Failure::MissingCapabilities(
                capabilities@,
            ),
            Error::FeatureNotImplemented(feature) => Failure::FeatureNotImplemented(feature@),
        }
    }
}

} // verus!

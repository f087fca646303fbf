//! What can go wrong with a block device.

use std::num::ParseIntError;
use vstd::prelude::*;

verus! {

/// The error of `url::Url::parse`.
#[verifier::external_type_specification]
#[verifier::external_body]
pub struct ExUrlParseError(url::ParseError);

/// The error of `uuid::Uuid::parse_str`.
#[verifier::external_type_specification]
#[verifier::external_body]
pub struct ExUuidError(uuid::Error);

/// An error about a block device or about the URI that describes it.
#[derive(Debug)]
#[allow(inconsistent_fields)]
pub enum BdevError {
    /// the text is no URI
    UriParseFailed { source: url::ParseError, uri: String },
    /// the URI does not describe a device
    InvalidUri { uri: String, message: String },
    /// the value of a parameter is no integer of the right type
    IntParamParseFailed { source: ParseIntError, uri: String, parameter: String, value: String },
    /// the value of the UUID parameter is no UUID
    UuidParamParseFailed { source: uuid::Error, uri: String },
    /// there is a device of that name
    BdevExists { name: String },
    /// there is no device of that name
    BdevNotFound { name: String },
    /// the device cannot be created
    CreateBdevFailedStr { error: String, name: String },
}

/// A `BdevError` with its texts as sequences of characters.
#[allow(inconsistent_fields)]
pub enum BdevErrorView {
    UriParseFailed { source: url::ParseError, uri: Seq<char> },
    InvalidUri { uri: Seq<char>, message: Seq<char> },
    IntParamParseFailed {
        source: ParseIntError,
        uri: Seq<char>,
        parameter: Seq<char>,
        value: Seq<char>,
    },
    UuidParamParseFailed { source: uuid::Error, uri: Seq<char> },
    BdevExists { name: Seq<char> },
    BdevNotFound { name: Seq<char> },
    CreateBdevFailedStr { error: Seq<char>, name: Seq<char> },
}

impl View for BdevError {
    type V = BdevErrorView;

    open spec fn view(&self) -> BdevErrorView {
        match self {
            BdevError::UriParseFailed { source, uri } => BdevErrorView::UriParseFailed {
                source: *source,
                uri: uri@,
            },
            BdevError::InvalidUri { uri, message } => BdevErrorView::InvalidUri {
                uri: uri@,
                message: message@,
            },
            BdevError::IntParamParseFailed { source, uri, parameter, value } => {
                BdevErrorView::IntParamParseFailed {
                    source: *source,
                    uri: uri@,
                    parameter: parameter@,
                    value: value@,
                }
            },
            BdevError::UuidParamParseFailed { source, uri } => {
                BdevErrorView::UuidParamParseFailed { source: *source, uri: uri@ }
            },
            BdevError::BdevExists { name } => BdevErrorView::BdevExists { name: name@ },
            BdevError::BdevNotFound { name } => BdevErrorView::BdevNotFound { name: name@ },
            BdevError::CreateBdevFailedStr { error, name } => BdevErrorView::CreateBdevFailedStr {
                error: error@,
                name: name@,
            },
        }
    }
}

/// An error of creating or destroying a device: one that is found here, or one
/// that the device layer reports, passed on unchanged.
#[derive(Debug)]
pub enum RaidError<E> {
    Bdev(BdevError),
    Device(E),
}

/// A `RaidError` with the error that is found here as a mathematical value.
pub enum RaidErrorView<E> {
    Bdev(BdevErrorView),
    Device(E),
}

impl<E> View for RaidError<E> {
    type V = RaidErrorView<E>;

    open spec fn view(&self) -> RaidErrorView<E> {
        match self {
            RaidError::Bdev(error) => RaidErrorView::Bdev(error@),
            RaidError::Device(error) => RaidErrorView::Device(*error),
        }
    }
}

/// An error stands for its variant, its texts and its source, each under its own
/// name.
pub proof fn law_error_parts(error: BdevError)
    ensures
        match error {
            BdevError::UriParseFailed { source, uri } => error@ == (
            BdevErrorView::UriParseFailed { source, uri: uri@ }),
            BdevError::InvalidUri { uri, message } => error@ == (
            BdevErrorView::InvalidUri { uri: uri@, message: message@ }),
            BdevError::IntParamParseFailed { source, uri, parameter, value } => error@ == (
            BdevErrorView::IntParamParseFailed {
                source,
                uri: uri@,
                parameter: parameter@,
                value: value@,
            }),
            BdevError::UuidParamParseFailed { source, uri } => error@ == (
            BdevErrorView::UuidParamParseFailed { source, uri: uri@ }),
            BdevError::BdevExists { name } => error@ == (BdevErrorView::BdevExists { name: name@ }),
            BdevError::BdevNotFound { name } => error@ == (
            BdevErrorView::BdevNotFound { name: name@ }),
            BdevError::CreateBdevFailedStr { error: reason, name } => error@ == (
            BdevErrorView::CreateBdevFailedStr { error: reason@, name: name@ }),
        },
{
}

/// An error of the device layer stands for itself, and one that is found here for
/// what it is.
pub proof fn law_raid_error_parts<E>(error: RaidError<E>)
    ensures
        match error {
            RaidError::Bdev(found) => error@ == RaidErrorView::<E>::Bdev(found@),
            RaidError::Device(reported) => error@ == RaidErrorView::Device(reported),
        },
{
}

} // verus!

//! What can go wrong in an exchange with the service, per operation.

use vstd::prelude::*;
use crate::types::DsClientIdError;
use crate::wire::CodecError;

verus! {

/// Why one exchange with the service failed.
#[derive(Debug)]
pub enum SendMessageError {
    /// The transport failed before a reply arrived, with its description.
    TransportError(String),
    /// The reply carried a status that is neither success nor a reported
    /// failure.
    NetworkError(u16),
    /// The service reported a failure, with its description.
    MinimalDsError(String),
    /// The request could not be encoded, or the reply could not be decoded.
    PayloadSerializationError(CodecError),
}

/// Why registration failed.
#[derive(Debug)]
pub enum RegisterClientError {
    InvalidInput(&'static str),
    InvalidClientId(DsClientIdError),
    UnexpectedResponse,
    RegisterClientError(SendMessageError),
}

/// Why listing the clients failed.
#[derive(Debug)]
pub enum ListClientsError {
    UnexpectedResponse,
    RegisterClientError(SendMessageError),
}

/// Why fetching messages failed.
#[derive(Debug)]
pub enum FetchMessagesError {
    FetchMessagesError(SendMessageError),
    UnexpectedResponse,
}

/// Why uploading key packages failed.
#[derive(Debug)]
pub enum UploadKeyPackagesError {
    UnexpectedResponse,
    UploadKeyPackageError(SendMessageError),
}

/// Why creating a group failed.
#[derive(Debug)]
pub enum CreateGroupError {
    UnexpectedResponse,
    CreateGroupError(SendMessageError),
}

/// Why fetching a key package failed.
#[derive(Debug)]
pub enum FetchKeyPackageError {
    UnexpectedResponse,
    FetchKeyPackageError(SendMessageError),
}

/// Why distributing a group message failed.
#[derive(Debug)]
pub enum DistributeGroupMessageError {
    InvalidInput(&'static str),
    UnexpectedResponse,
    DistributeGroupMessageError(SendMessageError),
}

/// Why distributing a welcome failed.
#[derive(Debug)]
pub enum DistributeWelcomeError {
    InvalidInput(&'static str),
    UnexpectedResponse,
    DistributeWelcomeError(SendMessageError),
}

/// Why deleting a group failed.
#[derive(Debug)]
pub enum DeleteGroupError {
    UnexpectedResponse,
    DeleteGroupError(SendMessageError),
}

/// Why deleting a client failed.
#[derive(Debug)]
pub enum DeleteClientError {
    UnexpectedResponse,
    DeleteClientError(SendMessageError),
}

} // verus!

//! What the cloud storage answers.

use vstd::prelude::*;
use vstd::string::*;

use crate::digest::KeyFingerprint;

verus! {

/// Why a storage operation failed.
#[derive(Debug)]
pub enum StorageError {
    /// The object is not there.
    NotFound(String),
    /// The provider could not be reached.
    Transport(String),
    /// The provider, or the stored bytes, refused the operation.
    Other(String),
}

/// What a [`StorageError`] says.
pub ghost enum StorageErrorView {
    NotFound(Seq<char>),
    Transport(Seq<char>),
    Other(Seq<char>),
}

impl View for StorageError {
    type V = StorageErrorView;

    open spec fn view(&self) -> StorageErrorView {
        match self {
            StorageError::NotFound(detail) => StorageErrorView::NotFound(detail@),
            StorageError::Transport(detail) => StorageErrorView::Transport(detail@),
            StorageError::Other(detail) => StorageErrorView::Other(detail@),
        }
    }
}

impl StorageErrorView {
    /// The error in words.
    pub open spec fn message_text(self) -> Seq<char> {
        match self {
            StorageErrorView::NotFound(detail) => "not found: "@ + detail,
            StorageErrorView::Transport(detail) => "transport: "@ + detail,
            StorageErrorView::Other(detail) => detail,
        }
    }
}

impl StorageError {
    /// Whether the provider could not be reached, so that the device is offline.
    pub fn is_transport(&self) -> (transport: bool)
        ensures
            transport == (self is Transport),
    {
        match self {
            StorageError::Transport(_) => true,
            _ => false,
        }
    }

    /// The error in words.
    pub fn message(&self) -> (text: String)
        ensures
            text@ == self@.message_text(),
    {
        match self {
            StorageError::NotFound(detail) => "not found: ".to_owned().concat(detail.as_str()),
            StorageError::Transport(detail) => "transport: ".to_owned().concat(detail.as_str()),
            StorageError::Other(detail) => detail.clone(),
        }
    }
}

/// How a home protects the blobs it stores.
#[derive(Debug, Clone, Copy)]
pub enum BlobSpoolProtection {
    /// Sealed, under the key with this fingerprint.
    Opaque(KeyFingerprint),
    /// In the clear, under readable paths.
    Browsable,
}

} // verus!

//! The messages that an orchestrator and the upload worker exchange. The
//! exchange is lock-step: the worker reads one request, answers it with any
//! number of progress reports and then one final response, and only then
//! reads the next request.

use vstd::prelude::*;

verus! {

/// Where a bundle is to be sent.
#[derive(Debug, PartialEq, Eq)]
pub struct Network {
    pub url: String,
    pub krb_service_name: String,
}

/// The operation of an upload request.
#[derive(Debug, PartialEq, Eq)]
pub struct UploadRequest {
    pub id: String,
    pub network: Option<Network>,
}

/// A network, as the contracts see it.
pub struct NetworkView {
    pub url: Seq<char>,
    pub krb_service_name: Seq<char>,
}

impl Network {
    pub open spec fn view(&self) -> NetworkView {
        NetworkView { url: self.url@, krb_service_name: self.krb_service_name@ }
    }
}

/// An upload request, as the contracts see it.
pub struct UploadRequestView {
    pub id: Seq<char>,
    pub network: Option<NetworkView>,
}

impl UploadRequest {
    pub open spec fn view(&self) -> UploadRequestView {
        UploadRequestView {
            id: self.id@,
            network: match self.network {
                Some(n) => Some(n@),
                None => None,
            },
        }
    }
}

/// A request, as the contracts see it.
pub enum RequestView {
    Upload(UploadRequestView),
    End,
    Empty,
}

/// A response, as the contracts see it.
pub enum ResponseView {
    Upload,
    UploadStatus { current_size: u64, total_size: u64 },
    End,
    Error { err: Seq<char> },
}

impl ResponseView {
    /// A final response closes the exchange that a request opened; a progress
    /// report does not.
    pub open spec fn is_final(self) -> bool {
        !(self is UploadStatus)
    }
}

/// What the orchestrator asks of the worker.
#[derive(Debug, PartialEq, Eq)]
pub enum Request {
    /// Send the held file.
    Upload(UploadRequest),
    /// Stop.
    End,
    /// An envelope that carries no operation.
    Empty,
}

/// What the worker answers.
#[derive(Debug, PartialEq, Eq)]
pub enum Response {
    /// The upload went through.
    Upload,
    /// So many bytes of the file have been sent.
    UploadStatus { current_size: u64, total_size: u64 },
    /// The worker stops.
    End,
    /// The request was not carried out.
    Error { err: String },
}

impl Request {
    pub open spec fn view(&self) -> RequestView {
        match *self {
            Request::Upload(u) => RequestView::Upload(u@),
            Request::End => RequestView::End,
            Request::Empty => RequestView::Empty,
        }
    }
}

impl Response {
    pub open spec fn view(&self) -> ResponseView {
        match *self {
            Response::Upload => ResponseView::Upload,
            Response::UploadStatus { current_size, total_size } => ResponseView::UploadStatus {
                current_size,
                total_size,
            },
            Response::End => ResponseView::End,
            Response::Error { err } => ResponseView::Error { err: err@ },
        }
    }

    /// Whether this response closes an exchange.
    pub fn closes_exchange(&self) -> (b: bool)
        ensures
            b == self@.is_final(),
    {
        match self {
            Response::UploadStatus { .. } => false,
            _ => true,
        }
    }
}

} // verus!

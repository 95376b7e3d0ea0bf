use vstd::prelude::*;

use crate::body::{reply_view, InnerStreamBody, StreamBody, StreamFork};
use crate::event::{ProxyEvent, ProxyState, ProxyStateView};
use crate::headers::{duplicate_headers, headers_view, Header, HeaderView, HttpVersion};
use crate::uri::{UriParts, UriView};

verus! {

/// The editable part of a request: everything but the body. Header order,
/// duplicates included, is the wire order.
#[derive(Debug)]
pub struct RequestHead {
    pub method: String,
    pub uri: UriParts,
    pub version: HttpVersion,
    pub headers: Vec<Header>,
}

/// The mathematical content of a request head.
pub ghost struct RequestHeadView {
    pub method: Seq<char>,
    pub uri: UriView,
    pub version: HttpVersion,
    pub headers: Seq<HeaderView>,
}

impl View for RequestHead {
    type V = RequestHeadView;

    open spec fn view(&self) -> RequestHeadView {
        RequestHeadView {
            method: self.method@,
            uri: self.uri@,
            version: self.version,
            headers: headers_view(self.headers@),
        }
    }
}

impl RequestHead {
    /// A fresh head with the same content.
    pub fn duplicate(&self) -> (r: RequestHead)
        ensures
            r@ == self@,
    {
        let uri = UriParts {
            scheme: match &self.uri.scheme {
                Some(s) => Some(s.clone()),
                None => None,
            },
            authority: match &self.uri.authority {
                Some(a) => Some(a.clone()),
                None => None,
            },
            path_and_query: self.uri.path_and_query.clone(),
        };
        let r = RequestHead {
            method: self.method.clone(),
            uri,
            version: self.version,
            headers: duplicate_headers(&self.headers),
        };
        proof {
            assert(r@.uri == self@.uri);
        }
        r
    }
}

/// The head the upstream will see: the editor's replacement when the reply
/// carries a request head, the original on any other reply or on a dropped
/// callback.
pub open spec fn resolved_req_head(
    original: RequestHeadView,
    reply: Option<ProxyStateView>,
) -> RequestHeadView {
    match reply {
        Some(ProxyStateView::RequestHead(h)) => h,
        _ => original,
    }
}

/// One request as it flows through the proxy: the head after the editor had
/// its chance, and the streaming body that will forward the chunks.
#[derive(Debug)]
pub struct Request {
    pub head: RequestHead,
    pub body: StreamBody,
}

impl Request {
    /// Build the envelope: emit the request-head event carrying the head as
    /// the client sent it, resolve the editor's reply, and pair the resolved
    /// head with a fresh request-side streaming body under the same id.
    pub fn from_request(head: RequestHead, id: u32, reply: Option<ProxyState>) -> (r: (
        Request,
        ProxyEvent,
    ))
        ensures
            r.1@.id == id,
            r.1@.event == ProxyStateView::RequestHead(head@),
            r.1@.callback,
            r.0.head@ == resolved_req_head(head@, reply_view(reply)),
            r.0.body.inner == Some(
                InnerStreamBody { id, stream: StreamFork::RequestStream, closed: false },
            ),
    {
        let event = ProxyEvent::req_head(id, &head);
        let resolved = match reply {
            Some(ProxyState::RequestHead(h)) => h,
            _ => head,
        };
        (Request { head: resolved, body: StreamBody::stream_request(id) }, event)
    }

    /// Reassemble the forwardable message: the resolved head travels on
    /// unchanged, method, URI, version and header order included, together
    /// with the body stream, which can be taken out only this once.
    pub fn into_message(self) -> (r: (RequestHead, InnerStreamBody))
        requires
            self.body.inner is Some,
        ensures
            r.0 == self.head,
            Some(r.1) == self.body.inner,
    {
        let Request { head, mut body } = self;
        let inner = match body.try_take() {
            Some(inner) => inner,
            None => {
                proof {
                    assert(false);
                }
                unreached()
            },
        };
        (head, inner)
    }
}

/// Edit round-trip, request side: a reply that carries a request head — its
/// URI changed or not — is exactly what the upstream receives; a reply of any
/// other kind, and a dropped callback, leave the original in place.
pub proof fn lemma_edit_round_trip(
    original: RequestHeadView,
    replacement: RequestHeadView,
    reply: Option<ProxyStateView>,
)
    ensures
        resolved_req_head(original, Some(ProxyStateView::RequestHead(replacement))) == replacement,
        !(reply matches Some(ProxyStateView::RequestHead(_))) ==> resolved_req_head(original, reply)
            == original,
{
}

} // verus!

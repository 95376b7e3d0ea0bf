use vstd::prelude::*;

use crate::body::{reply_view, InnerStreamBody, StreamBody, StreamFork};
use crate::event::{ProxyEvent, ProxyState, ProxyStateView};
use crate::headers::{duplicate_headers, headers_view, Header, HeaderView, HttpVersion};

verus! {

/// The editable part of a response: everything but the body.
#[derive(Debug)]
pub struct ResponseHead {
    pub status: u16,
    pub version: HttpVersion,
    pub headers: Vec<Header>,
}

/// The mathematical content of a response head.
pub ghost struct ResponseHeadView {
    pub status: u16,
    pub version: HttpVersion,
    pub headers: Seq<HeaderView>,
}

impl View for ResponseHead {
    type V = ResponseHeadView;

    open spec fn view(&self) -> ResponseHeadView {
        ResponseHeadView {
            status: self.status,
            version: self.version,
            headers: headers_view(self.headers@),
        }
    }
}

impl ResponseHead {
    /// A fresh head with the same content.
    pub fn duplicate(&self) -> (r: ResponseHead)
        ensures
            r@ == self@,
    {
        ResponseHead {
            status: self.status,
            version: self.version,
            headers: duplicate_headers(&self.headers),
        }
    }
}

/// The head the client will see: the editor's replacement when the reply
/// carries a response head, the original on any other reply or on a dropped
/// callback.
pub open spec fn resolved_resp_head(
    original: ResponseHeadView,
    reply: Option<ProxyStateView>,
) -> ResponseHeadView {
    match reply {
        Some(ProxyStateView::ResponseHead(h)) => h,
        _ => original,
    }
}

/// One response as it flows back through the proxy: the head after the editor
/// had its chance, and the streaming body that will forward the chunks.
#[derive(Debug)]
pub struct Response {
    pub head: ResponseHead,
    pub body: StreamBody,
}

impl Response {
    /// Build the envelope: emit the response-head event carrying the head as
    /// the upstream sent it, resolve the editor's reply, and pair the
    /// resolved head with a fresh response-side streaming body under the
    /// same id.
    pub fn from_response(head: ResponseHead, id: u32, reply: Option<ProxyState>) -> (r: (
        Response,
        ProxyEvent,
    ))
        ensures
            r.1@.id == id,
            r.1@.event == ProxyStateView::ResponseHead(head@),
            r.1@.callback,
            r.0.head@ == resolved_resp_head(head@, reply_view(reply)),
            r.0.body.inner == Some(
                InnerStreamBody { id, stream: StreamFork::ResponseStream, closed: false },
            ),
    {
        let event = ProxyEvent::resp_head(id, &head);
        let resolved = match reply {
            Some(ProxyState::ResponseHead(h)) => h,
            _ => head,
        };
        (Response { head: resolved, body: StreamBody::stream_response(id) }, event)
    }

    /// Reassemble the message for the client: the resolved head travels on
    /// unchanged, status, version and header order included, together with
    /// the body stream, which can be taken out only this once.
    pub fn into_message(self) -> (r: (ResponseHead, InnerStreamBody))
        requires
            self.body.inner is Some,
        ensures
            r.0 == self.head,
            Some(r.1) == self.body.inner,
    {
        let Response { head, mut body } = self;
        let inner = match body.try_take() {
            Some(inner) => inner,
            None => {
                proof {
                    assert(false);
                }
                unreached()
            },
        };
        (head, inner)
    }
}

/// Edit round-trip, response side: a reply that carries a response head is
/// exactly what the client receives; a reply of any other kind, and a dropped
/// callback, leave the original in place.
pub proof fn lemma_resp_edit_round_trip(
    original: ResponseHeadView,
    replacement: ResponseHeadView,
    reply: Option<ProxyStateView>,
)
    ensures
        resolved_resp_head(original, Some(ProxyStateView::ResponseHead(replacement)))
            == replacement,
        !(reply matches Some(ProxyStateView::ResponseHead(_))) ==> resolved_resp_head(
            original,
            reply,
        ) == original,
{
}

} // verus!

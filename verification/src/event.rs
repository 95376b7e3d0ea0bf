use vstd::prelude::*;

use crate::headers::clone_bytes;
use crate::request::{RequestHead, RequestHeadView};
use crate::response::{ResponseHead, ResponseHeadView};

verus! {

/// What one event reports. Head and body-chunk kinds are mutable: an editor
/// may answer their callback with a replacement of the same kind. Done, the
/// upgrade traffic and its markers, errors and messages only inform.
#[derive(Debug)]
pub enum ProxyState {
    RequestHead(RequestHead),
    RequestChunk(Vec<u8>),
    RequestDone,
    ResponseHead(ResponseHead),
    ResponseChunk(Vec<u8>),
    ResponseDone,
    UpgradeOpen,
    UpgradeTx { id: u32, chunk: Vec<u8> },
    UpgradeRx { id: u32, chunk: Vec<u8> },
    UpgradeClose,
    Error(String),
    Msg(String),
    Shutdown,
}

/// The mathematical content of an event kind.
pub ghost enum ProxyStateView {
    RequestHead(RequestHeadView),
    RequestChunk(Seq<u8>),
    RequestDone,
    ResponseHead(ResponseHeadView),
    ResponseChunk(Seq<u8>),
    ResponseDone,
    UpgradeOpen,
    UpgradeTx { id: u32, chunk: Seq<u8> },
    UpgradeRx { id: u32, chunk: Seq<u8> },
    UpgradeClose,
    Error(Seq<char>),
    Msg(Seq<char>),
    Shutdown,
}

impl View for ProxyState {
    type V = ProxyStateView;

    open spec fn view(&self) -> ProxyStateView {
        match self {
            ProxyState::RequestHead(h) => ProxyStateView::RequestHead(h@),
            ProxyState::RequestChunk(c) => ProxyStateView::RequestChunk(c@),
            ProxyState::RequestDone => ProxyStateView::RequestDone,
            ProxyState::ResponseHead(h) => ProxyStateView::ResponseHead(h@),
            ProxyState::ResponseChunk(c) => ProxyStateView::ResponseChunk(c@),
            ProxyState::ResponseDone => ProxyStateView::ResponseDone,
            ProxyState::UpgradeOpen => ProxyStateView::UpgradeOpen,
            ProxyState::UpgradeTx { id, chunk } => (ProxyStateView::UpgradeTx {
                id: *id,
                chunk: chunk@,
            }),
            ProxyState::UpgradeRx { id, chunk } => (ProxyStateView::UpgradeRx {
                id: *id,
                chunk: chunk@,
            }),
            ProxyState::UpgradeClose => ProxyStateView::UpgradeClose,
            ProxyState::Error(m) => ProxyStateView::Error(m@),
            ProxyState::Msg(m) => ProxyStateView::Msg(m@),
            ProxyState::Shutdown => ProxyStateView::Shutdown,
        }
    }
}

/// One event on the bus: the request it belongs to (0 for bus-wide news),
/// what it reports, and whether a reply callback rides along. In the running
/// proxy the callback is a single-shot reply channel; here the flag records
/// that one was attached, and the reply itself arrives as a plain value where
/// a decision consumes it.
#[derive(Debug)]
pub struct ProxyEvent {
    pub id: u32,
    pub event: ProxyState,
    pub callback: bool,
}

/// The mathematical content of one event.
pub ghost struct ProxyEventView {
    pub id: u32,
    pub event: ProxyStateView,
    pub callback: bool,
}

impl View for ProxyEvent {
    type V = ProxyEventView;

    open spec fn view(&self) -> ProxyEventView {
        ProxyEventView { id: self.id, event: self.event@, callback: self.callback }
    }
}

impl ProxyState {
    /// A fresh event kind with the same content.
    pub fn duplicate(&self) -> (r: ProxyState)
        ensures
            r@ == self@,
    {
        match self {
            ProxyState::RequestHead(h) => ProxyState::RequestHead(h.duplicate()),
            ProxyState::RequestChunk(c) => ProxyState::RequestChunk(clone_bytes(c)),
            ProxyState::RequestDone => ProxyState::RequestDone,
            ProxyState::ResponseHead(h) => ProxyState::ResponseHead(h.duplicate()),
            ProxyState::ResponseChunk(c) => ProxyState::ResponseChunk(clone_bytes(c)),
            ProxyState::ResponseDone => ProxyState::ResponseDone,
            ProxyState::UpgradeOpen => ProxyState::UpgradeOpen,
            ProxyState::UpgradeTx { id, chunk } => ProxyState::UpgradeTx {
                id: *id,
                chunk: clone_bytes(chunk),
            },
            ProxyState::UpgradeRx { id, chunk } => ProxyState::UpgradeRx {
                id: *id,
                chunk: clone_bytes(chunk),
            },
            ProxyState::UpgradeClose => ProxyState::UpgradeClose,
            ProxyState::Error(m) => ProxyState::Error(m.clone()),
            ProxyState::Msg(m) => ProxyState::Msg(m.clone()),
            ProxyState::Shutdown => ProxyState::Shutdown,
        }
    }
}

impl ProxyEvent {
    /// A fresh event with the same content.
    pub fn duplicate(&self) -> (r: ProxyEvent)
        ensures
            r@ == self@,
    {
        ProxyEvent { id: self.id, event: self.event.duplicate(), callback: self.callback }
    }

    /// The request-head event: carries the head as the client sent it, with
    /// a callback for an edited replacement.
    pub fn req_head(id: u32, head: &RequestHead) -> (r: ProxyEvent)
        ensures
            r@.id == id,
            r@.event == ProxyStateView::RequestHead(head@),
            r@.callback,
    {
        ProxyEvent { id, event: ProxyState::RequestHead(head.duplicate()), callback: true }
    }

    /// A request-body chunk event: carries the bytes before any edit, with a
    /// callback for a replacement chunk.
    pub fn req_chunk(id: u32, chunk: &Vec<u8>) -> (r: ProxyEvent)
        ensures
            r@.id == id,
            r@.event == ProxyStateView::RequestChunk(chunk@),
            r@.callback,
    {
        ProxyEvent { id, event: ProxyState::RequestChunk(clone_bytes(chunk)), callback: true }
    }

    /// The end of a request body. No callback: nothing is editable here.
    pub fn req_done(id: u32) -> (r: ProxyEvent)
        ensures
            r@.id == id,
            r@.event == ProxyStateView::RequestDone,
            !r@.callback,
    {
        ProxyEvent { id, event: ProxyState::RequestDone, callback: false }
    }

    /// The response-head event, with a callback for an edited replacement.
    pub fn resp_head(id: u32, head: &ResponseHead) -> (r: ProxyEvent)
        ensures
            r@.id == id,
            r@.event == ProxyStateView::ResponseHead(head@),
            r@.callback,
    {
        ProxyEvent { id, event: ProxyState::ResponseHead(head.duplicate()), callback: true }
    }

    /// A response-body chunk event, with a callback for a replacement chunk.
    pub fn resp_chunk(id: u32, chunk: &Vec<u8>) -> (r: ProxyEvent)
        ensures
            r@.id == id,
            r@.event == ProxyStateView::ResponseChunk(chunk@),
            r@.callback,
    {
        ProxyEvent { id, event: ProxyState::ResponseChunk(clone_bytes(chunk)), callback: true }
    }

    /// The end of a response body.
    pub fn resp_done(id: u32) -> (r: ProxyEvent)
        ensures
            r@.id == id,
            r@.event == ProxyStateView::ResponseDone,
            !r@.callback,
    {
        ProxyEvent { id, event: ProxyState::ResponseDone, callback: false }
    }

    /// Both sides of a request have switched protocols: raw bytes follow.
    pub fn upgrade_open(id: u32) -> (r: ProxyEvent)
        ensures
            r@.id == id,
            r@.event == ProxyStateView::UpgradeOpen,
            !r@.callback,
    {
        ProxyEvent { id, event: ProxyState::UpgradeOpen, callback: false }
    }

    /// A block of post-upgrade bytes travelling from the client to the
    /// upstream, numbered within its connection. No callback: the relay is
    /// transparent and forwards every block verbatim, so there is nothing to
    /// edit.
    pub fn upgrade_tx(req_id: u32, id: u32, chunk: &Vec<u8>) -> (r: ProxyEvent)
        ensures
            r@.id == req_id,
            r@.event == (ProxyStateView::UpgradeTx { id, chunk: chunk@ }),
            !r@.callback,
    {
        ProxyEvent {
            id: req_id,
            event: ProxyState::UpgradeTx { id, chunk: clone_bytes(chunk) },
            callback: false,
        }
    }

    /// A block of post-upgrade bytes travelling from the upstream to the
    /// client, numbered within its connection. No callback: the relay is
    /// transparent.
    pub fn upgrade_rx(req_id: u32, id: u32, chunk: &Vec<u8>) -> (r: ProxyEvent)
        ensures
            r@.id == req_id,
            r@.event == (ProxyStateView::UpgradeRx { id, chunk: chunk@ }),
            !r@.callback,
    {
        ProxyEvent {
            id: req_id,
            event: ProxyState::UpgradeRx { id, chunk: clone_bytes(chunk) },
            callback: false,
        }
    }

    /// The post-upgrade relay has ended, on either side's close or error.
    pub fn upgrade_close(id: u32) -> (r: ProxyEvent)
        ensures
            r@.id == id,
            r@.event == ProxyStateView::UpgradeClose,
            !r@.callback,
    {
        ProxyEvent { id, event: ProxyState::UpgradeClose, callback: false }
    }

    /// Something went wrong for this request; the message explains it.
    pub fn err(id: u32, msg: String) -> (r: ProxyEvent)
        ensures
            r@.id == id,
            r@.event == ProxyStateView::Error(msg@),
            !r@.callback,
    {
        ProxyEvent { id, event: ProxyState::Error(msg), callback: false }
    }

    /// Bus-wide news that changes no request's state; carried under id 0.
    pub fn msg(msg: String) -> (r: ProxyEvent)
        ensures
            r@.id == 0,
            r@.event == ProxyStateView::Msg(msg@),
            !r@.callback,
    {
        ProxyEvent { id: 0, event: ProxyState::Msg(msg), callback: false }
    }

    /// The proxy is stopping; subscribers read what remains and end.
    pub fn shutdown() -> (r: ProxyEvent)
        ensures
            r@.id == 0,
            r@.event == ProxyStateView::Shutdown,
            !r@.callback,
    {
        ProxyEvent { id: 0, event: ProxyState::Shutdown, callback: false }
    }
}

} // verus!

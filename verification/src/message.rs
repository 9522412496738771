use vstd::prelude::*;

verus! {

/// One piece of a fragmented transport message.
#[derive(Debug, PartialEq)]
pub enum FrameItem {
    FirstText(Vec<u8>),
    FirstBinary(Vec<u8>),
    Continue(Vec<u8>),
    Last(Vec<u8>),
}

/// A transport frame as the registry and the connection handlers see it:
/// application payloads (text or binary), the liveness probes, close, and
/// fragmented continuations. This is the library's own model of the
/// transport's message type; the process edge converts to and from the
/// transport crate's frames.
#[derive(Debug, PartialEq)]
pub enum Frame {
    Text(String),
    Binary(Vec<u8>),
    Ping(Vec<u8>),
    Pong(Vec<u8>),
    Close(Option<u16>),
    Continuation(FrameItem),
    Nop,
}

/// The mathematical value of a `FrameItem`: the same variant over the byte
/// sequence it carries.
pub enum FrameItemView {
    FirstText(Seq<u8>),
    FirstBinary(Seq<u8>),
    Continue(Seq<u8>),
    Last(Seq<u8>),
}

/// The mathematical value of a `Frame`: the same variant over the character
/// or byte sequence it carries.
pub enum FrameView {
    Text(Seq<char>),
    Binary(Seq<u8>),
    Ping(Seq<u8>),
    Pong(Seq<u8>),
    Close(Option<u16>),
    Continuation(FrameItemView),
    Nop,
}

impl View for FrameItem {
    type V = FrameItemView;

    open spec fn view(&self) -> FrameItemView {
        match self {
            FrameItem::FirstText(b) => FrameItemView::FirstText(b@),
            FrameItem::FirstBinary(b) => FrameItemView::FirstBinary(b@),
            FrameItem::Continue(b) => FrameItemView::Continue(b@),
            FrameItem::Last(b) => FrameItemView::Last(b@),
        }
    }
}

impl View for Frame {
    type V = FrameView;

    open spec fn view(&self) -> FrameView {
        match self {
            Frame::Text(s) => FrameView::Text(s@),
            Frame::Binary(b) => FrameView::Binary(b@),
            Frame::Ping(b) => FrameView::Ping(b@),
            Frame::Pong(b) => FrameView::Pong(b@),
            Frame::Close(c) => FrameView::Close(*c),
            Frame::Continuation(item) => FrameView::Continuation(item@),
            Frame::Nop => FrameView::Nop,
        }
    }
}

/// Copies the bytes of a fragment into a fresh frame item with the same value.
pub fn clone_websocket_item(item: &FrameItem) -> (r: FrameItem)
    ensures
        r@ == item@,
{
    match item {
        FrameItem::FirstText(b) => FrameItem::FirstText(vstd::slice::slice_to_vec(b.as_slice())),
        FrameItem::FirstBinary(b) => FrameItem::FirstBinary(
            vstd::slice::slice_to_vec(b.as_slice()),
        ),
        FrameItem::Continue(b) => FrameItem::Continue(vstd::slice::slice_to_vec(b.as_slice())),
        FrameItem::Last(b) => FrameItem::Last(vstd::slice::slice_to_vec(b.as_slice())),
    }
}

/// Copies a frame into a fresh frame with the same value, so that one inbound
/// message can be handed to several connections.
pub fn clone_websocket_message(msg: &Frame) -> (r: Frame)
    ensures
        r@ == msg@,
{
    match msg {
        Frame::Text(s) => Frame::Text(s.clone()),
        Frame::Binary(b) => Frame::Binary(vstd::slice::slice_to_vec(b.as_slice())),
        Frame::Ping(b) => Frame::Ping(vstd::slice::slice_to_vec(b.as_slice())),
        Frame::Pong(b) => Frame::Pong(vstd::slice::slice_to_vec(b.as_slice())),
        Frame::Close(c) => Frame::Close(*c),
        Frame::Continuation(item) => Frame::Continuation(clone_websocket_item(item)),
        Frame::Nop => Frame::Nop,
    }
}

} // verus!

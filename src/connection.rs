use vstd::prelude::*;

verus! {

/// The status tokens recognised on a `+` line.
#[derive(Debug, Copy, Clone, PartialEq, Eq, Structural)]
pub enum SingleStrings {
    /// `OK`
    Okay,
    /// `PONG`
    Pong,
    /// `string`
    String,
    /// `list`
    List,
    /// `set`
    UnorderedSet,
}

/// A decoded server reply.
#[derive(Debug, PartialEq, Eq)]
pub enum Reply {
    SingleStrings(SingleStrings),
    /// The digits of an integer line, kept as they came.
    Integers(Vec<u8>),
    BulkStrings(Vec<u8>),
    Arrays(Vec<Reply>),
    Nil,
}

/// The mathematical value of a `Reply`.
pub enum ReplyView {
    Status(SingleStrings),
    Integer(Seq<u8>),
    Bulk(Seq<u8>),
    Array(Seq<ReplyView>),
    Nil,
}

impl Reply {
    pub open spec fn view(&self) -> ReplyView
        decreases self,
    {
        match self {
            Reply::SingleStrings(t) => ReplyView::Status(*t),
            Reply::Integers(v) => ReplyView::Integer(v@),
            Reply::BulkStrings(v) => ReplyView::Bulk(v@),
            Reply::Arrays(a) => ReplyView::Array(
                Seq::new(
                    a@.len(),
                    |i: int|
                        if 0 <= i < a@.len() {
                            a@[i].view()
                        } else {
                            ReplyView::Nil
                        },
                ),
            ),
            Reply::Nil => ReplyView::Nil,
        }
    }
}

} // verus!

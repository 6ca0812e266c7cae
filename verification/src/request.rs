//! Actions a robot can be told to perform.

use vstd::prelude::*;

verus! {

/// Possible items a miner can request.
#[derive(Clone, Copy, Debug, PartialEq, Eq, Hash, Structural)]
pub enum RequestItem {
    Radar,
    Trap,
}

/// Possible request.
#[derive(Clone, Copy, Debug, PartialEq, Eq, Hash, Structural)]
pub enum Request {
    Move(i32, i32),
    Wait,
    Dig(i32, i32),
    Item(RequestItem),
}

impl Request {
    /// Attach a comment to this request.
    pub fn comment(self, msg: String) -> (rc: RequestComment)
        ensures
            rc.req == self,
            rc.comment == Some(msg),
    {
        RequestComment::new(self, Some(msg))
    }

    /// The move that brings a robot standing at `position` to the home
    /// column, along its row.
    pub fn back_to_hq(position: [i32; 2]) -> (req: Request)
        ensures
            req == Request::Move(0, position[1]),
    {
        Request::Move(0, position[1])
    }
}

/// A request with a possible associated comment.
#[derive(Clone, Debug, PartialEq, Eq, Hash)]
pub struct RequestComment {
    pub req: Request,
    pub comment: Option<String>,
}

/// The mathematical content of a [`RequestComment`]: the request, and the
/// comment as a sequence of characters.
pub struct Remark {
    pub req: Request,
    pub comment: Option<Seq<char>>,
}

impl View for RequestComment {
    type V = Remark;

    open spec fn view(&self) -> Remark {
        Remark {
            req: self.req,
            comment: match self.comment {
                Some(text) => Some(text@),
                None => None,
            },
        }
    }
}

impl RequestComment {
    pub fn new(req: Request, comment: Option<String>) -> (rc: RequestComment)
        ensures
            rc.req == req,
            rc.comment == comment,
    {
        RequestComment { req, comment }
    }

    /// A request without a comment.
    pub fn from(req: Request) -> (rc: RequestComment)
        ensures
            rc.req == req,
            rc.comment is None,
    {
        RequestComment::new(req, None)
    }
}

} // verus!

use crate::room::Room;
use crate::snapshot_resolver::ResolverView;
use vstd::prelude::*;

verus! {

/// The server side of a session: holds the room.
pub struct Server {
    room: Room,
}

impl View for Server {
    type V = ResolverView;

    closed spec fn view(&self) -> ResolverView {
        self.room@
    }
}

impl Server {
    /// A server around `room`.
    pub fn new(room: Room) -> (r: Server)
        ensures
            r@ == room@,
    {
        Server { room }
    }
}

} // verus!

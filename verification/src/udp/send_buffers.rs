//! Bookkeeping of the send buffers of an io_uring socket worker: which
//! buffers are free, where to look for the next free one, and what each
//! buffer holds.

use vstd::prelude::*;

use crate::udp::protocol::Response;

verus! {

#[derive(Clone, Copy, Debug, PartialEq, Eq, Structural)]
pub enum ResponseType {
    Connect,
    Announce,
    Scrape,
    Error,
}

impl Default for ResponseType {
    fn default() -> (r: Self)
        ensures
            r == ResponseType::Connect,
    {
        Self::Connect
    }
}

/// The type of a response
pub open spec fn response_type_of(response: Response) -> ResponseType {
    match response {
        Response::Connect(_) => ResponseType::Connect,
        Response::AnnounceIpv4(_) | Response::AnnounceIpv6(_) => ResponseType::Announce,
        Response::Scrape(_) => ResponseType::Scrape,
        Response::Error(_) => ResponseType::Error,
    }
}

impl ResponseType {
    pub fn from_response(response: &Response) -> (r: Self)
        ensures
            r == response_type_of(*response),
    {
        match response {
            Response::Connect(_) => Self::Connect,
            Response::AnnounceIpv4(_) | Response::AnnounceIpv6(_) => Self::Announce,
            Response::Scrape(_) => Self::Scrape,
            Response::Error(_) => Self::Error,
        }
    }
}

/// What a send buffer holds
#[derive(Clone, Copy, Debug, PartialEq, Eq, Structural)]
pub struct SendBufferMetadata {
    pub free: bool,
    /// Only used for statistics
    pub receiver_is_ipv4: bool,
    /// Only used for statistics
    pub response_type: ResponseType,
}

impl Default for SendBufferMetadata {
    fn default() -> (r: Self)
        ensures
            r == (SendBufferMetadata { free: true, receiver_is_ipv4: true, response_type: ResponseType::Connect }),
    {
        Self { free: true, receiver_is_ipv4: true, response_type: ResponseType::default() }
    }
}

/// The index of the first free buffer at or after `from`, if any
pub open spec fn first_free_from(buffers: Seq<SendBufferMetadata>, from: int) -> Option<int> {
    if exists|i: int| from <= i < buffers.len() && buffers[i].free {
        Some(choose|i: int| from <= i < buffers.len() && buffers[i].free && forall|j: int| from <= j < i ==> !buffers[j].free)
    } else {
        None
    }
}

pub struct SendBuffers {
    likely_next_free_index: usize,
    buffers: Vec<SendBufferMetadata>,
}

impl SendBuffers {
    pub closed spec fn buffers(&self) -> Seq<SendBufferMetadata> {
        self.buffers@
    }

    /// Where the search for a free buffer starts
    pub closed spec fn likely_next_free_index(&self) -> usize {
        self.likely_next_free_index
    }

    /// Free buffers, as many as the capacity
    pub fn new(capacity: usize) -> (r: Self)
        ensures
            r.likely_next_free_index() == 0,
            r.buffers().len() == capacity,
            forall|i: int| 0 <= i < capacity ==> #[trigger] r.buffers()[i] == (SendBufferMetadata {
                free: true,
                receiver_is_ipv4: true,
                response_type: ResponseType::Connect,
            }),
    {
        let mut buffers: Vec<SendBufferMetadata> = Vec::new();
        let mut i: usize = 0;
        while i < capacity
            invariant
                i <= capacity,
                buffers@.len() == i,
                forall|j: int| 0 <= j < i ==> #[trigger] buffers@[j] == (SendBufferMetadata {
                    free: true,
                    receiver_is_ipv4: true,
                    response_type: ResponseType::Connect,
                }),
            decreases capacity - i,
        {
            buffers.push(SendBufferMetadata::default());
            i = i + 1;
        }
        Self { likely_next_free_index: 0, buffers }
    }

    pub fn response_type_and_ipv4(&self, index: usize) -> (r: (ResponseType, bool))
        requires
            index < self.buffers().len(),
        ensures
            r == (self.buffers()[index as int].response_type, self.buffers()[index as int].receiver_is_ipv4),
    {
        let meta = &self.buffers[index];

        (meta.response_type, meta.receiver_is_ipv4)
    }

    /// Only to be called once the buffer is no longer referenced by
    /// in-flight io_uring queue entries
    pub fn mark_buffer_as_free(&mut self, index: usize)
        requires
            index < old(self).buffers().len(),
        ensures
            final(self).buffers() == old(self).buffers().update(
                index as int,
                (SendBufferMetadata { free: true, ..old(self).buffers()[index as int] }),
            ),
            final(self).likely_next_free_index() == old(self).likely_next_free_index(),
    {
        let mut meta = self.buffers[index];
        meta.free = true;
        self.buffers.set(index, meta);
    }

    /// Call after going through completion queue
    pub fn reset_likely_next_free_index(&mut self)
        ensures
            final(self).buffers() == old(self).buffers(),
            final(self).likely_next_free_index() == 0,
    {
        self.likely_next_free_index = 0;
    }

    /// The first free buffer from where the search starts, if any
    pub fn next_free_index(&self) -> (r: Option<usize>)
        ensures
            match (r, first_free_from(self.buffers(), self.likely_next_free_index() as int)) {
                (Some(i), Some(j)) => i == j,
                (None, None) => true,
                _ => false,
            },
    {
        let mut i = self.likely_next_free_index;
        while i < self.buffers.len()
            invariant
                self.likely_next_free_index <= i,
                forall|j: int| self.likely_next_free_index <= j < i ==> !self.buffers@[j].free,
            decreases self.buffers@.len() - i,
        {
            if self.buffers[i].free {
                proof {
                    let from = self.likely_next_free_index as int;
                    let w = choose|w: int|
                        from <= w < self.buffers@.len() && self.buffers@[w].free && forall|j: int|
                            from <= j < w ==> !self.buffers@[j].free;
                    assert(w == i) by {
                        if w < i {
                            assert(!self.buffers@[w].free);
                        }
                        if w > i {
                            assert(!self.buffers@[i as int].free);
                        }
                    }
                }
                return Some(i);
            }
            i = i + 1;
        }
        None
    }

    /// Take the buffer for a response of the type to a receiver of the IP
    /// version: it is no longer free, and the search for the next free
    /// buffer starts after it
    pub fn claim(&mut self, index: usize, response_type: ResponseType, receiver_is_ipv4: bool)
        requires
            index < old(self).buffers().len(),
        ensures
            final(self).buffers() == old(self).buffers().update(
                index as int,
                (SendBufferMetadata { free: false, receiver_is_ipv4, response_type }),
            ),
            final(self).likely_next_free_index() == index + 1,
    {
        let len = self.buffers.len();
        assert(index < len);
        self.buffers.set(index, SendBufferMetadata { free: false, receiver_is_ipv4, response_type });
        self.likely_next_free_index = index + 1;
    }
}

} // verus!

use std::collections::VecDeque;
use vstd::prelude::*;

verus! {

/// A handle to an object that lives on the JavaScript side of a miniquad
/// program; whoever holds it owns the object.
pub struct JsObject(pub u32);

/// A handle to the same JavaScript object that does not own it.
#[derive(Clone, Copy)]
pub struct JsObjectWeak(pub u32);

impl JsObject {
    /// A non-owning handle to the same object.
    pub fn weak(&self) -> (res: JsObjectWeak)
        ensures
            res.0 == self.0,
    {
        JsObjectWeak(self.0)
    }
}

/// Makes `buf` exactly `len` bytes long, so that the JavaScript side can copy
/// an object of `len` bytes into it; the bytes that stay keep their values
/// and the new ones are zero.
pub fn fit_buffer(buf: &mut Vec<u8>, len: u32)
    requires
        len <= usize::MAX,
    ensures
        final(buf)@.len() == len,
        forall|i: int|
            0 <= i < len && i < old(buf)@.len() ==> #[trigger] final(buf)@[i] == old(buf)@[i],
        forall|i: int| old(buf)@.len() <= i < len ==> #[trigger] final(buf)@[i] == 0,
{
    let target = len as usize;
    if target < buf.len() {
        buf.truncate(target);
    } else {
        while buf.len() < target
            invariant
                old(buf)@.len() <= buf@.len() <= target,
                target == len,
                forall|i: int| 0 <= i < old(buf)@.len() ==> #[trigger] buf@[i] == old(buf)@[i],
                forall|i: int| old(buf)@.len() <= i < buf@.len() ==> #[trigger] buf@[i] == 0,
            decreases target - buf@.len(),
        {
            buf.push(0);
        }
    }
}

/// The queues into which the JavaScript side of a miniquad client delivers
/// messages and errors; each exists only once the client has connected.
pub struct JsMessageQueues {
    message_queue: Option<VecDeque<Vec<u8>>>,
    error_queue: Option<VecDeque<String>>,
}

impl JsMessageQueues {
    /// The messages delivered since the client connected, oldest first, or
    /// `None` before it connected.
    pub closed spec fn messages(&self) -> Option<Seq<Vec<u8>>> {
        match self.message_queue {
            Some(q) => Some(q@),
            None => None,
        }
    }

    /// The errors delivered since the client connected, oldest first, or
    /// `None` before it connected.
    pub closed spec fn errors(&self) -> Option<Seq<String>> {
        match self.error_queue {
            Some(q) => Some(q@),
            None => None,
        }
    }

    /// The queues of a client that has not connected.
    pub fn new() -> (res: JsMessageQueues)
        ensures
            res.messages() == None::<Seq<Vec<u8>>>,
            res.errors() == None::<Seq<String>>,
    {
        JsMessageQueues { message_queue: None, error_queue: None }
    }

    /// Empties both queues as a client connects; whatever they held is gone.
    pub fn connect(&mut self)
        ensures
            final(self).messages() == Some(Seq::<Vec<u8>>::empty()),
            final(self).errors() == Some(Seq::<String>::empty()),
    {
        self.message_queue = Some(VecDeque::new());
        self.error_queue = Some(VecDeque::new());
    }

    /// Delivers a message: it is queued when the client has connected, and
    /// ignored before.
    pub fn receive(&mut self, message: Vec<u8>)
        ensures
            final(self).messages() == match old(self).messages() {
                Some(q) => Some(q.push(message)),
                None => None,
            },
            final(self).errors() == old(self).errors(),
    {
        if let Some(queue) = &mut self.message_queue {
            queue.push_back(message);
        }
    }

    /// Delivers an error: it is queued when the client has connected, and
    /// ignored before.
    pub fn error(&mut self, error: String)
        ensures
            final(self).errors() == match old(self).errors() {
                Some(q) => Some(q.push(error)),
                None => None,
            },
            final(self).messages() == old(self).messages(),
    {
        if let Some(queue) = &mut self.error_queue {
            queue.push_back(error);
        }
    }

    /// The oldest message delivered and not taken yet.
    fn take_message(&mut self) -> (res: Option<Vec<u8>>)
        ensures
            final(self).errors() == old(self).errors(),
            match old(self).messages() {
                Some(q) => if q.len() > 0 {
                    res == Some(q[0]) && final(self).messages() == Some(q.drop_first())
                } else {
                    res == None::<Vec<u8>> && final(self).messages() == old(self).messages()
                },
                None => res == None::<Vec<u8>> && final(self).messages() == old(self).messages(),
            },
    {
        match &mut self.message_queue {
            Some(queue) => {
                let r = queue.pop_front();
                proof {
                    if old(self).messages().unwrap().len() > 0 {
                        assert(self.messages().unwrap() =~= old(self).messages().unwrap().drop_first());
                    }
                }
                r
            },
            None => None,
        }
    }

    /// The oldest error delivered and not taken yet.
    fn take_error(&mut self) -> (res: Option<String>)
        ensures
            final(self).messages() == old(self).messages(),
            match old(self).errors() {
                Some(q) => if q.len() > 0 {
                    res == Some(q[0]) && final(self).errors() == Some(q.drop_first())
                } else {
                    res == None::<String> && final(self).errors() == old(self).errors()
                },
                None => res == None::<String> && final(self).errors() == old(self).errors(),
            },
    {
        match &mut self.error_queue {
            Some(queue) => {
                let r = queue.pop_front();
                proof {
                    if old(self).errors().unwrap().len() > 0 {
                        assert(self.errors().unwrap() =~= old(self).errors().unwrap().drop_first());
                    }
                }
                r
            },
            None => None,
        }
    }

    /// What a receive of a miniquad client hands back: the oldest message
    /// delivered and not taken yet; when none is left, the oldest error, as
    /// `Err`; when neither is left, `Ok(None)`.
    pub fn receive_next(&mut self) -> (res: Result<Option<Vec<u8>>, String>)
        ensures
            ({
                let m = old(self).messages();
                let e = old(self).errors();
                if m is Some && m.unwrap().len() > 0 {
                    &&& res == Ok::<Option<Vec<u8>>, String>(Some(m.unwrap()[0]))
                    &&& final(self).messages() == Some(m.unwrap().drop_first())
                    &&& final(self).errors() == e
                } else if e is Some && e.unwrap().len() > 0 {
                    &&& res == Err::<Option<Vec<u8>>, String>(e.unwrap()[0])
                    &&& final(self).messages() == m
                    &&& final(self).errors() == Some(e.unwrap().drop_first())
                } else {
                    &&& res == Ok::<Option<Vec<u8>>, String>(None)
                    &&& final(self).messages() == m
                    &&& final(self).errors() == e
                }
            }),
    {
        if let Some(message) = self.take_message() {
            return Ok(Some(message));
        }
        match self.take_error() {
            Some(error) => Err(error),
            None => Ok(None),
        }
    }
}

} // verus!

//! The copying byte source: bytes are pulled one at a time from a source
//! that cannot lend slices (a one-shot iterator). A `HeadReader` tells when
//! a header is complete; a `Framer` tells when one whole value has arrived,
//! so that no byte past it is pulled.
use vstd::prelude::*;
use crate::de::{head_at, head_len};
use crate::defs::marker_of;
use crate::error::Error;
use crate::head::{head_of, Head};

verus! {

/// What one more byte does to a header being read.
#[derive(Debug, Clone, Copy, PartialEq, Eq, Structural)]
pub enum Step {
    /// The header needs more bytes.
    More,
    /// The header is complete.
    Ready(Head),
    /// The header starts with the reserved byte.
    Invalid,
}

/// The step that pushing `b` onto the incomplete header `s` gives.
pub open spec fn head_step(s: Seq<u8>, b: u8) -> Step {
    let t = s.push(b);
    if t[0] == 0xc1 {
        Step::Invalid
    } else if t.len() == head_len(marker_of(t[0])) {
        Step::Ready(head_of(t).unwrap().0)
    } else {
        Step::More
    }
}

/// Collects the bytes of one header as they are pulled.
pub struct HeadReader {
    buf: Vec<u8>,
}

impl HeadReader {
    /// The bytes of the header read so far.
    pub closed spec fn bytes(&self) -> Seq<u8> {
        self.buf@
    }

    /// The bytes held are a proper start of some header.
    pub open spec fn wf(&self) -> bool {
        self.bytes().len() == 0 || (self.bytes()[0] != 0xc1 && self.bytes().len() < head_len(
            marker_of(self.bytes()[0]),
        ))
    }

    pub fn new() -> (r: HeadReader)
        ensures
            r.wf(),
            r.bytes() == Seq::<u8>::empty(),
    {
        HeadReader { buf: Vec::new() }
    }

    /// Takes one more byte of the header.
    pub fn push(&mut self, b: u8) -> (r: Step)
        requires
            old(self).wf(),
        ensures
            final(self).wf(),
            r == head_step(old(self).bytes(), b),
            r is Ready ==> head_of(old(self).bytes().push(b)) == Some(
                (r->Ready_0, (old(self).bytes().len() + 1) as int),
            ),
            r is More ==> head_of(old(self).bytes().push(b)) is None && final(self).bytes() == old(
                self).bytes().push(b),
            !(r is More) ==> final(self).bytes() == Seq::<u8>::empty(),
    {
        self.buf.push(b);
        let first = self.buf[0];
        if first == 0xc1 {
            self.buf = Vec::new();
            return Step::Invalid;
        }
        let ghost t = self.buf@;
        assert(t.skip(0) =~= t);
        match head_at(self.buf.as_slice(), 0) {
            Some((h, _)) => {
                self.buf = Vec::new();
                Step::Ready(h)
            },
            None => Step::More,
        }
    }
}

/// The number of values that follow a header as its elements.
pub open spec fn children(h: Head) -> int {
    match h {
        Head::Array(n) => n as int,
        Head::Pairs(n) => 2 * n,
        _ => 0,
    }
}

/// The number of payload bytes that follow a header.
pub open spec fn payload_of(h: Head) -> int {
    match h {
        Head::Str(len) => len as int,
        Head::Bin(len) => len as int,
        Head::Ext(_, len) => len as int,
        _ => 0,
    }
}

/// Follows pulled bytes until exactly one whole value has arrived.
pub struct Framer {
    head: HeadReader,
    payload_left: u64,
    pending: u64,
}

impl Framer {
    pub closed spec fn head(&self) -> HeadReader {
        self.head
    }

    /// Payload bytes of the last header still to come.
    pub closed spec fn payload_left(&self) -> nat {
        self.payload_left as nat
    }

    /// Values whose header has not been read yet.
    pub closed spec fn pending(&self) -> nat {
        self.pending as nat
    }

    pub open spec fn done(&self) -> bool {
        self.pending() == 0 && self.payload_left() == 0
    }

    pub open spec fn wf(&self) -> bool {
        &&& self.head().wf()
        &&& self.payload_left() > 0 ==> self.head().bytes().len() == 0
    }

    /// A framer waiting for one value.
    pub fn new() -> (r: Framer)
        ensures
            r.wf(),
            r.pending() == 1,
            r.payload_left() == 0,
            r.head().bytes() == Seq::<u8>::empty(),
    {
        Framer { head: HeadReader::new(), payload_left: 0, pending: 1 }
    }

    /// Takes one pulled byte; `Ok(true)` once the value is complete.
    pub fn push(&mut self, b: u8) -> (r: Result<bool, Error>)
        requires
            old(self).wf(),
            !old(self).done(),
        ensures
            final(self).wf(),
            old(self).payload_left() > 0 ==> final(self).payload_left() == old(self).payload_left()
                - 1 && final(self).pending() == old(self).pending() && r == Ok::<bool, Error>(
                final(self).done(),
            ),
            old(self).payload_left() == 0 ==> match head_step(old(self).head().bytes(), b) {
                Step::Invalid => r == Err::<bool, Error>(Error::InvalidTag),
                Step::More => r == Ok::<bool, Error>(false) && final(self).pending() == old(
                    self).pending() && final(self).payload_left() == 0,
                Step::Ready(h) => if old(self).pending() - 1 + children(h) > u64::MAX {
                    r == Err::<bool, Error>(Error::LengthOverflow)
                } else {
                    final(self).pending() == old(self).pending() - 1 + children(h) && final(
                        self).payload_left() == payload_of(h) && r == Ok::<bool, Error>(
                        final(self).done(),
                    )
                },
            },
    {
        if self.payload_left > 0 {
            self.payload_left = self.payload_left - 1;
            return Ok(self.pending == 0 && self.payload_left == 0);
        }
        match self.head.push(b) {
            Step::Invalid => Err(Error::InvalidTag),
            Step::More => Ok(false),
            Step::Ready(h) => {
                let (kids, payload): (u64, u64) = match h {
                    Head::Array(n) => (n as u64, 0),
                    Head::Pairs(n) => (2 * (n as u64), 0),
                    Head::Str(len) => (0, len as u64),
                    Head::Bin(len) => (0, len as u64),
                    Head::Ext(_, len) => (0, len as u64),
                    _ => (0, 0),
                };
                let rest = self.pending - 1;
                if kids > u64::MAX - rest {
                    return Err(Error::LengthOverflow);
                }
                self.pending = rest + kids;
                self.payload_left = payload;
                Ok(self.pending == 0 && self.payload_left == 0)
            },
        }
    }
}

} // verus!

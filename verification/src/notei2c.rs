//! The serial-over-I2C protocol of the notecard: requests are written in
//! chunks of at most 255 bytes, each preceded by its length, and terminated by
//! a newline; responses are polled for.
use vstd::prelude::*;

verus! {

/// I2C address of the notecard.
pub const NOTE_ADDR: u8 = 0x17;

/// Largest chunk of a request written at once.
pub const CHUNK: usize = 255;

/// State of the protocol.
#[derive(Debug, Clone, Copy, PartialEq, Eq, Structural)]
pub enum NoteState {
    Handshake,
    /// Ready to make request.
    Request,
    /// Waiting for response to become ready, value is tries made.
    Poll(usize),
    /// Reading response, value is remaining bytes.
    Response(usize),
}

#[derive(Debug, Clone, Copy, PartialEq, Eq, Structural)]
pub enum NoteError {
    I2cWriteError,
    I2cReadError,
    RemainingData,
    /// Method called when notecarrier is in invalid state.
    WrongState,
}

/// The I2C writes that send the chunks of `cmd`: for each chunk of at most
/// `CHUNK` bytes, its length and then the chunk.
pub open spec fn spec_chunk_writes(cmd: Seq<u8>) -> Seq<Seq<u8>>
    decreases cmd.len(),
{
    if cmd.len() == 0 {
        Seq::empty()
    } else if cmd.len() <= CHUNK {
        seq![seq![cmd.len() as u8], cmd]
    } else {
        seq![seq![CHUNK as u8], cmd.take(CHUNK as int)] + spec_chunk_writes(cmd.skip(CHUNK as int))
    }
}

/// The I2C writes of a whole request: the chunks of `cmd`, then a chunk of
/// length one holding the terminating newline.
pub open spec fn spec_request_writes(cmd: Seq<u8>) -> Seq<Seq<u8>> {
    spec_chunk_writes(cmd) + seq![seq![1u8], seq![10u8]]
}

/// The answer to a data query: the number of bytes available, unless the
/// notecard reports bytes still being sent.
pub fn query_result(available: u8, sent: u8) -> (r: Result<usize, NoteError>)
    ensures
        r == (if sent > 0 {
            Err::<usize, NoteError>(NoteError::RemainingData)
        } else {
            Ok::<usize, NoteError>(available as usize)
        }),
{
    if sent > 0 {
        Err(NoteError::RemainingData)
    } else {
        Ok(available as usize)
    }
}

/// The protocol state of a notecard connection.
pub struct Note {
    state: NoteState,
}

impl Note {
    pub closed spec fn spec_state(&self) -> NoteState {
        self.state
    }

    /// A new connection, which starts with a handshake.
    pub fn new() -> (n: Note)
        ensures
            n.spec_state() == NoteState::Handshake,
    {
        Note { state: NoteState::Handshake }
    }

    pub fn state(&self) -> (s: NoteState)
        ensures
            s == self.spec_state(),
    {
        self.state
    }

    /// Whether the connection still needs its handshake (consuming any
    /// left-over response).
    pub fn needs_handshake(&self) -> (r: bool)
        ensures
            r == (self.spec_state() == NoteState::Handshake),
    {
        match self.state {
            NoteState::Handshake => true,
            _ => false,
        }
    }

    /// The handshake is done (when one was needed): ready for requests.
    pub fn handshake_done(&mut self)
        ensures
            old(self).spec_state() == NoteState::Handshake ==> final(self).spec_state() == NoteState::Request,
            old(self).spec_state() != NoteState::Handshake ==> final(self).spec_state() == old(self).spec_state(),
    {
        if let NoteState::Handshake = self.state {
            self.state = NoteState::Request;
        }
    }

    /// The I2C writes of the request `cmd`; only allowed when ready for a
    /// request.
    pub fn request_writes(&self, cmd: &[u8]) -> (r: Result<Vec<Vec<u8>>, NoteError>)
        ensures
            match r {
                Ok(w) => self.spec_state() == NoteState::Request && w@.map_values(|v: Vec<u8>| v@)
                    == spec_request_writes(cmd@),
                Err(e) => self.spec_state() != NoteState::Request && e == NoteError::WrongState,
            },
    {
        match self.state {
            NoteState::Request => Ok(request_writes(cmd)),
            _ => Err(NoteError::WrongState),
        }
    }

    /// The request was written: start polling for the response.
    pub fn requested(&mut self)
        requires
            old(self).spec_state() == NoteState::Request,
        ensures
            final(self).spec_state() == NoteState::Poll(0),
    {
        self.state = NoteState::Poll(0);
    }
}

/// The I2C writes of the request `cmd` (see `spec_request_writes`).
pub fn request_writes(cmd: &[u8]) -> (w: Vec<Vec<u8>>)
    ensures
        w@.map_values(|v: Vec<u8>| v@) == spec_request_writes(cmd@),
{
    let mut w: Vec<Vec<u8>> = Vec::new();
    let mut i: usize = 0;
    assert(cmd@.skip(0) =~= cmd@);
    assert(w@.map_values(|v: Vec<u8>| v@) =~= Seq::<Seq<u8>>::empty());
    while i < cmd.len()
        invariant
            i <= cmd.len(),
            i % CHUNK == 0 || i == cmd.len(),
            spec_chunk_writes(cmd@) =~= w@.map_values(|v: Vec<u8>| v@) + spec_chunk_writes(cmd@.skip(i as int)),
        decreases cmd.len() - i,
    {
        let n = if cmd.len() - i < CHUNK {
            cmd.len() - i
        } else {
            CHUNK
        };
        let mut chunk: Vec<u8> = Vec::new();
        let mut j: usize = 0;
        while j < n
            invariant
                j <= n,
                i + n <= cmd.len(),
                chunk@ =~= cmd@.subrange(i as int, (i + j) as int),
            decreases n - j,
        {
            chunk.push(cmd[i + j]);
            j = j + 1;
        }
        let mut len_byte: Vec<u8> = Vec::new();
        len_byte.push(n as u8);
        let ghost rest = cmd@.skip(i as int);
        proof {
            assert(chunk@ =~= rest.take(n as int));
            assert(rest.skip(n as int) =~= cmd@.skip((i + n) as int));
            if rest.len() <= CHUNK {
                assert(rest.take(n as int) =~= rest);
                assert(cmd@.skip((i + n) as int) =~= Seq::<u8>::empty());
                assert(spec_chunk_writes(Seq::<u8>::empty()) =~= Seq::<Seq<u8>>::empty());
            }
        }
        let ghost before = w@.map_values(|v: Vec<u8>| v@);
        w.push(len_byte);
        w.push(chunk);
        proof {
            assert(w@.map_values(|v: Vec<u8>| v@) =~= before + seq![seq![n as u8], rest.take(n as int)]);
        }
        i = i + n;
    }
    proof {
        assert(cmd@.skip(i as int) =~= Seq::<u8>::empty());
    }
    let ghost before = w@.map_values(|v: Vec<u8>| v@);
    let mut one: Vec<u8> = Vec::new();
    one.push(1u8);
    let mut newline: Vec<u8> = Vec::new();
    newline.push(10u8);
    w.push(one);
    w.push(newline);
    proof {
        assert(w@.map_values(|v: Vec<u8>| v@) =~= before + seq![seq![1u8], seq![10u8]]);
    }
    w
}

} // verus!

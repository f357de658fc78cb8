//! A socket whose messages end in a line feed.

use vstd::prelude::*;

verus! {

/// The size of one read, unless another is set.
pub const DATA_STREAM_SIZE: usize = 4096;

/// Where a message stands after one read.
#[derive(Debug, PartialEq, Eq, Clone, Copy)]
pub enum SocketStep {
    /// The read gave no byte: the connection is gone.
    Aborted,
    /// The bytes so far end in a line feed: the message is complete, and
    /// this long without it.
    Complete(usize),
    /// The message goes on.
    More,
}

/// The bytes of a message after one read: the bytes so far where the read
/// gave none; else those with the read behind them, without the last byte
/// where that is a line feed.
pub open spec fn line_data(data: Seq<u8>, chunk: Seq<u8>) -> Seq<u8> {
    if chunk.len() == 0 {
        data
    } else if chunk.last() == 10u8 {
        (data + chunk).drop_last()
    } else {
        data + chunk
    }
}

/// Where a message stands after one read.
pub open spec fn line_step(data: Seq<u8>, chunk: Seq<u8>) -> SocketStep {
    if chunk.len() == 0 {
        SocketStep::Aborted
    } else if chunk.last() == 10u8 {
        SocketStep::Complete((data.len() + chunk.len() - 1) as usize)
    } else {
        SocketStep::More
    }
}

/// One end of a connection: the peer's address and the size of a read.
#[derive(Debug)]
pub struct Socket {
    ip_address: String,
    chunk_size: usize,
}

impl Socket {
    /// The peer's address.
    pub closed spec fn address(&self) -> Seq<char> {
        self.ip_address@
    }

    /// The size of one read.
    pub closed spec fn size(&self) -> usize {
        self.chunk_size
    }

    /// A socket to the peer at `ip_address`, read `DATA_STREAM_SIZE` bytes at
    /// a time.
    pub fn new(ip_address: String) -> (r: Self)
        ensures
            r.address() == ip_address@,
            r.size() == DATA_STREAM_SIZE,
    {
        Self { ip_address, chunk_size: DATA_STREAM_SIZE }
    }

    /// The peer's address.
    pub fn ip_address(&self) -> (r: &str)
        ensures
            r@ == self.address(),
    {
        self.ip_address.as_str()
    }

    /// The size of one read.
    pub fn chunk_size(&self) -> (r: usize)
        ensures
            r == self.size(),
    {
        self.chunk_size
    }

    /// Sets the size of one read.
    pub fn set_chunk_size(&mut self, size: usize)
        ensures
            final(self).size() == size,
            final(self).address() == old(self).address(),
    {
        self.chunk_size = size;
    }

    /// Takes in what one read gave. A read of no byte says that the
    /// connection is gone; any other read adds its bytes to the message,
    /// and a line feed at the end of them ends the message and is dropped.
    pub fn read(&self, read_data: &mut Vec<u8>, chunk: &[u8]) -> (step: SocketStep)
        ensures
            final(read_data)@ == line_data(old(read_data)@, chunk@),
            step == line_step(old(read_data)@, chunk@),
    {
        if chunk.len() == 0 {
            return SocketStep::Aborted;
        }
        crate::client::connector::gather(read_data, chunk);
        let len = read_data.len();
        if read_data[len - 1] == 10u8 {
            read_data.truncate(len - 1);
            assert(read_data@ =~= (old(read_data)@ + chunk@).drop_last());
            SocketStep::Complete(len - 1)
        } else {
            SocketStep::More
        }
    }

    /// The bytes to write for a message: the message and a line feed.
    pub fn write_all(&self, write_data: &[u8]) -> (stream: Vec<u8>)
        ensures
            stream@ == write_data@.push(10u8),
    {
        let mut stream: Vec<u8> = Vec::new();
        crate::client::connector::gather(&mut stream, write_data);
        stream.push(10u8);
        assert(stream@ =~= write_data@.push(10u8));
        stream
    }
}

} // verus!

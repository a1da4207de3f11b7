//! Reader for the P3 audio container: a sequence of records, each a 4-byte
//! header whose last two bytes give the payload length (big-endian),
//! followed by that many bytes of compressed audio.
use vstd::prelude::*;
use vstd::slice::slice_subrange;

verus! {

/// The input ended inside a record.
#[derive(Clone, Copy, Debug, PartialEq, Eq, Structural)]
pub enum P3Error {
    UnexpectedEof,
}

/// Bytes in a record header.
pub const P3_HEADER_LEN: usize = 4;

/// The payload length that the header at the front of `data` announces.
pub open spec fn record_len(data: Seq<u8>) -> int {
    data[2] * 256 + data[3]
}

/// Whether the front of `data` holds a whole record.
pub open spec fn has_record(data: Seq<u8>) -> bool {
    data.len() >= 4 && data.len() - 4 >= record_len(data)
}

/// Reads records from a byte buffer, front to back.
pub struct P3Reader<'a> {
    data: &'a [u8],
}

impl<'a> P3Reader<'a> {
    /// The bytes not yet read.
    pub closed spec fn rest(&self) -> Seq<u8> {
        self.data@
    }

    pub fn new(data: &'a [u8]) -> (r: Self)
        ensures
            r.rest() == data@,
    {
        P3Reader { data }
    }

    /// The payload of the next record; `Ok(None)` at the end of the input.
    /// A record cut short by the end of the input is an error, and what was
    /// left of the input is consumed.
    pub fn next(&mut self) -> (r: Result<Option<Vec<u8>>, P3Error>)
        ensures
            old(self).rest().len() == 0 ==> (r matches Ok(None)) && final(self).rest() == old(
                self,
            ).rest(),
            old(self).rest().len() > 0 && has_record(old(self).rest()) ==> (r matches Ok(Some(p))
                && p@ == old(self).rest().subrange(4, 4 + record_len(old(self).rest())))
                && final(self).rest() == old(self).rest().subrange(
                4 + record_len(old(self).rest()),
                old(self).rest().len() as int,
            ),
            old(self).rest().len() > 0 && !has_record(old(self).rest()) ==> (r matches Err(e) && e
                == P3Error::UnexpectedEof) && final(self).rest() == Seq::<u8>::empty(),
    {
        let n = self.data.len();
        if n == 0 {
            return Ok(None);
        }
        if n < P3_HEADER_LEN {
            self.data = slice_subrange(self.data, n, n);
            return Err(P3Error::UnexpectedEof);
        }
        let size: usize = (self.data[2] as usize) * 256 + self.data[3] as usize;
        if n - P3_HEADER_LEN < size {
            self.data = slice_subrange(self.data, n, n);
            return Err(P3Error::UnexpectedEof);
        }
        let payload = slice_subrange(self.data, P3_HEADER_LEN, P3_HEADER_LEN + size);
        let mut out: Vec<u8> = Vec::new();
        out.extend_from_slice(payload);
        self.data = slice_subrange(self.data, P3_HEADER_LEN + size, n);
        proof {
            assert(out@ =~= payload@);
        }
        Ok(Some(out))
    }
}

} // verus!

use postcard::Error as PostcardError;
use vstd::prelude::*;

use crate::error::eof_error;
use crate::error::Error;
use crate::frame::decode_header;
use crate::frame::encode_header;
use crate::frame::frame_bytes_at;
use crate::frame::frame_end_at;
use crate::frame::frame_of;
use crate::frame::frame_payload_at;
use crate::frame::has_frame_at;
use crate::stream::InputStream;
use crate::stream::OutputStream;

verus! {

/// Relies on postcard::to_allocvec: encodes one value into the external
/// codec's byte form; fails only when the codec rejects the value, never
/// because of the framing layer.
#[verifier::external_body]
fn encode_value<T: serde::Serialize>(value: &T) -> Result<Vec<u8>, PostcardError> {
    postcard::to_allocvec(value)
}

/// Relies on postcard::from_bytes: decodes one value of type `T` from
/// payload bytes; fails when they are not a valid encoding of `T`.
#[verifier::external_body]
fn decode_value<T: serde::de::DeserializeOwned>(bytes: &[u8]) -> Result<T, PostcardError> {
    postcard::from_bytes(bytes)
}

impl OutputStream {
    /// Appends one frame: the 8-byte little-endian header holding
    /// `payload.len()`, then every payload byte, and nothing else.
    pub fn write_frame(&mut self, payload: &[u8])
        ensures
            final(self).bytes() == old(self).bytes() + frame_of(payload@),
    {
        let header = encode_header(payload.len() as u64);
        self.write_all(header.as_slice());
        self.write_all(payload);
        proof {
            assert(old(self).bytes() + header@ + payload@ =~= old(self).bytes() + frame_of(
                payload@,
            ));
        }
    }

    /// Encodes `value` with the external codec and appends the result as one
    /// frame. On success the stream grew by exactly one well-formed frame:
    /// some payload behind the 8-byte header that holds its length. On
    /// failure the codec rejected the value and the stream is unchanged.
    pub fn write_serde<T: serde::Serialize>(&mut self, value: T) -> (r: Result<(), Error>)
        ensures
            match r {
                Ok(_) => exists|p: Seq<u8>|
                    p.len() <= u64::MAX && final(self).bytes() == old(self).bytes()
                        + #[trigger] frame_of(p),
                Err(e) => e is Postcard && final(self).bytes() == old(self).bytes(),
            },
    {
        let bytes = match encode_value(&value) {
            Ok(b) => b,
            Err(e) => {
                return Err(Error::Postcard(e));
            },
        };
        self.write_frame(bytes.as_slice());
        proof {
            let p = bytes@;
            assert(p.len() == bytes.len());
            assert(p.len() <= u64::MAX && self.bytes() == old(self).bytes() + frame_of(p));
        }
        Ok(())
    }
}

impl InputStream {
    /// Reads one whole frame and hands back its payload bytes. Succeeds if
    /// and only if a whole frame lies at the current position; on success
    /// the position lands exactly past the frame, ready for the next one.
    /// A failed header read consumes nothing; a header whose declared
    /// payload overruns the stream leaves the position just past the header.
    pub fn read_frame(&mut self) -> (r: Result<Vec<u8>, Error>)
        requires
            old(self).wf(),
        ensures
            final(self).wf(),
            final(self).bytes() == old(self).bytes(),
            r is Ok <==> has_frame_at(old(self).bytes(), old(self).pos()),
            r matches Ok(payload) ==> payload@ == frame_payload_at(
                old(self).bytes(),
                old(self).pos(),
            ) && final(self).pos() == frame_end_at(old(self).bytes(), old(self).pos()),
            r matches Err(e) ==> e is IO && final(self).pos() == (
            if old(self).pos() + 8 > old(self).bytes().len() {
                old(self).pos()
            } else {
                old(self).pos() + 8
            }),
    {
        let header = match self.read_exact(8) {
            Ok(h) => h,
            Err(e) => {
                return Err(e);
            },
        };
        let len = decode_header(header.as_slice());
        let rem = self.remaining();
        if (rem as u64) < len {
            return Err(Error::IO(eof_error()));
        }
        let payload = match self.read_exact(len as usize) {
            Ok(p) => p,
            Err(e) => {
                return Err(e);
            },
        };
        Ok(payload)
    }

    /// Reads one frame and decodes its payload with the external codec.
    /// Fails with an I/O error if and only if no whole frame lies at the
    /// current position. A whole frame is consumed in full whether or not
    /// the codec accepts its payload — the position lands exactly past it —
    /// and a payload the codec rejects is reported as a codec error.
    pub fn read_serde<T: serde::de::DeserializeOwned>(&mut self) -> (r: Result<T, Error>)
        requires
            old(self).wf(),
        ensures
            final(self).wf(),
            final(self).bytes() == old(self).bytes(),
            (r matches Err(e) && e is IO) <==> !has_frame_at(old(self).bytes(), old(self).pos()),
            has_frame_at(old(self).bytes(), old(self).pos()) ==> final(self).pos() == frame_end_at(
                old(self).bytes(),
                old(self).pos(),
            ),
            !has_frame_at(old(self).bytes(), old(self).pos()) ==> final(self).pos() == (
            if old(self).pos() + 8 > old(self).bytes().len() {
                old(self).pos()
            } else {
                old(self).pos() + 8
            }),
    {
        let payload = match self.read_frame() {
            Ok(p) => p,
            Err(e) => {
                return Err(e);
            },
        };
        match decode_value(payload.as_slice()) {
            Ok(v) => Ok(v),
            Err(e) => Err(Error::Postcard(e)),
        }
    }

    /// Relays one frame verbatim: the 8 header bytes and then the payload
    /// bytes are copied onto `writer` exactly as they stand in this stream,
    /// with no decoding. Succeeds if and only if a whole frame lies at the
    /// current position. The header is written out before the payload is
    /// read, so a stream that ends inside the payload leaves the bare header
    /// on `writer`.
    pub fn read_serde_into_writer(&mut self, writer: &mut OutputStream) -> (r: Result<(), Error>)
        requires
            old(self).wf(),
        ensures
            final(self).wf(),
            final(self).bytes() == old(self).bytes(),
            r is Ok <==> has_frame_at(old(self).bytes(), old(self).pos()),
            r is Ok ==> final(self).pos() == frame_end_at(old(self).bytes(), old(self).pos())
                && final(writer).bytes() == old(writer).bytes() + frame_bytes_at(
                old(self).bytes(),
                old(self).pos(),
            ),
            r matches Err(e) ==> e is IO,
            r is Err ==> (
            if old(self).pos() + 8 > old(self).bytes().len() {
                final(self).pos() == old(self).pos() && final(writer).bytes() == old(
                    writer,
                ).bytes()
            } else {
                final(self).pos() == old(self).pos() + 8 && final(writer).bytes() == old(
                    writer,
                ).bytes() + old(self).bytes().subrange(old(self).pos(), old(self).pos() + 8)
            }),
    {
        let header = match self.read_exact(8) {
            Ok(h) => h,
            Err(e) => {
                return Err(e);
            },
        };
        writer.write_all(header.as_slice());
        let len = decode_header(header.as_slice());
        let rem = self.remaining();
        if (rem as u64) < len {
            return Err(Error::IO(eof_error()));
        }
        let payload = match self.read_exact(len as usize) {
            Ok(p) => p,
            Err(e) => {
                return Err(e);
            },
        };
        writer.write_all(payload.as_slice());
        proof {
            let s = old(self).bytes();
            let pos = old(self).pos();
            let end = frame_end_at(s, pos);
            assert(s.subrange(pos, end) =~= s.subrange(pos, pos + 8) + s.subrange(pos + 8, end));
            assert(old(writer).bytes() + header@ + payload@ =~= old(writer).bytes() + frame_bytes_at(
                s,
                pos,
            ));
        }
        Ok(())
    }
}

} // verus!

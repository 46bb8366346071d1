//! Parsing of incoming session-bus messages: the fixed header, the header
//! fields, and the dispatch decisions that follow from them. The socket
//! I/O around this lives at the program's edge; everything here works on
//! the received bytes.

use vstd::prelude::*;

use crate::dbus::types::{
    DbusError, Headers, ObjectPath, Signature, TY_OBJECT_PATH, TY_SIGNATURE, TY_STRING, TY_UINT32,
};

verus! {

/// Length of the fixed part of every message header.
pub const FIXED_HEADER_SIZE: usize = 16;

/// Message kinds.
pub const MSG_METHOD_CALL: u8 = 1;

pub const MSG_METHOD_RETURN: u8 = 2;

pub const MSG_ERROR: u8 = 3;

pub const MSG_SIGNAL: u8 = 4;

/// Header-field codes.
pub const HDR_PATH: u8 = 1;

pub const HDR_INTERFACE: u8 = 2;

pub const HDR_MEMBER: u8 = 3;

pub const HDR_ERROR_NAME: u8 = 4;

pub const HDR_REPLY_SERIAL: u8 = 5;

pub const HDR_DESTINATION: u8 = 6;

pub const HDR_SENDER: u8 = 7;

pub const HDR_SIGNATURE: u8 = 8;

pub const HDR_UNIX_FDS: u8 = 9;

/// The endianness marker of a little-endian message: the code of `l`.
pub const ENDIAN_LITTLE: u8 = 108;

/// A 32-bit little-endian word.
pub open spec fn le_u32(b0: u8, b1: u8, b2: u8, b3: u8) -> u32 {
    (b0 + b1 * 0x100 + b2 * 0x1_0000 + b3 * 0x100_0000) as u32
}

/// `p` rounded up to the next multiple of `n`.
pub open spec fn pad_to(p: int, n: int) -> int {
    if p % n == 0 {
        p
    } else {
        p + n - p % n
    }
}

/// The fixed part of a message header.
#[derive(Clone, Copy, PartialEq, Eq, Structural, Debug)]
pub struct FixedHeader {
    pub msg_ty: u8,
    pub flags: u8,
    pub body_len: u32,
    pub serial: u32,
    pub headers_len: u32,
}

/// Read the fixed header: the endianness marker must match this machine
/// and the protocol version must be known; the lengths and the serial are
/// little-endian words.
pub fn parse_fixed_header(buf: &[u8], host_little_endian: bool) -> (r: Result<
    FixedHeader,
    DbusError,
>)
    requires
        buf@.len() >= FIXED_HEADER_SIZE,
    ensures
        (buf@[0] == ENDIAN_LITTLE) != host_little_endian ==> r == Err::<FixedHeader, DbusError>(
            DbusError::InvalidEndianess,
        ),
        (buf@[0] == ENDIAN_LITTLE) == host_little_endian && buf@[3] != 1 ==> r == Err::<
            FixedHeader,
            DbusError,
        >(DbusError::InvalidProtocol),
        (buf@[0] == ENDIAN_LITTLE) == host_little_endian && buf@[3] == 1 ==> r == Ok::<
            FixedHeader,
            DbusError,
        >(
            FixedHeader {
                msg_ty: buf@[1],
                flags: buf@[2],
                body_len: le_u32(buf@[4], buf@[5], buf@[6], buf@[7]),
                serial: le_u32(buf@[8], buf@[9], buf@[10], buf@[11]),
                headers_len: le_u32(buf@[12], buf@[13], buf@[14], buf@[15]),
            },
        ),
{
    let endianness = buf[0];
    if (endianness == ENDIAN_LITTLE) != host_little_endian {
        return Err(DbusError::InvalidEndianess);
    }
    let msg_ty = buf[1];
    let flags = buf[2];
    let protocol = buf[3];
    if protocol != 1 {
        return Err(DbusError::InvalidProtocol);
    }
    let body_len = read_le_u32_at(buf, 4);
    let serial = read_le_u32_at(buf, 8);
    let headers_len = read_le_u32_at(buf, 12);
    Ok(FixedHeader { msg_ty, flags, body_len, serial, headers_len })
}

fn read_le_u32_at(buf: &[u8], p: usize) -> (r: u32)
    requires
        p + 4 <= buf@.len(),
    ensures
        r == le_u32(buf@[p as int], buf@[p as int + 1], buf@[p as int + 2], buf@[p as int + 3]),
{
    let b0 = buf[p] as u32;
    let b1 = buf[p + 1] as u32;
    let b2 = buf[p + 2] as u32;
    let b3 = buf[p + 3] as u32;
    b0 + b1 * 0x100 + b2 * 0x1_0000 + b3 * 0x100_0000
}

/// The dynamic header block's length, padded to the eight-byte boundary
/// the body starts on.
pub fn padded_headers_len(headers_len: u32) -> (r: u64)
    ensures
        r == pad_to(headers_len as int, 8),
        r % 8 == 0,
{
    let n = headers_len as u64;
    let rem = n % 8;
    if rem == 0 {
        n
    } else {
        n + (8 - rem)
    }
}

/// How many bytes beyond the fixed header the message still needs: the
/// padded header block plus the body.
pub fn total_remaining(headers_len: u32, body_len: u32) -> (r: u64)
    ensures
        r == pad_to(headers_len as int, 8) + body_len,
{
    padded_headers_len(headers_len) + (body_len as u64)
}

/// A byte reader over one received message.
pub struct Parser<'a> {
    pub buf: &'a [u8],
    pub pos: usize,
}

impl<'a> Parser<'a> {
    pub open spec fn wf(self) -> bool {
        self.pos <= self.buf@.len()
    }

    pub fn new(buf: &'a [u8]) -> (r: Parser<'a>)
        ensures
            r.buf@ == buf@,
            r.pos == 0,
            r.wf(),
    {
        Parser { buf, pos: 0 }
    }

    /// All bytes have been consumed.
    pub fn eof(&self) -> (r: bool)
        ensures
            r == (self.pos >= self.buf@.len()),
    {
        self.pos >= self.buf.len()
    }

    /// Advance to the next multiple of `n` (a power of two up to eight);
    /// running past the end of the message is an error.
    pub fn align_to(&mut self, n: usize) -> (r: Result<(), DbusError>)
        requires
            old(self).wf(),
            n == 1 || n == 2 || n == 4 || n == 8,
        ensures
            final(self).buf == old(self).buf,
            final(self).wf(),
            r is Ok <==> pad_to(old(self).pos as int, n as int) <= old(self).buf@.len(),
            r is Ok ==> final(self).pos == pad_to(old(self).pos as int, n as int),
            r is Err ==> r == Err::<(), DbusError>(DbusError::UnexpectedEof) && *final(self)
                == *old(self),
            final(self).pos >= old(self).pos,
    {
        let rem = self.pos % n;
        if rem == 0 {
            return Ok(());
        }
        let pad = n - rem;
        if pad > self.buf.len() - self.pos {
            return Err(DbusError::UnexpectedEof);
        }
        self.pos = self.pos + pad;
        Ok(())
    }

    /// Read one byte.
    pub fn read_u8(&mut self) -> (r: Result<u8, DbusError>)
        requires
            old(self).wf(),
        ensures
            final(self).buf == old(self).buf,
            final(self).wf(),
            old(self).pos < old(self).buf@.len() ==> r == Ok::<u8, DbusError>(
                old(self).buf@[old(self).pos as int],
            ) && final(self).pos == old(self).pos + 1,
            old(self).pos >= old(self).buf@.len() ==> r == Err::<u8, DbusError>(
                DbusError::UnexpectedEof,
            ) && *final(self) == *old(self),
    {
        if self.pos >= self.buf.len() {
            return Err(DbusError::UnexpectedEof);
        }
        let b = self.buf[self.pos];
        self.pos = self.pos + 1;
        Ok(b)
    }

    /// Read an aligned 32-bit little-endian word.
    pub fn read_u32(&mut self) -> (r: Result<u32, DbusError>)
        requires
            old(self).wf(),
        ensures
            final(self).buf == old(self).buf,
            final(self).wf(),
            final(self).pos >= old(self).pos,
            r is Ok <==> pad_to(old(self).pos as int, 4) + 4 <= old(self).buf@.len(),
            r matches Ok(v) ==> {
                let p = pad_to(old(self).pos as int, 4);
                &&& p + 4 <= old(self).buf@.len()
                &&& final(self).pos == p + 4
                &&& v == le_u32(
                    old(self).buf@[p],
                    old(self).buf@[p + 1],
                    old(self).buf@[p + 2],
                    old(self).buf@[p + 3],
                )
            },
            r is Err ==> r == Err::<u32, DbusError>(DbusError::UnexpectedEof),
    {
        self.align_to(4)?;
        if self.buf.len() - self.pos < 4 {
            return Err(DbusError::UnexpectedEof);
        }
        let v = read_le_u32_at(self.buf, self.pos);
        self.pos = self.pos + 4;
        Ok(v)
    }

    /// Read the bytes of a string whose 32-bit length prefix was just
    /// read, with its terminating zero byte.
    fn read_str_bytes(&mut self, n: u32) -> (r: Result<Vec<u8>, DbusError>)
        requires
            old(self).wf(),
        ensures
            final(self).buf == old(self).buf,
            final(self).wf(),
            final(self).pos >= old(self).pos,
            r is Ok <==> old(self).pos + n + 1 <= old(self).buf@.len() && old(self).buf@[old(
                self,
            ).pos + n] == 0,
            r matches Ok(s) ==> {
                &&& s@ == old(self).buf@.subrange(old(self).pos as int, old(self).pos + n)
                &&& final(self).pos == old(self).pos + n + 1
            },
            old(self).pos + n + 1 > old(self).buf@.len() ==> r == Err::<Vec<u8>, DbusError>(
                DbusError::UnexpectedEof,
            ) && *final(self) == *old(self),
            old(self).pos + n + 1 <= old(self).buf@.len() && old(self).buf@[old(self).pos + n]
                != 0 ==> r == Err::<Vec<u8>, DbusError>(DbusError::InvalidLength) && *final(self)
                == *old(self),
    {
        let len = n as usize;
        if self.buf.len() - self.pos < 1 || self.buf.len() - self.pos - 1 < len {
            return Err(DbusError::UnexpectedEof);
        }
        let total = self.buf.len();
        let mut s: Vec<u8> = Vec::new();
        let mut i: usize = 0;
        while i < len
            invariant
                0 <= i <= len,
                total == self.buf@.len(),
                self.pos + len + 1 <= total,
                self.buf == old(self).buf,
                self.pos == old(self).pos,
                s@ =~= self.buf@.subrange(self.pos as int, self.pos + i),
            decreases len - i,
        {
            s.push(self.buf[self.pos + i]);
            proof {
                assert(s@ =~= self.buf@.subrange(self.pos as int, self.pos + i + 1));
            }
            i = i + 1;
        }
        let nul = self.buf[self.pos + len];
        if nul != 0 {
            return Err(DbusError::InvalidLength);
        }
        self.pos = self.pos + len + 1;
        Ok(s)
    }

    /// Read an aligned, length-prefixed string: at the four-byte boundary
    /// a little-endian length, then that many bytes, then a zero byte.
    pub fn read_string(&mut self) -> (r: Result<Vec<u8>, DbusError>)
        requires
            old(self).wf(),
        ensures
            final(self).buf == old(self).buf,
            final(self).wf(),
            final(self).pos >= old(self).pos,
            r is Ok <==> ({
                let p = pad_to(old(self).pos as int, 4);
                &&& p + 4 <= old(self).buf@.len()
                &&& ({
                    let n = le_u32(
                        old(self).buf@[p],
                        old(self).buf@[p + 1],
                        old(self).buf@[p + 2],
                        old(self).buf@[p + 3],
                    );
                    p + 4 + n + 1 <= old(self).buf@.len() && old(self).buf@[p + 4 + n] == 0
                })
            }),
            r matches Ok(s) ==> {
                let p = pad_to(old(self).pos as int, 4);
                let n = le_u32(
                    old(self).buf@[p],
                    old(self).buf@[p + 1],
                    old(self).buf@[p + 2],
                    old(self).buf@[p + 3],
                );
                &&& s@ == old(self).buf@.subrange(p + 4, p + 4 + n)
                &&& final(self).pos == p + 4 + n + 1
            },
    {
        let n = self.read_u32()?;
        self.read_str_bytes(n)
    }

    /// Read a signature: a one-byte length, then that many bytes, then a
    /// zero byte.
    pub fn read_signature(&mut self) -> (r: Result<Signature, DbusError>)
        requires
            old(self).wf(),
        ensures
            final(self).buf == old(self).buf,
            final(self).wf(),
            final(self).pos >= old(self).pos,
            r is Ok <==> ({
                let p = old(self).pos as int;
                &&& p < old(self).buf@.len()
                &&& p + 1 + old(self).buf@[p] + 1 <= old(self).buf@.len()
                &&& old(self).buf@[p + 1 + old(self).buf@[p]] == 0
            }),
            r matches Ok(sig) ==> {
                let p = old(self).pos as int;
                let n = old(self).buf@[p] as int;
                &&& sig.0@ == old(self).buf@.subrange(p + 1, p + 1 + n)
                &&& final(self).pos == p + 1 + n + 1
            },
    {
        let n = self.read_u8()?;
        let s = self.read_str_bytes(n as u32)?;
        Ok(Signature(s))
    }

    /// Read an object path, carried as a string on the wire.
    pub fn read_object_path(&mut self) -> (r: Result<ObjectPath, DbusError>)
        requires
            old(self).wf(),
        ensures
            final(self).buf == old(self).buf,
            final(self).wf(),
            final(self).pos >= old(self).pos,
            r is Ok <==> ({
                let p = pad_to(old(self).pos as int, 4);
                &&& p + 4 <= old(self).buf@.len()
                &&& ({
                    let n = le_u32(
                        old(self).buf@[p],
                        old(self).buf@[p + 1],
                        old(self).buf@[p + 2],
                        old(self).buf@[p + 3],
                    );
                    p + 4 + n + 1 <= old(self).buf@.len() && old(self).buf@[p + 4 + n] == 0
                })
            }),
            r matches Ok(path) ==> {
                let p = pad_to(old(self).pos as int, 4);
                let n = le_u32(
                    old(self).buf@[p],
                    old(self).buf@[p + 1],
                    old(self).buf@[p + 2],
                    old(self).buf@[p + 3],
                );
                &&& path.0@ == old(self).buf@.subrange(p + 4, p + 4 + n)
                &&& final(self).pos == p + 4 + n + 1
            },
    {
        let s = self.read_string()?;
        Ok(ObjectPath(s))
    }

    /// Skip one complete value of the type `sig[si..]` starts with,
    /// returning the index after that type. Used to drop header fields
    /// this engine does not know.
    #[verifier::loop_isolation(false)]
    pub fn skip_value(&mut self, sig: &[u8], si: usize) -> (r: Result<usize, DbusError>)
        requires
            old(self).wf(),
            si <= sig@.len(),
        ensures
            final(self).buf == old(self).buf,
            final(self).wf(),
            final(self).pos >= old(self).pos,
            r matches Ok(nsi) ==> si < nsi <= sig@.len(),
        decreases old(self).buf@.len() - old(self).pos, sig@.len() - si,
    {
        if si >= sig.len() {
            return Err(DbusError::InvalidSignature);
        }
        let c = sig[si];
        if c == crate::dbus::types::TY_BYTE {
            self.read_u8()?;
            Ok(si + 1)
        } else if c == crate::dbus::types::TY_INT16 || c == crate::dbus::types::TY_UINT16 {
            self.align_to(2)?;
            self.read_u8()?;
            self.read_u8()?;
            Ok(si + 1)
        } else if c == crate::dbus::types::TY_BOOLEAN || c == crate::dbus::types::TY_INT32 || c
            == TY_UINT32 || c == crate::dbus::types::TY_UNIX_FD {
            self.read_u32()?;
            Ok(si + 1)
        } else if c == crate::dbus::types::TY_INT64 || c == crate::dbus::types::TY_UINT64 || c
            == crate::dbus::types::TY_DOUBLE {
            self.align_to(8)?;
            let p = self.pos;
            if self.buf.len() - p < 8 {
                return Err(DbusError::UnexpectedEof);
            }
            self.pos = p + 8;
            Ok(si + 1)
        } else if c == TY_STRING || c == TY_OBJECT_PATH {
            self.read_string()?;
            Ok(si + 1)
        } else if c == TY_SIGNATURE {
            self.read_signature()?;
            Ok(si + 1)
        } else if c == crate::dbus::types::TY_VARIANT {
            let inner = self.read_signature()?;
            let isig = inner.0;
            let nsi = self.skip_value(isig.as_slice(), 0)?;
            if nsi != isig.len() {
                return Err(DbusError::InvalidSignature);
            }
            Ok(si + 1)
        } else if c == crate::dbus::types::TY_ARRAY {
            let n = self.read_u32()?;
            // The element type is one complete type; its largest alignment
            // padding precedes the data, which is `n` bytes long.
            let nsi = self.skip_type(sig, si + 1)?;
            let start = self.pos;
            if n as usize > self.buf.len() - start {
                return Err(DbusError::UnexpectedEof);
            }
            // Elements of eight-byte alignment pad before the first one.
            let c2 = sig[si + 1];
            if c2 == crate::dbus::types::TY_INT64 || c2 == crate::dbus::types::TY_UINT64 || c2
                == crate::dbus::types::TY_DOUBLE || c2 == crate::dbus::types::TY_STRUCT_OPEN || c2
                == crate::dbus::types::TY_DICT_OPEN {
                self.align_to(8)?;
            }
            if n as usize > self.buf.len() - self.pos {
                return Err(DbusError::UnexpectedEof);
            }
            self.pos = self.pos + n as usize;
            Ok(nsi)
        } else if c == crate::dbus::types::TY_STRUCT_OPEN || c
            == crate::dbus::types::TY_DICT_OPEN {
            let close = if c == crate::dbus::types::TY_STRUCT_OPEN {
                crate::dbus::types::TY_STRUCT_CLOSE
            } else {
                crate::dbus::types::TY_DICT_CLOSE
            };
            self.align_to(8)?;
            let mut j = si + 1;
            loop
                invariant
                    self.wf(),
                    self.buf == old(self).buf,
                    self.pos >= old(self).pos,
                    si < j <= sig@.len(),
                decreases self.buf@.len() - self.pos, sig@.len() - j,
            {
                if j >= sig.len() {
                    return Err(DbusError::InvalidSignature);
                }
                if sig[j] == close {
                    return Ok(j + 1);
                }
                let j2 = self.skip_value(sig, j)?;
                j = j2;
            }
        } else {
            Err(DbusError::InvalidSignature)
        }
    }

    /// The index after one complete type in a signature, without touching
    /// the message bytes.
    pub fn skip_type(&self, sig: &[u8], si: usize) -> (r: Result<usize, DbusError>)
        requires
            si <= sig@.len(),
        ensures
            r matches Ok(nsi) ==> si < nsi <= sig@.len(),
        decreases sig@.len() - si,
    {
        if si >= sig.len() {
            return Err(DbusError::InvalidSignature);
        }
        let c = sig[si];
        if c == crate::dbus::types::TY_ARRAY {
            self.skip_type(sig, si + 1)
        } else if c == crate::dbus::types::TY_STRUCT_OPEN || c
            == crate::dbus::types::TY_DICT_OPEN {
            let close = if c == crate::dbus::types::TY_STRUCT_OPEN {
                crate::dbus::types::TY_STRUCT_CLOSE
            } else {
                crate::dbus::types::TY_DICT_CLOSE
            };
            let mut j = si + 1;
            loop
                invariant
                    si < j <= sig@.len(),
                decreases sig@.len() - j,
            {
                if j >= sig.len() {
                    return Err(DbusError::InvalidSignature);
                }
                if sig[j] == close {
                    return Ok(j + 1);
                }
                let j2 = self.skip_type(sig, j)?;
                j = j2;
            }
        } else {
            Ok(si + 1)
        }
    }
}

/// A header code names one of the fields this engine understands.
pub open spec fn known_header(code: u8) -> bool {
    code == HDR_PATH || code == HDR_INTERFACE || code == HDR_MEMBER || code == HDR_ERROR_NAME
        || code == HDR_REPLY_SERIAL || code == HDR_DESTINATION || code == HDR_SENDER || code
        == HDR_SIGNATURE || code == HDR_UNIX_FDS
}

/// The variant signature of the entry at `a` can be read: its length byte,
/// bytes and terminator are inside the buffer.
pub open spec fn entry_sig_readable(buf: Seq<u8>, a: int) -> bool {
    &&& a + 1 < buf.len()
    &&& a + 2 + buf[a + 1] + 1 <= buf.len()
    &&& buf[a + 2 + buf[a + 1]] == 0
}

/// The entry at `a` carries exactly the one-character signature `ty`, so
/// its value starts at `a + 4`.
pub open spec fn entry_sig_is(buf: Seq<u8>, a: int, ty: u8) -> bool {
    &&& a + 4 <= buf.len()
    &&& buf[a + 1] == 1
    &&& buf[a + 2] == ty
    &&& buf[a + 3] == 0
}

/// The length prefix of a string value at `a + 4`.
pub open spec fn entry_str_len(buf: Seq<u8>, a: int) -> int {
    le_u32(buf[a + 4], buf[a + 5], buf[a + 6], buf[a + 7]) as int
}

/// The string value at `a + 4` is complete: length prefix, bytes and
/// terminator all inside the buffer.
pub open spec fn entry_str_readable(buf: Seq<u8>, a: int) -> bool {
    &&& a + 8 <= buf.len()
    &&& a + 8 + entry_str_len(buf, a) + 1 <= buf.len()
    &&& buf[a + 8 + entry_str_len(buf, a)] == 0
}

/// The string value at `a + 4`.
pub open spec fn entry_str(buf: Seq<u8>, a: int) -> Seq<u8> {
    buf.subrange(a + 8, a + 8 + entry_str_len(buf, a))
}

/// The 32-bit value at `a + 4` is complete.
pub open spec fn entry_u32_readable(buf: Seq<u8>, a: int) -> bool {
    a + 8 <= buf.len()
}

/// The 32-bit value at `a + 4`.
pub open spec fn entry_u32(buf: Seq<u8>, a: int) -> u32 {
    le_u32(buf[a + 4], buf[a + 5], buf[a + 6], buf[a + 7])
}

/// The signature value at `a + 4` is complete: its one-byte length, bytes
/// and terminator are all inside the buffer.
pub open spec fn entry_sigval_readable(buf: Seq<u8>, a: int) -> bool {
    &&& a + 5 <= buf.len()
    &&& a + 5 + buf[a + 4] + 1 <= buf.len()
    &&& buf[a + 5 + buf[a + 4]] == 0
}

/// The signature value at `a + 4`.
pub open spec fn entry_sigval(buf: Seq<u8>, a: int) -> Seq<u8> {
    buf.subrange(a + 5, a + 5 + buf[a + 4])
}

/// At most the field named by `code` changed between two header records.
pub open spec fn only_field_set(h0: Headers, h1: Headers, code: u8) -> bool {
    &&& (code == HDR_PATH || h1.path == h0.path)
    &&& (code == HDR_INTERFACE || h1.interface == h0.interface)
    &&& (code == HDR_MEMBER || h1.member == h0.member)
    &&& (code == HDR_ERROR_NAME || h1.error_name == h0.error_name)
    &&& (code == HDR_REPLY_SERIAL || h1.reply_serial == h0.reply_serial)
    &&& (code == HDR_DESTINATION || h1.destination == h0.destination)
    &&& (code == HDR_SENDER || h1.sender == h0.sender)
    &&& (code == HDR_SIGNATURE || h1.signature == h0.signature)
    &&& (code == HDR_UNIX_FDS || h1.unix_fds == h0.unix_fds)
}

/// A string-typed header field parses exactly: under its expected
/// signature, the readable string value lands in its field and the reader
/// stops right after the terminator.
pub open spec fn string_field_parsed(
    buf: Seq<u8>,
    a: int,
    value: Option<Vec<u8>>,
    end: int,
) -> bool {
    &&& value matches Some(v) && v@ == entry_str(buf, a)
    &&& end == a + 8 + entry_str_len(buf, a) + 1
}

/// Read one eight-byte-aligned (code, variant) header entry: a known code
/// sets exactly its field from a value of exactly its type — any other
/// well-formed signature on a known code is a variant-type error — while
/// an unknown code's value is skipped by its signature. A failed entry
/// leaves the fields untouched.
#[verifier::rlimit(100)]
pub fn read_header_field(parser: &mut Parser, headers: &mut Headers) -> (r: Result<(), DbusError>)
    requires
        old(parser).wf(),
    ensures
        final(parser).buf == old(parser).buf,
        final(parser).wf(),
        final(parser).pos >= old(parser).pos,
        r is Ok ==> final(parser).pos > old(parser).pos,
        r is Err ==> *final(headers) == *old(headers),
        ({
            let buf = old(parser).buf@;
            let a = pad_to(old(parser).pos as int, 8);
            &&& (a < buf.len() && known_header(buf[a]) ==> {
                let code = buf[a];
                &&& (entry_sig_readable(buf, a) && !(buf[a + 1] == 1 && buf[a + 2]
                    == expected_sig(code)) ==> r == Err::<(), DbusError>(
                    DbusError::InvalidVariantType,
                ))
                &&& (r is Ok ==> only_field_set(*old(headers), *final(headers), code))
                &&& (code == HDR_PATH && entry_sig_is(buf, a, TY_OBJECT_PATH)
                    && entry_str_readable(buf, a) ==> r is Ok && (final(headers).path matches Some(
                    v,
                ) && v.0@ == entry_str(buf, a)) && final(parser).pos == a + 8 + entry_str_len(
                    buf,
                    a,
                ) + 1)
                &&& (code == HDR_INTERFACE && entry_sig_is(buf, a, TY_STRING)
                    && entry_str_readable(buf, a) ==> r is Ok && string_field_parsed(
                    buf,
                    a,
                    final(headers).interface,
                    final(parser).pos as int,
                ))
                &&& (code == HDR_MEMBER && entry_sig_is(buf, a, TY_STRING) && entry_str_readable(
                    buf,
                    a,
                ) ==> r is Ok && string_field_parsed(
                    buf,
                    a,
                    final(headers).member,
                    final(parser).pos as int,
                ))
                &&& (code == HDR_ERROR_NAME && entry_sig_is(buf, a, TY_STRING)
                    && entry_str_readable(buf, a) ==> r is Ok && string_field_parsed(
                    buf,
                    a,
                    final(headers).error_name,
                    final(parser).pos as int,
                ))
                &&& (code == HDR_DESTINATION && entry_sig_is(buf, a, TY_STRING)
                    && entry_str_readable(buf, a) ==> r is Ok && string_field_parsed(
                    buf,
                    a,
                    final(headers).destination,
                    final(parser).pos as int,
                ))
                &&& (code == HDR_SENDER && entry_sig_is(buf, a, TY_STRING) && entry_str_readable(
                    buf,
                    a,
                ) ==> r is Ok && string_field_parsed(
                    buf,
                    a,
                    final(headers).sender,
                    final(parser).pos as int,
                ))
                &&& (code == HDR_REPLY_SERIAL && entry_sig_is(buf, a, TY_UINT32)
                    && entry_u32_readable(buf, a) ==> r is Ok && final(headers).reply_serial
                    == Some(entry_u32(buf, a)) && final(parser).pos == a + 8)
                &&& (code == HDR_UNIX_FDS && entry_sig_is(buf, a, TY_UINT32)
                    && entry_u32_readable(buf, a) ==> r is Ok && final(headers).unix_fds == Some(
                    entry_u32(buf, a),
                ) && final(parser).pos == a + 8)
                &&& (code == HDR_SIGNATURE && entry_sig_is(buf, a, TY_SIGNATURE)
                    && entry_sigval_readable(buf, a) ==> r is Ok && (final(headers).signature
                    matches Some(s) && s.0@ == entry_sigval(buf, a)) && final(parser).pos == a + 5
                    + buf[a + 4] + 1)
            })
            &&& (a < buf.len() && !known_header(buf[a]) ==> (r is Ok ==> *final(headers) == *old(
                headers,
            )))
        }),
{
    let ghost buf = parser.buf@;
    parser.align_to(8)?;
    proof {
        assert(parser.pos as int == pad_to(old(parser).pos as int, 8));
        assert(parser.pos as int % 8 == 0);
    }
    let entry_start = parser.pos;
    let ghost a = parser.pos as int;
    let ty = parser.read_u8()?;
    let sig = parser.read_signature()?;
    if ty == HDR_PATH {
        expect_sig(&sig, TY_OBJECT_PATH)?;
        proof {
            assert(pad_to(a + 4, 4) == a + 4);
        }
        headers.path = Some(parser.read_object_path()?);
    } else if ty == HDR_INTERFACE {
        expect_sig(&sig, TY_STRING)?;
        proof {
            assert(pad_to(a + 4, 4) == a + 4);
        }
        headers.interface = Some(parser.read_string()?);
    } else if ty == HDR_MEMBER {
        expect_sig(&sig, TY_STRING)?;
        proof {
            assert(pad_to(a + 4, 4) == a + 4);
        }
        headers.member = Some(parser.read_string()?);
    } else if ty == HDR_ERROR_NAME {
        expect_sig(&sig, TY_STRING)?;
        proof {
            assert(pad_to(a + 4, 4) == a + 4);
        }
        headers.error_name = Some(parser.read_string()?);
    } else if ty == HDR_REPLY_SERIAL {
        expect_sig(&sig, TY_UINT32)?;
        proof {
            assert(pad_to(a + 4, 4) == a + 4);
        }
        headers.reply_serial = Some(parser.read_u32()?);
    } else if ty == HDR_DESTINATION {
        expect_sig(&sig, TY_STRING)?;
        proof {
            assert(pad_to(a + 4, 4) == a + 4);
        }
        headers.destination = Some(parser.read_string()?);
    } else if ty == HDR_SENDER {
        expect_sig(&sig, TY_STRING)?;
        proof {
            assert(pad_to(a + 4, 4) == a + 4);
        }
        headers.sender = Some(parser.read_string()?);
    } else if ty == HDR_SIGNATURE {
        expect_sig(&sig, TY_SIGNATURE)?;
        headers.signature = Some(parser.read_signature()?);
    } else if ty == HDR_UNIX_FDS {
        expect_sig(&sig, TY_UINT32)?;
        proof {
            assert(pad_to(a + 4, 4) == a + 4);
        }
        headers.unix_fds = Some(parser.read_u32()?);
    } else {
        let isig = sig.0;
        let nsi = parser.skip_value(isig.as_slice(), 0)?;
        if nsi != isig.len() {
            return Err(DbusError::InvalidSignature);
        }
        if parser.pos <= entry_start {
            return Err(DbusError::InvalidLength);
        }
    }
    Ok(())
}

/// The expected value type of a known header code.
pub open spec fn expected_sig(code: u8) -> u8 {
    if code == HDR_PATH {
        TY_OBJECT_PATH
    } else if code == HDR_REPLY_SERIAL || code == HDR_UNIX_FDS {
        TY_UINT32
    } else if code == HDR_SIGNATURE {
        TY_SIGNATURE
    } else {
        TY_STRING
    }
}

/// The incoming half of a bus connection: how many passed descriptors
/// arrived with the current message.
pub struct Incoming {
    pub fds_available: usize,
}

impl Incoming {
    /// A message naming more passed descriptors than actually arrived is
    /// refused.
    pub fn check_fds(&self, unix_fds: u32) -> (r: Result<(), DbusError>)
        ensures
            r == if (unix_fds as int) > self.fds_available as int {
                Err::<(), DbusError>(DbusError::TooFewFds)
            } else {
                Ok::<(), DbusError>(())
            },
    {
        if unix_fds as usize > self.fds_available {
            Err(DbusError::TooFewFds)
        } else {
            Ok(())
        }
    }

    /// Parse the header-field block: a sequence of eight-byte-aligned
    /// (code, variant) pairs, folded left to right so a repeated code's
    /// last occurrence wins. What each entry does — a known code sets
    /// exactly its field from a value of exactly its type, a wrong type is
    /// refused, an unknown code is skipped by its signature — is the
    /// contract of `read_header_field`, which this loop iterates until the
    /// block is consumed.
    #[verifier::loop_isolation(false)]
    pub fn parse_headers(&self, buf: &[u8]) -> (r: Result<Headers, DbusError>)
        ensures
            buf@.len() == 0 ==> (r matches Ok(h) && h.path is None && h.interface is None
                && h.member is None && h.error_name is None && h.reply_serial is None
                && h.destination is None && h.sender is None && h.signature is None && h.unix_fds
                is None),
    {
        let mut parser = Parser::new(buf);
        let mut headers = Headers {
            path: None,
            interface: None,
            member: None,
            error_name: None,
            reply_serial: None,
            destination: None,
            sender: None,
            signature: None,
            unix_fds: None,
        };
        loop
            invariant
                parser.wf(),
                parser.buf@ == buf@,
                buf@.len() == 0 ==> headers.path is None && headers.interface is None
                    && headers.member is None && headers.error_name is None
                    && headers.reply_serial is None && headers.destination is None
                    && headers.sender is None && headers.signature is None && headers.unix_fds
                    is None,
            decreases parser.buf@.len() - parser.pos,
        {
            if parser.eof() {
                return Ok(headers);
            }
            read_header_field(&mut parser, &mut headers)?;
        }
    }
}

/// A known header field must carry exactly its one expected type.
fn expect_sig(sig: &Signature, code: u8) -> (r: Result<(), DbusError>)
    ensures
        r is Ok <==> sig.0@.len() == 1 && sig.0@[0] == code,
        r is Err ==> r == Err::<(), DbusError>(DbusError::InvalidVariantType),
{
    if sig.0.len() == 1 {
        let b = sig.0[0];
        if b == code {
            return Ok(());
        }
    }
    Err(DbusError::InvalidVariantType)
}

/// What the dispatch loop does with one parsed message.
#[derive(Clone, Copy, PartialEq, Eq, Structural, Debug)]
pub enum MsgClass {
    /// A reply to the call with this serial.
    Reply { serial: u32 },
    /// An error reply to the call with this serial.
    ErrorReply { serial: u32 },
    /// A signal; its interface, member and path are all present.
    Signal,
    /// Anything else is ignored.
    Other,
}

/// Classify a message from its kind and headers: replies need the serial
/// of the call they answer, signals need their addressing headers.
pub fn classify_message(msg_ty: u8, headers: &Headers) -> (r: Result<MsgClass, DbusError>)
    ensures
        msg_ty == MSG_METHOD_RETURN || msg_ty == MSG_ERROR ==> (match headers.reply_serial {
            Some(serial) => r == Ok::<MsgClass, DbusError>(
                if msg_ty == MSG_ERROR {
                    MsgClass::ErrorReply { serial }
                } else {
                    MsgClass::Reply { serial }
                },
            ),
            None => r == Err::<MsgClass, DbusError>(DbusError::NoReplySerial),
        }),
        msg_ty == MSG_SIGNAL ==> (if headers.interface is Some && headers.member is Some
            && headers.path is Some {
            r == Ok::<MsgClass, DbusError>(MsgClass::Signal)
        } else {
            r == Err::<MsgClass, DbusError>(DbusError::MissingSignalHeaders)
        }),
        msg_ty != MSG_METHOD_RETURN && msg_ty != MSG_ERROR && msg_ty != MSG_SIGNAL ==> r == Ok::<
            MsgClass,
            DbusError,
        >(MsgClass::Other),
{
    if msg_ty == MSG_METHOD_RETURN || msg_ty == MSG_ERROR {
        match headers.reply_serial {
            Some(serial) => {
                if msg_ty == MSG_ERROR {
                    Ok(MsgClass::ErrorReply { serial })
                } else {
                    Ok(MsgClass::Reply { serial })
                }
            },
            None => Err(DbusError::NoReplySerial),
        }
    } else if msg_ty == MSG_SIGNAL {
        if headers.interface.is_some() && headers.member.is_some() && headers.path.is_some() {
            Ok(MsgClass::Signal)
        } else {
            Err(DbusError::MissingSignalHeaders)
        }
    } else {
        Ok(MsgClass::Other)
    }
}

/// The name and message of an error reply; an error reply without an error
/// name is refused.
pub fn error_reply_name(headers: Headers) -> (r: Result<Vec<u8>, DbusError>)
    ensures
        match headers.error_name {
            Some(n) => r == Ok::<Vec<u8>, DbusError>(n),
            None => r == Err::<Vec<u8>, DbusError>(DbusError::NoErrorName),
        },
{
    match headers.error_name {
        Some(n) => Ok(n),
        None => Err(DbusError::NoErrorName),
    }
}

} // verus!

//! The value model of the session-bus wire format: the basic types, the
//! container types and the dynamically typed `Variant`, together with the
//! signature each value writes. Textual wire values are carried as byte
//! strings, as the wire does.

use vstd::prelude::*;

verus! {

/// Signature codes of the wire format's types, each the code of its
/// signature character.
pub const TY_BYTE: u8 = 121;

pub const TY_BOOLEAN: u8 = 98;

pub const TY_INT16: u8 = 110;

pub const TY_UINT16: u8 = 113;

pub const TY_INT32: u8 = 105;

pub const TY_UINT32: u8 = 117;

pub const TY_INT64: u8 = 120;

pub const TY_UINT64: u8 = 116;

pub const TY_DOUBLE: u8 = 100;

pub const TY_STRING: u8 = 115;

pub const TY_OBJECT_PATH: u8 = 111;

pub const TY_SIGNATURE: u8 = 103;

pub const TY_UNIX_FD: u8 = 104;

pub const TY_ARRAY: u8 = 97;

pub const TY_VARIANT: u8 = 118;

pub const TY_STRUCT_OPEN: u8 = 40;

pub const TY_STRUCT_CLOSE: u8 = 41;

pub const TY_DICT_OPEN: u8 = 123;

pub const TY_DICT_CLOSE: u8 = 125;

/// The wire's boolean: a 32-bit word that is zero or one.
#[derive(Clone, Copy, PartialEq, Eq, Structural, Debug)]
pub struct Bool(pub u32);

impl Bool {
    /// The wire word of a native boolean.
    pub fn from_bool(b: bool) -> (r: Bool)
        ensures
            r.0 == (if b {
                1u32
            } else {
                0u32
            }),
    {
        Bool(if b {
            1
        } else {
            0
        })
    }

    /// The native boolean of a wire word that is zero or one.
    pub fn to_bool(self) -> (r: Result<bool, DbusError>)
        ensures
            self.0 == 0 ==> r == Ok::<bool, DbusError>(false),
            self.0 == 1 ==> r == Ok::<bool, DbusError>(true),
            self.0 > 1 ==> r == Err::<bool, DbusError>(DbusError::InvalidBool),
    {
        if self.0 == 0 {
            Ok(false)
        } else if self.0 == 1 {
            Ok(true)
        } else {
            Err(DbusError::InvalidBool)
        }
    }
}

/// A type signature: a byte string of signature codes.
#[derive(Clone, PartialEq, Eq, Debug)]
pub struct Signature(pub Vec<u8>);

/// An object path, carried as its byte string.
#[derive(Clone, PartialEq, Eq, Debug)]
pub struct ObjectPath(pub Vec<u8>);

/// One entry of a dictionary: a key/value pair.
#[derive(Clone, PartialEq, Eq, Debug)]
pub struct DictEntry<K, V> {
    pub key: K,
    pub value: V,
}

/// Errors of the session-bus engine.
#[derive(Clone, Copy, PartialEq, Eq, Structural, Debug)]
pub enum DbusError {
    /// The message's endianness marker does not match this machine.
    InvalidEndianess,
    /// The message speaks an unknown protocol version.
    InvalidProtocol,
    /// The message names more passed descriptors than arrived.
    TooFewFds,
    /// A reply carries no serial naming the call it answers.
    NoReplySerial,
    /// An error reply carries no error name.
    NoErrorName,
    /// A signal lacks its interface, member or path header.
    MissingSignalHeaders,
    /// A variant held a different type than the reader asked for.
    InvalidVariantType,
    /// The message ended inside a value.
    UnexpectedEof,
    /// A signature is malformed.
    InvalidSignature,
    /// A boolean word was neither zero nor one.
    InvalidBool,
    /// A length prefix or padding overflows the message.
    InvalidLength,
}

/// The header fields of one message; absent fields stay `None`.
#[derive(PartialEq, Eq, Debug)]
pub struct Headers {
    pub path: Option<ObjectPath>,
    pub interface: Option<Vec<u8>>,
    pub member: Option<Vec<u8>>,
    pub error_name: Option<Vec<u8>>,
    pub reply_serial: Option<u32>,
    pub destination: Option<Vec<u8>>,
    pub sender: Option<Vec<u8>>,
    pub signature: Option<Signature>,
    pub unix_fds: Option<u32>,
}

/// A dynamically typed wire value. Floating-point values are carried as
/// their bit pattern; descriptors as their index into the message's
/// descriptor list.
pub enum Variant {
    U8(u8),
    Bool(Bool),
    I16(i16),
    U16(u16),
    I32(i32),
    U32(u32),
    I64(i64),
    U64(u64),
    F64Bits(u64),
    String(Vec<u8>),
    ObjectPath(ObjectPath),
    Signature(Signature),
    Variant(Box<Variant>),
    Fd(u32),
    Array(Vec<u8>, Vec<Variant>),
    DictEntry(Box<Variant>, Box<Variant>),
    Struct(Vec<Variant>),
}

/// The signature the values `vs[i..]` write, one complete type each.
pub open spec fn signatures_from(vs: Seq<Variant>, i: int) -> Seq<u8>
    decreases vs, vs.len() - i,
    when 0 <= i <= vs.len()
{
    if i == vs.len() {
        Seq::<u8>::empty()
    } else {
        signature_of(vs[i]) + signatures_from(vs, i + 1)
    }
}

/// How many passed descriptors the values `vs[i..]` carry between them.
pub open spec fn num_fds_from(vs: Seq<Variant>, i: int) -> nat
    decreases vs, vs.len() - i,
    when 0 <= i <= vs.len()
{
    if i == vs.len() {
        0
    } else {
        num_fds_of(vs[i]) + num_fds_from(vs, i + 1)
    }
}

/// How many passed descriptors a value carries.
pub open spec fn num_fds_of(v: Variant) -> nat
    decreases v,
{
    match v {
        Variant::Fd(_) => 1,
        Variant::Variant(b) => num_fds_of(*b),
        Variant::Array(_, vs) => num_fds_from(vs@, 0),
        Variant::DictEntry(k, val) => num_fds_of(*k) + num_fds_of(*val),
        Variant::Struct(fields) => num_fds_from(fields@, 0),
        _ => 0,
    }
}

fn num_fds_list(vs: &Vec<Variant>) -> (r: u32)
    requires
        num_fds_from(vs@, 0) <= u32::MAX,
    ensures
        r == num_fds_from(vs@, 0),
    decreases *vs, 1nat,
{
    let mut acc: u32 = 0;
    let mut i: usize = 0;
    while i < vs.len()
        invariant
            0 <= i <= vs@.len(),
            num_fds_from(vs@, 0) <= u32::MAX,
            acc + num_fds_from(vs@, i as int) == num_fds_from(vs@, 0),
        decreases vs@.len() - i,
    {
        let v = &vs[i];
        proof {
            vstd::std_specs::vec::axiom_vec_index_decreases(*vs, i as int);
            assert(vs@[i as int] == *v);
        }
        acc = acc + v.num_fds();
        i = i + 1;
    }
    acc
}

/// The signature a value writes.
pub open spec fn signature_of(v: Variant) -> Seq<u8>
    decreases v,
{
    match v {
        Variant::U8(_) => seq![TY_BYTE],
        Variant::Bool(_) => seq![TY_BOOLEAN],
        Variant::I16(_) => seq![TY_INT16],
        Variant::U16(_) => seq![TY_UINT16],
        Variant::I32(_) => seq![TY_INT32],
        Variant::U32(_) => seq![TY_UINT32],
        Variant::I64(_) => seq![TY_INT64],
        Variant::U64(_) => seq![TY_UINT64],
        Variant::F64Bits(_) => seq![TY_DOUBLE],
        Variant::String(_) => seq![TY_STRING],
        Variant::ObjectPath(_) => seq![TY_OBJECT_PATH],
        Variant::Signature(_) => seq![TY_SIGNATURE],
        Variant::Variant(_) => seq![TY_VARIANT],
        Variant::Fd(_) => seq![TY_UNIX_FD],
        Variant::Array(elem, _) => seq![TY_ARRAY] + elem@,
        Variant::DictEntry(k, val) => seq![TY_DICT_OPEN] + signature_of(*k) + signature_of(*val)
            + seq![TY_DICT_CLOSE],
        Variant::Struct(fields) => seq![TY_STRUCT_OPEN] + signatures_from(fields@, 0) + seq![
            TY_STRUCT_CLOSE,
        ],
    }
}

impl Variant {
    /// Take the value as a string; any other type is a variant-type error.
    pub fn into_string(self) -> (r: Result<Vec<u8>, DbusError>)
        ensures
            match r {
                Ok(s) => self matches Variant::String(v) && s == v,
                Err(e) => !(self is String) && e == DbusError::InvalidVariantType,
            },
    {
        match self {
            Variant::String(s) => Ok(s),
            _ => Err(DbusError::InvalidVariantType),
        }
    }

    /// Take the value as an object path.
    pub fn into_object_path(self) -> (r: Result<ObjectPath, DbusError>)
        ensures
            match r {
                Ok(s) => self matches Variant::ObjectPath(v) && s == v,
                Err(e) => !(self is ObjectPath) && e == DbusError::InvalidVariantType,
            },
    {
        match self {
            Variant::ObjectPath(s) => Ok(s),
            _ => Err(DbusError::InvalidVariantType),
        }
    }

    /// Take the value as a signature.
    pub fn into_signature(self) -> (r: Result<Signature, DbusError>)
        ensures
            match r {
                Ok(s) => self matches Variant::Signature(v) && s == v,
                Err(e) => !(self is Signature) && e == DbusError::InvalidVariantType,
            },
    {
        match self {
            Variant::Signature(s) => Ok(s),
            _ => Err(DbusError::InvalidVariantType),
        }
    }

    /// Take the value as an unsigned 32-bit word.
    pub fn into_u32(self) -> (r: Result<u32, DbusError>)
        ensures
            match r {
                Ok(s) => self matches Variant::U32(v) && s == v,
                Err(e) => !(self is U32) && e == DbusError::InvalidVariantType,
            },
    {
        match self {
            Variant::U32(s) => Ok(s),
            _ => Err(DbusError::InvalidVariantType),
        }
    }

    /// Count the passed descriptors this value carries: the number the
    /// message header must announce before the value is sent.
    pub fn num_fds(&self) -> (r: u32)
        requires
            num_fds_of(*self) <= u32::MAX,
        ensures
            r == num_fds_of(*self),
        decreases *self, 0nat,
    {
        match self {
            Variant::Fd(_) => 1,
            Variant::Variant(b) => b.num_fds(),
            Variant::Array(_, vs) => num_fds_list(vs),
            Variant::DictEntry(k, val) => k.num_fds() + val.num_fds(),
            Variant::Struct(fields) => num_fds_list(fields),
            _ => 0,
        }
    }

    /// Append this value's signature to `w`.
    #[verifier::loop_isolation(false)]
    pub fn write_signature(&self, w: &mut Vec<u8>)
        ensures
            final(w)@ =~= old(w)@ + signature_of(*self),
        decreases *self,
    {
        match self {
            Variant::U8(_) => w.push(TY_BYTE),
            Variant::Bool(_) => w.push(TY_BOOLEAN),
            Variant::I16(_) => w.push(TY_INT16),
            Variant::U16(_) => w.push(TY_UINT16),
            Variant::I32(_) => w.push(TY_INT32),
            Variant::U32(_) => w.push(TY_UINT32),
            Variant::I64(_) => w.push(TY_INT64),
            Variant::U64(_) => w.push(TY_UINT64),
            Variant::F64Bits(_) => w.push(TY_DOUBLE),
            Variant::String(_) => w.push(TY_STRING),
            Variant::ObjectPath(_) => w.push(TY_OBJECT_PATH),
            Variant::Signature(_) => w.push(TY_SIGNATURE),
            Variant::Variant(_) => w.push(TY_VARIANT),
            Variant::Fd(_) => w.push(TY_UNIX_FD),
            Variant::Array(elem, _) => {
                w.push(TY_ARRAY);
                let mut i: usize = 0;
                while i < elem.len()
                    invariant
                        0 <= i <= elem@.len(),
                        w@ =~= old(w)@ + seq![TY_ARRAY] + elem@.take(i as int),
                    decreases elem@.len() - i,
                {
                    let b = elem[i];
                    w.push(b);
                    proof {
                        assert(elem@.take(i as int + 1) =~= elem@.take(i as int).push(
                            elem@[i as int],
                        ));
                    }
                    i = i + 1;
                }
                proof {
                    assert(elem@.take(elem@.len() as int) =~= elem@);
                }
            },
            Variant::DictEntry(k, val) => {
                w.push(TY_DICT_OPEN);
                k.write_signature(w);
                val.write_signature(w);
                w.push(TY_DICT_CLOSE);
            },
            Variant::Struct(fields) => {
                w.push(TY_STRUCT_OPEN);
                let ghost mid = w@;
                let mut i: usize = 0;
                while i < fields.len()
                    invariant
                        0 <= i <= fields@.len(),
                        mid == old(w)@ + seq![TY_STRUCT_OPEN],
                        w@ + signatures_from(fields@, i as int) =~= mid + signatures_from(
                            fields@,
                            0,
                        ),
                    decreases fields@.len() - i,
                {
                    let f = &fields[i];
                    proof {
                        vstd::std_specs::vec::axiom_vec_index_decreases(*fields, i as int);
                        assert(fields@[i as int] == *f);
                        assert(decreases_to!(*self => *fields));
                        assert(decreases_to!(*self => fields@[i as int]));
                    }
                    f.write_signature(w);
                    i = i + 1;
                }
                w.push(TY_STRUCT_CLOSE);
            },
        }
    }
}

} // verus!

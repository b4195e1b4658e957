//! The class and method of a STUN message, and their 14-bit packing.
use crate::error::StunDecodeErr;
use vstd::prelude::*;

verus! {

/// The class of a message together with its 12-bit method.
#[derive(Debug, Clone, Copy, PartialEq, Eq, Structural)]
pub enum StunTyp {
    Req(u16),
    Ind(u16),
    Res(u16),
    Error(u16),
}

/// The class bits of a request.
pub const CLASS_REQ: u16 = 0x0000;

/// The class bits of an indication.
pub const CLASS_IND: u16 = 0x0010;

/// The class bits of a success response.
pub const CLASS_RES: u16 = 0x0100;

/// The class bits of an error response.
pub const CLASS_ERR: u16 = 0x0110;

/// The method bits of a type field, gathered into a 12-bit number.
pub open spec fn unpack_method(value: u16) -> u16 {
    (value & 0x000f) | ((value & 0x00e0) >> 1) | ((value & 0x3e00) >> 2)
}

/// A 12-bit method spread over the method bits of a type field.
pub open spec fn pack_method(method: u16) -> u16 {
    (method & 0x000f) | ((method & 0x0070) << 1) | ((method & 0x0f80) << 2)
}

/// The message type that a type field below `0x4000` stands for.
pub open spec fn typ_of_code(value: u16) -> StunTyp {
    let method = unpack_method(value);
    let class = value & 0x0110;
    if class == CLASS_REQ {
        StunTyp::Req(method)
    } else if class == CLASS_IND {
        StunTyp::Ind(method)
    } else if class == CLASS_RES {
        StunTyp::Res(method)
    } else {
        StunTyp::Error(method)
    }
}

impl StunTyp {
    /// The method, whatever the class.
    pub open spec fn spec_method(&self) -> u16 {
        match *self {
            StunTyp::Req(m) => m,
            StunTyp::Ind(m) => m,
            StunTyp::Res(m) => m,
            StunTyp::Error(m) => m,
        }
    }

    /// The class bits, in their place in the type field.
    pub open spec fn class_bits(&self) -> u16 {
        match *self {
            StunTyp::Req(_) => CLASS_REQ,
            StunTyp::Ind(_) => CLASS_IND,
            StunTyp::Res(_) => CLASS_RES,
            StunTyp::Error(_) => CLASS_ERR,
        }
    }

    /// The 14-bit type field. Method bits above the twelfth are left out.
    pub open spec fn spec_code(&self) -> u16 {
        pack_method(self.spec_method()) | self.class_bits()
    }

    /// Whether this is a success or an error response.
    pub open spec fn spec_is_response(&self) -> bool {
        *self is Res || *self is Error
    }

    /// Whether the method fits in twelve bits.
    pub open spec fn wf(&self) -> bool {
        self.spec_method() < 0x1000
    }

    /// The method, whatever the class.
    pub fn method(&self) -> (r: u16)
        ensures
            r == self.spec_method(),
    {
        match *self {
            StunTyp::Req(m) => m,
            StunTyp::Ind(m) => m,
            StunTyp::Res(m) => m,
            StunTyp::Error(m) => m,
        }
    }

    /// Whether this is a success or an error response.
    pub fn is_response(&self) -> (r: bool)
        ensures
            r == self.spec_is_response(),
    {
        match *self {
            StunTyp::Res(_) | StunTyp::Error(_) => true,
            _ => false,
        }
    }

    /// Reads a type field. Values from `0x4000` up are no STUN type.
    pub fn try_from(value: u16) -> (r: Result<StunTyp, StunDecodeErr>)
        ensures
            r is Ok <==> value < 0x4000,
            r is Ok ==> r->Ok_0 == typ_of_code(value) && r->Ok_0.wf(),
            r is Err ==> r->Err_0 == StunDecodeErr::TypeOutOfRange,
    {
        if value >= 0x4000 {
            return Err(StunDecodeErr::TypeOutOfRange);
        }
        let method: u16 = (value & 0x000f) | ((value & 0x00e0) >> 1) | ((value & 0x3e00) >> 2);
        let class: u16 = value & 0x0110;
        assert(method < 0x1000) by (bit_vector)
            requires
                method == (value & 0x000f) | ((value & 0x00e0) >> 1) | ((value & 0x3e00) >> 2),
                value < 0x4000,
        ;
        if class == CLASS_REQ {
            Ok(StunTyp::Req(method))
        } else if class == CLASS_IND {
            Ok(StunTyp::Ind(method))
        } else if class == CLASS_RES {
            Ok(StunTyp::Res(method))
        } else {
            Ok(StunTyp::Error(method))
        }
    }

    /// The 14-bit type field of this class and method.
    pub fn code(&self) -> (r: u16)
        ensures
            r == self.spec_code(),
            r < 0x4000,
    {
        let method: u16 = self.method();
        let class: u16 = match *self {
            StunTyp::Req(_) => CLASS_REQ,
            StunTyp::Ind(_) => CLASS_IND,
            StunTyp::Res(_) => CLASS_RES,
            StunTyp::Error(_) => CLASS_ERR,
        };
        let r: u16 = (method & 0x000f) | ((method & 0x0070) << 1) | ((method & 0x0f80) << 2) | class;
        assert(r < 0x4000) by (bit_vector)
            requires
                r == (method & 0x000f) | ((method & 0x0070) << 1) | ((method & 0x0f80) << 2)
                    | class,
                class == 0x0000 || class == 0x0010 || class == 0x0100 || class == 0x0110,
        ;
        r
    }
}

/// Packing a class and a 12-bit method and reading the field back gives the
/// same class and method.
pub proof fn lemma_typ_roundtrip(t: StunTyp)
    requires
        t.wf(),
    ensures
        t.spec_code() < 0x4000,
        typ_of_code(t.spec_code()) == t,
{
    let m = t.spec_method();
    let c = t.class_bits();
    let v = pack_method(m) | c;
    assert(v < 0x4000 && (v & 0x0110) == c && (v & 0x000f) | ((v & 0x00e0) >> 1) | ((v & 0x3e00)
        >> 2) == m) by (bit_vector)
        requires
            v == (m & 0x000f) | ((m & 0x0070) << 1) | ((m & 0x0f80) << 2) | c,
            m < 0x1000,
            c == 0x0000 || c == 0x0010 || c == 0x0100 || c == 0x0110,
    ;
}

/// Reading a type field and packing the result gives the field back.
pub proof fn lemma_code_roundtrip(value: u16)
    requires
        value < 0x4000,
    ensures
        typ_of_code(value).spec_code() == value,
{
    let m = unpack_method(value);
    let c = value & 0x0110;
    assert((c == 0x0000 || c == 0x0010 || c == 0x0100 || c == 0x0110) && ((m & 0x000f) | ((m
        & 0x0070) << 1) | ((m & 0x0f80) << 2) | c) == value) by (bit_vector)
        requires
            m == (value & 0x000f) | ((value & 0x00e0) >> 1) | ((value & 0x3e00) >> 2),
            c == value & 0x0110,
            value < 0x4000,
    ;
}


/// The class of a message together with a method that is known to have no
/// more than twelve bits. Where [`StunTyp`] carries whatever number it was
/// given, the operations of this type ask for a method that can be written.
#[derive(Debug, Clone, Copy, PartialEq, Eq, Structural)]
pub enum StunType {
    Req(u16),
    Ind(u16),
    Res(u16),
    Error(u16),
}

impl StunType {
    /// The same class and method as a [`StunTyp`].
    pub open spec fn typ(&self) -> StunTyp {
        match *self {
            StunType::Req(m) => StunTyp::Req(m),
            StunType::Ind(m) => StunTyp::Ind(m),
            StunType::Res(m) => StunTyp::Res(m),
            StunType::Error(m) => StunTyp::Error(m),
        }
    }

    /// Whether the method fits in twelve bits.
    pub open spec fn wf(&self) -> bool {
        self.typ().spec_method() <= 0xFFF
    }

    /// The method. A value whose method has more than twelve bits has none
    /// that could be handed out.
    pub fn method(&self) -> (r: u16)
        requires
            self.wf(),
        ensures
            r == self.typ().spec_method(),
            r <= 0xFFF,
    {
        match *self {
            StunType::Req(m) => m,
            StunType::Ind(m) => m,
            StunType::Res(m) => m,
            StunType::Error(m) => m,
        }
    }

    /// Whether the method fits in twelve bits, so that [`StunType::method`]
    /// can be asked for it.
    pub fn is_wf(&self) -> (r: bool)
        ensures
            r == self.wf(),
    {
        match *self {
            StunType::Req(m) => m <= 0xFFF,
            StunType::Ind(m) => m <= 0xFFF,
            StunType::Res(m) => m <= 0xFFF,
            StunType::Error(m) => m <= 0xFFF,
        }
    }

    /// Whether this is a success or an error response.
    pub fn is_response(&self) -> (r: bool)
        ensures
            r == (*self is Res || *self is Error),
            r == self.typ().spec_is_response(),
    {
        match *self {
            StunType::Res(_) | StunType::Error(_) => true,
            _ => false,
        }
    }

    /// Reads a type field. Values from `0x4000` up are no STUN type.
    pub fn try_from(value: u16) -> (r: Result<StunType, StunDecodeErr>)
        ensures
            r is Ok <==> value < 0x4000,
            r is Ok ==> r->Ok_0.typ() == typ_of_code(value) && r->Ok_0.wf(),
            r is Err ==> r->Err_0 == StunDecodeErr::TypeOutOfRange,
    {
        match StunTyp::try_from(value) {
            Ok(StunTyp::Req(m)) => Ok(StunType::Req(m)),
            Ok(StunTyp::Ind(m)) => Ok(StunType::Ind(m)),
            Ok(StunTyp::Res(m)) => Ok(StunType::Res(m)),
            Ok(StunTyp::Error(m)) => Ok(StunType::Error(m)),
            Err(e) => Err(e),
        }
    }

    /// The 14-bit type field of this class and method.
    pub fn code(&self) -> (r: u16)
        requires
            self.wf(),
        ensures
            r == self.typ().spec_code(),
            r < 0x4000,
            typ_of_code(r) == self.typ(),
    {
        proof {
            lemma_typ_roundtrip(self.typ());
        }
        self.to_typ().code()
    }

    /// The same class and method as a [`StunTyp`].
    pub fn to_typ(&self) -> (r: StunTyp)
        ensures
            r == self.typ(),
    {
        match *self {
            StunType::Req(m) => StunTyp::Req(m),
            StunType::Ind(m) => StunTyp::Ind(m),
            StunType::Res(m) => StunTyp::Res(m),
            StunType::Error(m) => StunTyp::Error(m),
        }
    }
}

} // verus!

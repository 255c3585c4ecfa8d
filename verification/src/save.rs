//! The boundary to `uesave`: walking the property tree of an Unreal Engine
//! save that `uesave` has read.
//!
//! The read itself (`uesave::SaveReader::read`) is made by the callers of
//! [`crate::parser::parse_save_result`]: it panics on some malformed saves
//! (a UTF-16 string holding an unpaired surrogate, a string length of
//! `i32::MIN`, structures it meets with `unwrap` or `unreachable!`), which no
//! predicate short of uesave's whole format picks out, so no contract here
//! could leave them out, and the library takes its outcome instead.
//!
//! `uesave` keeps a save's properties in an `IndexMap` inside
//! `uesave::Properties`, whose nested values are `Property`, `StructValue` and
//! `ValueVec` values. Verus refuses to declare these types (they are generic
//! over `uesave::ArchiveType` with a default), so each one is held by
//! reference in a private field of a struct of this module. What each holds, as far as this
//! library reads it, is given a name ([`property_entries`], [`property_value`],
//! [`struct_value`], [`array_value`], [`struct_list_items`]); the wrappers say
//! over those names what `uesave`'s data gives back.

use vstd::prelude::*;

verus! {

/// An integer property of any width (`Int8` to `UInt64`, or a plain `Byte`).
#[derive(Debug, Clone, Copy, PartialEq, Eq, Structural)]
pub enum IntValue {
    I8(i8),
    I16(i16),
    I32(i32),
    I64(i64),
    U8(u8),
    U16(u16),
    U32(u32),
    U64(u64),
}

impl IntValue {
    /// The value cast to `i32` (Rust's `as`, which truncates wider values).
    pub open spec fn to_i32_spec(self) -> i32 {
        match self {
            IntValue::I8(v) => v as i32,
            IntValue::I16(v) => v as i32,
            IntValue::I32(v) => v,
            IntValue::I64(v) => v as i32,
            IntValue::U8(v) => v as i32,
            IntValue::U16(v) => v as i32,
            IntValue::U32(v) => v as i32,
            IntValue::U64(v) => v as i32,
        }
    }

    /// The value cast to `i32` (Rust's `as`, which truncates wider values).
    #[verifier::when_used_as_spec(to_i32_spec)]
    pub fn to_i32(self) -> (r: i32)
        ensures
            r == self.to_i32_spec(),
    {
        match self {
            IntValue::I8(v) => v as i32,
            IntValue::I16(v) => v as i32,
            IntValue::I32(v) => v,
            IntValue::I64(v) => v as i32,
            IntValue::U8(v) => v as i32,
            IntValue::U16(v) => v as i32,
            IntValue::U32(v) => v as i32,
            IntValue::U64(v) => v as i32,
        }
    }
}

/// What a property of a save holds, as far as this library reads it.
pub enum PropValue {
    /// A `Str`, `Name` or `Enum` property.
    Text(Seq<char>),
    /// An integer property.
    Int(IntValue),
    /// A `Float` or `Double` property, as the bits of its IEEE-754 value.
    Float(FloatBits),
    /// A `Struct` property.
    Struct(StructModel),
    /// An `Array` property.
    Array(ArrayModel),
    /// Any other property.
    Other,
}

/// The IEEE-754 bit pattern of a single- or double-precision number.
#[derive(Debug, Clone, Copy, PartialEq, Eq, Structural)]
pub enum FloatBits {
    Single(u32),
    Double(u64),
}

/// What a struct value of a save holds, as far as this library reads it.
pub enum StructModel {
    /// A `DateTime` struct: Unreal Engine ticks.
    DateTime(u64),
    /// A `Vector2D` struct: the bits of its `x` and `y` doubles.
    Vector2D(u64, u64),
    /// A user-defined struct: a list of named properties.
    Props(Seq<(Seq<char>, PropValue)>),
    /// Any other struct.
    Other,
}

/// What an array value of a save holds, as far as this library reads it.
pub enum ArrayModel {
    /// An array of structs.
    Structs(Seq<StructModel>),
    /// An array of plain bytes.
    Bytes(Seq<u8>),
    /// Any other array.
    Other,
}

/// A named property list: the name of each property (`PropertyKey.1`) and its value.
pub type Entries = Seq<(Seq<char>, PropValue)>;

/// A save read from bytes by `uesave`.
#[verifier::external_type_specification]
#[verifier::external_body]
pub struct ExSave(uesave::Save);

/// A property list inside a save (`uesave::Properties`).
#[verifier::external_body]
pub struct PropertyList<'a> {
    props: &'a uesave::Properties,
}

/// One property inside a property list (`uesave::Property`).
#[verifier::external_body]
pub struct PropertyRef<'a> {
    prop: &'a uesave::Property,
}

/// A struct value inside a save (`uesave::StructValue`).
#[verifier::external_body]
pub struct StructRef<'a> {
    value: &'a uesave::StructValue,
}

/// An array value inside a save (`uesave::ValueVec`).
#[verifier::external_body]
pub struct ArrayRef<'a> {
    value: &'a uesave::ValueVec,
}

/// The elements of an array of structs (`Vec<uesave::StructValue>`).
#[verifier::external_body]
pub struct StructList<'a> {
    values: &'a Vec<uesave::StructValue>,
}

/// The root property list of a save.
pub uninterp spec fn save_root_entries(s: uesave::Save) -> Entries;

/// The named properties of a property list, in the list's order.
pub uninterp spec fn property_entries(l: PropertyList) -> Entries;

/// What one property holds.
pub uninterp spec fn property_value(p: PropertyRef) -> PropValue;

/// What one struct value holds.
pub uninterp spec fn struct_value(s: StructRef) -> StructModel;

/// What one array value holds.
pub uninterp spec fn array_value(a: ArrayRef) -> ArrayModel;

/// The structs of an array of structs, in order.
pub uninterp spec fn struct_list_items(l: StructList) -> Seq<StructModel>;

impl<'a> View for PropertyList<'a> {
    type V = Entries;

    open spec fn view(&self) -> Entries {
        property_entries(*self)
    }
}

impl<'a> View for PropertyRef<'a> {
    type V = PropValue;

    open spec fn view(&self) -> PropValue {
        property_value(*self)
    }
}

impl<'a> View for StructRef<'a> {
    type V = StructModel;

    open spec fn view(&self) -> StructModel {
        struct_value(*self)
    }
}

impl<'a> View for ArrayRef<'a> {
    type V = ArrayModel;

    open spec fn view(&self) -> ArrayModel {
        array_value(*self)
    }
}

impl<'a> View for StructList<'a> {
    type V = Seq<StructModel>;

    open spec fn view(&self) -> Seq<StructModel> {
        struct_list_items(*self)
    }
}

/// A property, told apart by kind; integers are read with [`PropertyRef::int_value`].
pub enum PropKind<'a> {
    Text(&'a str),
    Float(FloatBits),
    Struct(StructRef<'a>),
    Array(ArrayRef<'a>),
    Other,
}

/// A struct value, told apart by kind.
pub enum StructKind<'a> {
    DateTime(u64),
    Vector2D(u64, u64),
    Props(PropertyList<'a>),
    Other,
}

/// An array value, told apart by kind.
pub enum ArrayKind<'a> {
    Structs(StructList<'a>),
    Bytes(&'a [u8]),
    Other,
}

/// The root property list of a save (`save.root.properties`).
#[verifier::external_body]
pub(crate) fn save_root(save: &uesave::Save) -> (r: PropertyList<'_>)
    ensures
        property_entries(r) == save_root_entries(*save),
{
    PropertyList { props: &save.root.properties }
}

impl<'a> PropertyList<'a> {
    /// Number of properties in the list (`IndexMap::len`).
    #[verifier::external_body]
    pub(crate) fn len(&self) -> (r: usize)
        ensures
            r == self@.len(),
    {
        self.props.0.len()
    }

    /// The name and value of the `i`-th property (`IndexMap::get_index`).
    #[verifier::external_body]
    pub(crate) fn entry(&self, i: usize) -> (r: (&'a str, PropertyRef<'a>))
        requires
            i < self@.len(),
        ensures
            r.0@ == property_entries(*self)[i as int].0,
            property_value(r.1) == property_entries(*self)[i as int].1,
    {
        let (key, prop) = self.props.0.get_index(i).unwrap();
        (key.1.as_str(), PropertyRef { prop })
    }
}

impl<'a> PropertyRef<'a> {
    /// Tells the variants of `uesave::Property` apart: strings (`Str`,
    /// `Name`, `Enum`), floats (`Float`, `Double`, as bits),
    /// `Struct` and `Array`; every other variant, integers included, is `Other`.
    #[verifier::external_body]
    pub(crate) fn kind(&self) -> (r: PropKind<'a>)
        ensures
            self@ is Text <==> r is Text,
            r matches PropKind::Text(s) ==> s@ == self@->Text_0,
            self@ is Float <==> r is Float,
            r matches PropKind::Float(b) ==> b == self@->Float_0,
            self@ is Struct <==> r is Struct,
            r matches PropKind::Struct(s) ==> struct_value(s) == self@->Struct_0,
            self@ is Array <==> r is Array,
            r matches PropKind::Array(a) ==> array_value(a) == self@->Array_0,
    {
        match self.prop {
            uesave::Property::Str(s) | uesave::Property::Name(s) => PropKind::Text(s.as_str()),
            uesave::Property::Enum(s) => PropKind::Text(s.as_str()),
            uesave::Property::Float(v) => PropKind::Float(FloatBits::Single(v.0.to_bits())),
            uesave::Property::Double(v) => PropKind::Float(FloatBits::Double(v.0.to_bits())),
            uesave::Property::Struct(value) => PropKind::Struct(StructRef { value }),
            uesave::Property::Array(value) => PropKind::Array(ArrayRef { value }),
            _ => PropKind::Other,
        }
    }

    /// The integer held by an integer variant of `uesave::Property`
    /// (`Int8` to `UInt64`, or `Byte` holding a plain byte).
    #[verifier::external_body]
    pub(crate) fn int_value(&self) -> (r: Option<IntValue>)
        ensures
            r is Some <==> self@ is Int,
            r matches Some(v) ==> v == self@->Int_0,
    {
        match self.prop {
            uesave::Property::Int8(v) => Some(IntValue::I8(*v)),
            uesave::Property::Int16(v) => Some(IntValue::I16(*v)),
            uesave::Property::Int(v) => Some(IntValue::I32(*v)),
            uesave::Property::Int64(v) => Some(IntValue::I64(*v)),
            uesave::Property::UInt8(v) => Some(IntValue::U8(*v)),
            uesave::Property::UInt16(v) => Some(IntValue::U16(*v)),
            uesave::Property::UInt32(v) => Some(IntValue::U32(*v)),
            uesave::Property::UInt64(v) => Some(IntValue::U64(*v)),
            uesave::Property::Byte(uesave::Byte::Byte(v)) => Some(IntValue::U8(*v)),
            _ => None,
        }
    }
}

impl<'a> StructRef<'a> {
    /// Tells the variants of `uesave::StructValue` apart: `DateTime`,
    /// `Vector2D` (its doubles as bits), `Struct`; every other variant is `Other`.
    #[verifier::external_body]
    pub(crate) fn kind(&self) -> (r: StructKind<'a>)
        ensures
            r matches StructKind::DateTime(t) ==> self@ == StructModel::DateTime(t),
            r matches StructKind::Vector2D(x, y) ==> self@ == StructModel::Vector2D(x, y),
            r matches StructKind::Props(l) ==> self@ == StructModel::Props(property_entries(l)),
            r is Other ==> self@ is Other,
    {
        match self.value {
            uesave::StructValue::DateTime(t) => StructKind::DateTime(*t),
            uesave::StructValue::Vector2D(v) => StructKind::Vector2D(v.x.0.to_bits(), v.y.0.to_bits()),
            uesave::StructValue::Struct(props) => StructKind::Props(PropertyList { props }),
            _ => StructKind::Other,
        }
    }
}

impl<'a> ArrayRef<'a> {
    /// Tells the variants of `uesave::ValueVec` apart: `Struct`, `Byte`
    /// holding plain bytes; every other variant is `Other`.
    #[verifier::external_body]
    pub(crate) fn kind(&self) -> (r: ArrayKind<'a>)
        ensures
            r matches ArrayKind::Structs(l) ==> self@ == ArrayModel::Structs(struct_list_items(l)),
            r matches ArrayKind::Bytes(b) ==> self@ == ArrayModel::Bytes(b@),
            r is Other ==> self@ is Other,
    {
        match self.value {
            uesave::ValueVec::Struct(values) => ArrayKind::Structs(StructList { values }),
            uesave::ValueVec::Byte(uesave::ByteArray::Byte(bytes)) => ArrayKind::Bytes(bytes.as_slice()),
            _ => ArrayKind::Other,
        }
    }
}

impl<'a> StructList<'a> {
    /// Number of structs in the array (`Vec::len`).
    #[verifier::external_body]
    pub(crate) fn len(&self) -> (r: usize)
        ensures
            r == struct_list_items(*self).len(),
    {
        self.values.len()
    }

    /// The `i`-th struct of the array (`Vec` indexing).
    #[verifier::external_body]
    pub(crate) fn get(&self, i: usize) -> (r: StructRef<'a>)
        requires
            i < self@.len(),
        ensures
            struct_value(r) == struct_list_items(*self)[i as int],
    {
        StructRef { value: &self.values[i] }
    }
}

} // verus!

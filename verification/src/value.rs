//! Typed values: the types a flag's value can have, what a value of each is
//! as plain data, how each is read from text, and the cell that holds one
//! value of any of them.

use vstd::prelude::*;
use crate::number::{decimal_within, parse_signed, parse_unsigned};
use crate::text::same_text;

verus! {

/// The integer types.
#[derive(Clone, Copy, Debug, PartialEq, Eq, Structural)]
pub enum IntType {
    I8,
    I16,
    I32,
    I64,
    I128,
    Isize,
    U8,
    U16,
    U32,
    U64,
    U128,
    Usize,
}

impl IntType {
    /// Whether the type has negative values.
    pub open spec fn signed(self) -> bool {
        match self {
            IntType::I8 | IntType::I16 | IntType::I32 | IntType::I64 | IntType::I128
            | IntType::Isize => true,
            _ => false,
        }
    }

    /// The least value of the type.
    pub open spec fn min(self) -> int {
        match self {
            IntType::I8 => i8::MIN as int,
            IntType::I16 => i16::MIN as int,
            IntType::I32 => i32::MIN as int,
            IntType::I64 => i64::MIN as int,
            IntType::I128 => i128::MIN as int,
            IntType::Isize => isize::MIN as int,
            _ => 0,
        }
    }

    /// The greatest value of the type.
    pub open spec fn max(self) -> int {
        match self {
            IntType::I8 => i8::MAX as int,
            IntType::I16 => i16::MAX as int,
            IntType::I32 => i32::MAX as int,
            IntType::I64 => i64::MAX as int,
            IntType::I128 => i128::MAX as int,
            IntType::Isize => isize::MAX as int,
            IntType::U8 => u8::MAX as int,
            IntType::U16 => u16::MAX as int,
            IntType::U32 => u32::MAX as int,
            IntType::U64 => u64::MAX as int,
            IntType::U128 => u128::MAX as int,
            IntType::Usize => usize::MAX as int,
        }
    }
}

/// The type of a stored value.
#[derive(Clone, Copy, Debug, PartialEq, Eq, Structural)]
pub enum Tag {
    Bool,
    Char,
    Int(IntType),
    Text,
}

/// A stored value as plain data: its type and what it holds.
pub enum Datum {
    Bool(bool),
    Char(char),
    Int(IntType, int),
    Text(Seq<char>),
}

impl Datum {
    /// The type of the value.
    pub open spec fn tag(self) -> Tag {
        match self {
            Datum::Bool(_) => Tag::Bool,
            Datum::Char(_) => Tag::Char,
            Datum::Int(t, _) => Tag::Int(t),
            Datum::Text(_) => Tag::Text,
        }
    }
}

/// What `text` stands for as a value of the type `tag`, if anything.
///
/// A `bool` is written `true` or `false`; a `char` is one character; an
/// integer is a decimal number within the type's range; any text is itself
/// as a string.
pub open spec fn read_as(tag: Tag, text: Seq<char>) -> Option<Datum> {
    match tag {
        Tag::Bool => if text == "true"@ {
            Some(Datum::Bool(true))
        } else if text == "false"@ {
            Some(Datum::Bool(false))
        } else {
            None
        },
        Tag::Char => if text.len() == 1 {
            Some(Datum::Char(text[0]))
        } else {
            None
        },
        Tag::Int(t) => match decimal_within(text, t.signed(), t.min(), t.max()) {
            Some(n) => Some(Datum::Int(t, n)),
            None => None,
        },
        Tag::Text => Some(Datum::Text(text)),
    }
}

/// A value of any of the supported types, with its type kept beside it.
#[derive(Debug)]
pub enum Payload {
    Bool(bool),
    Char(char),
    I8(i8),
    I16(i16),
    I32(i32),
    I64(i64),
    I128(i128),
    Isize(isize),
    U8(u8),
    U16(u16),
    U32(u32),
    U64(u64),
    U128(u128),
    Usize(usize),
    Text(String),
}

impl View for Payload {
    type V = Datum;

    open spec fn view(&self) -> Datum {
        match self {
            Payload::Bool(v) => Datum::Bool(*v),
            Payload::Char(v) => Datum::Char(*v),
            Payload::I8(v) => Datum::Int(IntType::I8, *v as int),
            Payload::I16(v) => Datum::Int(IntType::I16, *v as int),
            Payload::I32(v) => Datum::Int(IntType::I32, *v as int),
            Payload::I64(v) => Datum::Int(IntType::I64, *v as int),
            Payload::I128(v) => Datum::Int(IntType::I128, *v as int),
            Payload::Isize(v) => Datum::Int(IntType::Isize, *v as int),
            Payload::U8(v) => Datum::Int(IntType::U8, *v as int),
            Payload::U16(v) => Datum::Int(IntType::U16, *v as int),
            Payload::U32(v) => Datum::Int(IntType::U32, *v as int),
            Payload::U64(v) => Datum::Int(IntType::U64, *v as int),
            Payload::U128(v) => Datum::Int(IntType::U128, *v as int),
            Payload::Usize(v) => Datum::Int(IntType::Usize, *v as int),
            Payload::Text(v) => Datum::Text(v@),
        }
    }
}

/// A type whose values a flag can have.
pub trait MagicType: Sized {
    /// The tag that stands for this type.
    spec fn tag() -> Tag;

    /// The value as plain data.
    spec fn datum(&self) -> Datum;

    /// A value's data carries the tag of the value's type.
    proof fn lemma_tag(&self)
        ensures
            self.datum().tag() == Self::tag(),
    ;

    /// Reads a value of this type from `text`.
    fn parse(text: &str) -> (r: Option<Self>)
        ensures
            match r {
                Some(v) => read_as(Self::tag(), text@) == Some(v.datum()),
                None => read_as(Self::tag(), text@) is None,
            },
    ;

    /// Puts the value beside its type.
    fn store(self) -> (p: Payload)
        ensures
            p@ == self.datum(),
    ;

    /// Hands the value back if `p` holds one of this type.
    fn recover(p: &Payload) -> (r: Option<&Self>)
        ensures
            match r {
                Some(v) => v.datum() == p@,
                None => p@.tag() != Self::tag(),
            },
    ;
}

impl MagicType for bool {
    open spec fn tag() -> Tag {
        Tag::Bool
    }

    open spec fn datum(&self) -> Datum {
        Datum::Bool(*self)
    }

    proof fn lemma_tag(&self) {
    }

    fn parse(text: &str) -> (r: Option<Self>) {
        proof {
            reveal_strlit("true");
            reveal_strlit("false");
        }
        if same_text(text, "true") {
            Some(true)
        } else if same_text(text, "false") {
            Some(false)
        } else {
            None
        }
    }

    fn store(self) -> (p: Payload) {
        Payload::Bool(self)
    }

    fn recover(p: &Payload) -> (r: Option<&Self>) {
        match p {
            Payload::Bool(v) => Some(v),
            _ => None,
        }
    }
}

impl MagicType for char {
    open spec fn tag() -> Tag {
        Tag::Char
    }

    open spec fn datum(&self) -> Datum {
        Datum::Char(*self)
    }

    proof fn lemma_tag(&self) {
    }

    fn parse(text: &str) -> (r: Option<Self>) {
        if text.unicode_len() == 1 {
            Some(text.get_char(0))
        } else {
            None
        }
    }

    fn store(self) -> (p: Payload) {
        Payload::Char(self)
    }

    fn recover(p: &Payload) -> (r: Option<&Self>) {
        match p {
            Payload::Char(v) => Some(v),
            _ => None,
        }
    }
}

impl MagicType for String {
    open spec fn tag() -> Tag {
        Tag::Text
    }

    open spec fn datum(&self) -> Datum {
        Datum::Text(self@)
    }

    proof fn lemma_tag(&self) {
    }

    fn parse(text: &str) -> (r: Option<Self>) {
        Some(text.to_owned())
    }

    fn store(self) -> (p: Payload) {
        Payload::Text(self)
    }

    fn recover(p: &Payload) -> (r: Option<&Self>) {
        match p {
            Payload::Text(v) => Some(v),
            _ => None,
        }
    }
}

impl MagicType for i8 {
    open spec fn tag() -> Tag {
        Tag::Int(IntType::I8)
    }

    open spec fn datum(&self) -> Datum {
        Datum::Int(IntType::I8, *self as int)
    }

    proof fn lemma_tag(&self) {
    }

    fn parse(text: &str) -> (r: Option<Self>) {
        match parse_signed(text, i8::MIN as i128, i8::MAX as i128) {
            Some(n) => Some(n as i8),
            None => None,
        }
    }

    fn store(self) -> (p: Payload) {
        Payload::I8(self)
    }

    fn recover(p: &Payload) -> (r: Option<&Self>) {
        match p {
            Payload::I8(v) => Some(v),
            _ => None,
        }
    }
}

impl MagicType for i16 {
    open spec fn tag() -> Tag {
        Tag::Int(IntType::I16)
    }

    open spec fn datum(&self) -> Datum {
        Datum::Int(IntType::I16, *self as int)
    }

    proof fn lemma_tag(&self) {
    }

    fn parse(text: &str) -> (r: Option<Self>) {
        match parse_signed(text, i16::MIN as i128, i16::MAX as i128) {
            Some(n) => Some(n as i16),
            None => None,
        }
    }

    fn store(self) -> (p: Payload) {
        Payload::I16(self)
    }

    fn recover(p: &Payload) -> (r: Option<&Self>) {
        match p {
            Payload::I16(v) => Some(v),
            _ => None,
        }
    }
}

impl MagicType for i32 {
    open spec fn tag() -> Tag {
        Tag::Int(IntType::I32)
    }

    open spec fn datum(&self) -> Datum {
        Datum::Int(IntType::I32, *self as int)
    }

    proof fn lemma_tag(&self) {
    }

    fn parse(text: &str) -> (r: Option<Self>) {
        match parse_signed(text, i32::MIN as i128, i32::MAX as i128) {
            Some(n) => Some(n as i32),
            None => None,
        }
    }

    fn store(self) -> (p: Payload) {
        Payload::I32(self)
    }

    fn recover(p: &Payload) -> (r: Option<&Self>) {
        match p {
            Payload::I32(v) => Some(v),
            _ => None,
        }
    }
}

impl MagicType for i64 {
    open spec fn tag() -> Tag {
        Tag::Int(IntType::I64)
    }

    open spec fn datum(&self) -> Datum {
        Datum::Int(IntType::I64, *self as int)
    }

    proof fn lemma_tag(&self) {
    }

    fn parse(text: &str) -> (r: Option<Self>) {
        match parse_signed(text, i64::MIN as i128, i64::MAX as i128) {
            Some(n) => Some(n as i64),
            None => None,
        }
    }

    fn store(self) -> (p: Payload) {
        Payload::I64(self)
    }

    fn recover(p: &Payload) -> (r: Option<&Self>) {
        match p {
            Payload::I64(v) => Some(v),
            _ => None,
        }
    }
}

impl MagicType for i128 {
    open spec fn tag() -> Tag {
        Tag::Int(IntType::I128)
    }

    open spec fn datum(&self) -> Datum {
        Datum::Int(IntType::I128, *self as int)
    }

    proof fn lemma_tag(&self) {
    }

    fn parse(text: &str) -> (r: Option<Self>) {
        match parse_signed(text, i128::MIN, i128::MAX) {
            Some(n) => Some(n),
            None => None,
        }
    }

    fn store(self) -> (p: Payload) {
        Payload::I128(self)
    }

    fn recover(p: &Payload) -> (r: Option<&Self>) {
        match p {
            Payload::I128(v) => Some(v),
            _ => None,
        }
    }
}

impl MagicType for isize {
    open spec fn tag() -> Tag {
        Tag::Int(IntType::Isize)
    }

    open spec fn datum(&self) -> Datum {
        Datum::Int(IntType::Isize, *self as int)
    }

    proof fn lemma_tag(&self) {
    }

    fn parse(text: &str) -> (r: Option<Self>) {
        match parse_signed(text, isize::MIN as i128, isize::MAX as i128) {
            Some(n) => Some(n as isize),
            None => None,
        }
    }

    fn store(self) -> (p: Payload) {
        Payload::Isize(self)
    }

    fn recover(p: &Payload) -> (r: Option<&Self>) {
        match p {
            Payload::Isize(v) => Some(v),
            _ => None,
        }
    }
}

impl MagicType for u8 {
    open spec fn tag() -> Tag {
        Tag::Int(IntType::U8)
    }

    open spec fn datum(&self) -> Datum {
        Datum::Int(IntType::U8, *self as int)
    }

    proof fn lemma_tag(&self) {
    }

    fn parse(text: &str) -> (r: Option<Self>) {
        match parse_unsigned(text, u8::MAX as u128) {
            Some(n) => Some(n as u8),
            None => None,
        }
    }

    fn store(self) -> (p: Payload) {
        Payload::U8(self)
    }

    fn recover(p: &Payload) -> (r: Option<&Self>) {
        match p {
            Payload::U8(v) => Some(v),
            _ => None,
        }
    }
}

impl MagicType for u16 {
    open spec fn tag() -> Tag {
        Tag::Int(IntType::U16)
    }

    open spec fn datum(&self) -> Datum {
        Datum::Int(IntType::U16, *self as int)
    }

    proof fn lemma_tag(&self) {
    }

    fn parse(text: &str) -> (r: Option<Self>) {
        match parse_unsigned(text, u16::MAX as u128) {
            Some(n) => Some(n as u16),
            None => None,
        }
    }

    fn store(self) -> (p: Payload) {
        Payload::U16(self)
    }

    fn recover(p: &Payload) -> (r: Option<&Self>) {
        match p {
            Payload::U16(v) => Some(v),
            _ => None,
        }
    }
}

impl MagicType for u32 {
    open spec fn tag() -> Tag {
        Tag::Int(IntType::U32)
    }

    open spec fn datum(&self) -> Datum {
        Datum::Int(IntType::U32, *self as int)
    }

    proof fn lemma_tag(&self) {
    }

    fn parse(text: &str) -> (r: Option<Self>) {
        match parse_unsigned(text, u32::MAX as u128) {
            Some(n) => Some(n as u32),
            None => None,
        }
    }

    fn store(self) -> (p: Payload) {
        Payload::U32(self)
    }

    fn recover(p: &Payload) -> (r: Option<&Self>) {
        match p {
            Payload::U32(v) => Some(v),
            _ => None,
        }
    }
}

impl MagicType for u64 {
    open spec fn tag() -> Tag {
        Tag::Int(IntType::U64)
    }

    open spec fn datum(&self) -> Datum {
        Datum::Int(IntType::U64, *self as int)
    }

    proof fn lemma_tag(&self) {
    }

    fn parse(text: &str) -> (r: Option<Self>) {
        match parse_unsigned(text, u64::MAX as u128) {
            Some(n) => Some(n as u64),
            None => None,
        }
    }

    fn store(self) -> (p: Payload) {
        Payload::U64(self)
    }

    fn recover(p: &Payload) -> (r: Option<&Self>) {
        match p {
            Payload::U64(v) => Some(v),
            _ => None,
        }
    }
}

impl MagicType for u128 {
    open spec fn tag() -> Tag {
        Tag::Int(IntType::U128)
    }

    open spec fn datum(&self) -> Datum {
        Datum::Int(IntType::U128, *self as int)
    }

    proof fn lemma_tag(&self) {
    }

    fn parse(text: &str) -> (r: Option<Self>) {
        match parse_unsigned(text, u128::MAX) {
            Some(n) => Some(n),
            None => None,
        }
    }

    fn store(self) -> (p: Payload) {
        Payload::U128(self)
    }

    fn recover(p: &Payload) -> (r: Option<&Self>) {
        match p {
            Payload::U128(v) => Some(v),
            _ => None,
        }
    }
}

impl MagicType for usize {
    open spec fn tag() -> Tag {
        Tag::Int(IntType::Usize)
    }

    open spec fn datum(&self) -> Datum {
        Datum::Int(IntType::Usize, *self as int)
    }

    proof fn lemma_tag(&self) {
    }

    fn parse(text: &str) -> (r: Option<Self>) {
        match parse_unsigned(text, usize::MAX as u128) {
            Some(n) => Some(n as usize),
            None => None,
        }
    }

    fn store(self) -> (p: Payload) {
        Payload::Usize(self)
    }

    fn recover(p: &Payload) -> (r: Option<&Self>) {
        match p {
            Payload::Usize(v) => Some(v),
            _ => None,
        }
    }
}

/// A cell that holds one value of a type chosen when it is filled, or
/// nothing. The value is handed back only to a reader that names that type.
#[derive(Debug)]
pub enum MagicValue {
    VALUE(Payload),
    NONE,
}

impl View for MagicValue {
    type V = Option<Datum>;

    open spec fn view(&self) -> Option<Datum> {
        match self {
            MagicValue::VALUE(p) => Some(p@),
            MagicValue::NONE => None,
        }
    }
}

impl MagicValue {
    /// Whether the cell holds a value of the type `tag`.
    pub open spec fn holds(&self, tag: Tag) -> bool {
        self@ matches Some(d) && d.tag() == tag
    }

    /// Fills a cell with `value`.
    pub fn store<T: MagicType>(value: T) -> (cell: MagicValue)
        ensures
            cell@ == Some(value.datum()),
            cell.holds(T::tag()),
    {
        proof {
            value.lemma_tag();
        }
        MagicValue::VALUE(value.store())
    }

    /// The value in the cell, if the cell holds one of type `T`.
    pub fn opt_unwrap<T: MagicType>(&self) -> (r: Option<&T>)
        ensures
            match r {
                Some(v) => self@ == Some(v.datum()) && self.holds(T::tag()),
                None => !self.holds(T::tag()),
            },
    {
        if let MagicValue::VALUE(p) = self {
            let r = T::recover(p);
            proof {
                if let Some(v) = r {
                    v.lemma_tag();
                }
            }
            return r;
        }
        None
    }

    /// The value in the cell, which must hold one of type `T`.
    pub fn unwrap<T: MagicType>(&self) -> (r: &T)
        requires
            self.holds(T::tag()),
        ensures
            self@ == Some(r.datum()),
    {
        match self.opt_unwrap::<T>() {
            Some(v) => v,
            None => vstd::pervasive::unreached(),
        }
    }
}

} // verus!

//! The identification record of a panel.
//!
//! Every panel carries a small EEPROM that says what it is. The record is at
//! least 29 bytes long:
//!
//! - bytes 0 and 1: the width in pixels, low byte first
//! - bytes 2 and 3: the height in pixels, low byte first
//! - byte 4: the colors that the panel can show
//! - byte 5: the variant of the board
//! - byte 6: the variant of the display
//! - from byte 7 on: the time at which the record was written, as a string
//!   behind a length byte, and padding bytes of value 255

use chrono::{Datelike, NaiveDateTime, Timelike};
use vstd::prelude::*;

verus! {

/// The bus on which every panel answers.
pub const INKY_BUS: u8 = 1;

/// The least number of bytes of a record.
pub const RECORD_LEN: usize = 29;

/// The byte that fills the unused end of a record.
pub const PADDING: u8 = 255;

/// The bytes that ask the EEPROM for its record.
pub const QUERY: [u8; 2] = [0x00, 0x00];

/// How long to wait after an answer that was no record, in milliseconds.
pub const RETRY_DELAY_MILLIS: u64 = 100;

/// Why bytes are no length-prefixed string.
#[derive(Debug, Clone, Copy, PartialEq, Eq, Structural)]
pub enum StringError {
    /// There is no byte at all, so not even a length byte.
    Empty,
}

/// Why bytes are no identification record.
#[derive(Debug, Clone, Copy, PartialEq, Eq, Structural)]
pub enum DecodeError {
    /// There are fewer bytes than a record has; the number of them.
    TooShort(usize),
    /// The byte of the colors stands for none.
    InvalidColor(u8),
    /// The byte of the board's variant stands for none.
    InvalidPcbVariant(u8),
    /// The byte of the display's variant stands for none.
    InvalidDisplayVariant(u8),
}

/// The mathematical value of a length-prefixed string.
pub struct PascalStringView {
    pub capacity: u8,
    pub data: Seq<u8>,
}

/// The number of data bytes that a capacity leaves room for beside the
/// length byte. A capacity of zero leaves none, as a capacity of one does.
pub open spec fn room(capacity: u8) -> int {
    if capacity >= 1 {
        capacity - 1
    } else {
        0
    }
}

impl PascalStringView {
    /// The data fits in the room that the capacity leaves beside the length
    /// byte.
    pub open spec fn wf(self) -> bool {
        self.data.len() <= room(self.capacity)
    }

    /// The string without capacity and without data.
    pub open spec fn blank() -> PascalStringView {
        PascalStringView { capacity: 0, data: Seq::empty() }
    }

    /// The string that a record holds behind its other fields: what is left
    /// of those bytes when the padding is taken out, read as a string, and
    /// the blank string where nothing is left. Whatever the bytes are, they
    /// hold a string.
    pub open spec fn written(tail: Seq<u8>) -> PascalStringView {
        match PascalStringView::parse(strip_padding(tail)) {
            Ok(string) => string,
            Err(_) => PascalStringView::blank(),
        }
    }

    /// The bytes of the string: its capacity, then its data.
    pub open spec fn bytes(self) -> Seq<u8> {
        seq![self.capacity] + self.data
    }

    /// The string that bytes hold. The first byte is the capacity; the data
    /// is what follows it, cut to the room that the capacity leaves. However
    /// many bytes follow, they are never too many, and behind a capacity of
    /// zero none of them is kept.
    pub open spec fn parse(bytes: Seq<u8>) -> Result<PascalStringView, StringError> {
        if bytes.len() == 0 {
            Err(StringError::Empty)
        } else {
            Ok(
                PascalStringView {
                    capacity: bytes[0],
                    data: truncated(bytes.skip(1), room(bytes[0])),
                },
            )
        }
    }
}

/// A string behind a length byte, as the record holds the time of writing.
#[derive(Debug, Clone, PartialEq, Eq)]
pub struct PascalString {
    capacity: u8,
    data: Vec<u8>,
}

impl View for PascalString {
    type V = PascalStringView;

    closed spec fn view(&self) -> PascalStringView {
        PascalStringView { capacity: self.capacity, data: self.data@ }
    }
}

/// The first bytes of a sequence, as many as a limit allows.
pub open spec fn truncated(bytes: Seq<u8>, limit: int) -> Seq<u8> {
    if bytes.len() <= limit {
        bytes
    } else {
        bytes.take(limit)
    }
}

impl PascalString {
    /// An empty string of a capacity, which counts the length byte.
    pub fn with_capacity(capacity: u8) -> (string: PascalString)
        ensures
            string@.wf(),
            string@.capacity == capacity,
            string@.data == Seq::<u8>::empty(),
    {
        PascalString { capacity, data: Vec::new() }
    }

    /// The capacity of the string, which counts the length byte.
    pub fn capacity(&self) -> (capacity: u8)
        ensures
            capacity == self@.capacity,
    {
        self.capacity
    }

    /// The data of the string, without the length byte.
    pub fn data(&self) -> (data: Vec<u8>)
        ensures
            data@ == self@.data,
    {
        self.data.clone()
    }

    /// Makes room for a number of data bytes. Data beyond that number is
    /// dropped.
    pub fn set_capacity(&mut self, capacity: usize)
        requires
            capacity < u8::MAX,
        ensures
            final(self)@.wf(),
            final(self)@.capacity == capacity + 1,
            final(self)@.data == truncated(old(self)@.data, capacity as int),
    {
        self.capacity = (capacity + 1) as u8;
        if self.data.len() > capacity {
            self.data.truncate(capacity);
        }
    }

    /// Replaces the data of the string by the first of the bytes given, as
    /// many as the capacity leaves room for.
    pub fn set_data(&mut self, data: &[u8])
        ensures
            final(self)@.wf(),
            final(self)@.capacity == old(self)@.capacity,
            final(self)@.data == truncated(data@, room(old(self)@.capacity)),
    {
        let limit: usize = if self.capacity >= 1 {
            (self.capacity - 1) as usize
        } else {
            0
        };
        self.data.clear();
        let mut index: usize = 0;
        while index < data.len() && index < limit
            invariant
                self.capacity == old(self).capacity,
                limit == room(self.capacity),
                index <= data@.len(),
                index <= limit,
                self.data@ == data@.take(index as int),
            decreases data@.len() - index,
        {
            self.data.push(data[index]);
            index = index + 1;
            assert(self.data@ =~= data@.take(index as int));
        }
        assert(data@.take(data@.len() as int) =~= data@);
    }

    /// Reads a string from bytes: the first byte is the capacity, and the
    /// data is what follows it, cut to the room that the capacity leaves
    /// beside the length byte. Bytes beyond that are dropped, not refused.
    /// Only where there is no byte at all is there no string.
    pub fn try_from(value: &[u8]) -> (result: Result<PascalString, StringError>)
        ensures
            match result {
                Ok(string) => PascalStringView::parse(value@) == Ok::<
                    PascalStringView,
                    StringError,
                >(string@) && string@.wf(),
                Err(error) => PascalStringView::parse(value@) == Err::<
                    PascalStringView,
                    StringError,
                >(error),
            },
    {
        let len: usize = value.len();
        if len == 0 {
            return Err(StringError::Empty);
        }
        let capacity: u8 = value[0];
        let mut string = PascalString::with_capacity(capacity);
        let limit: usize = if capacity >= 1 {
            (capacity - 1) as usize
        } else {
            0
        };
        let ghost rest = value@.skip(1);
        let mut index: usize = 0;
        while index < limit && index + 1 < len
            invariant
                len == value@.len(),
                rest == value@.skip(1),
                limit == room(capacity),
                index <= limit,
                index + 1 <= len,
                string@.capacity == capacity,
                string.data@ == rest.take(index as int),
            decreases limit - index,
        {
            string.data.push(value[index + 1]);
            index = index + 1;
            assert(string.data@ =~= rest.take(index as int));
        }
        assert(rest.take(rest.len() as int) =~= rest);
        Ok(string)
    }

    /// The bytes of the string: its capacity, then its data.
    pub fn to_bytes(&self) -> (bytes: Vec<u8>)
        ensures
            bytes@ == self@.bytes(),
    {
        let mut bytes: Vec<u8> = Vec::new();
        bytes.push(self.capacity);
        let mut index: usize = 0;
        while index < self.data.len()
            invariant
                index <= self.data@.len(),
                bytes@ == seq![self.capacity] + self.data@.take(index as int),
            decreases self.data@.len() - index,
        {
            bytes.push(self.data[index]);
            index = index + 1;
            assert(bytes@ =~= seq![self.capacity] + self.data@.take(index as int));
        }
        assert(self.data@.take(self.data@.len() as int) =~= self.data@);
        bytes
    }
}

/// The colors that a panel can show.
#[derive(Debug, Clone, Copy, PartialEq, Eq, Structural)]
pub enum Color {
    Black,
    Red,
    Yellow,
    SevenColor,
}

impl Color {
    /// The byte that stands for the colors in a record.
    pub open spec fn code(self) -> u8 {
        match self {
            Color::Black => 1,
            Color::Red => 2,
            Color::Yellow => 3,
            Color::SevenColor => 5,
        }
    }

    /// The colors that a byte stands for, if it stands for any.
    pub open spec fn from_code(value: u8) -> Option<Color> {
        if value == 1 {
            Some(Color::Black)
        } else if value == 2 {
            Some(Color::Red)
        } else if value == 3 {
            Some(Color::Yellow)
        } else if value == 5 {
            Some(Color::SevenColor)
        } else {
            None
        }
    }

    /// Converts the colors to their byte.
    pub fn to_u8(&self) -> (value: u8)
        ensures
            value == self.code(),
    {
        match self {
            Color::Black => 1,
            Color::Red => 2,
            Color::Yellow => 3,
            Color::SevenColor => 5,
        }
    }

    /// Converts a byte of a record to the colors that it stands for. A byte
    /// that stands for none is an error, and is handed back in it.
    pub fn try_from(value: u8) -> (result: Result<Color, DecodeError>)
        ensures
            result == match Color::from_code(value) {
                Some(color) => Ok::<Color, DecodeError>(color),
                None => Err(DecodeError::InvalidColor(value)),
            },
    {
        match value {
            1 => Ok(Color::Black),
            2 => Ok(Color::Red),
            3 => Ok(Color::Yellow),
            5 => Ok(Color::SevenColor),
            _ => Err(DecodeError::InvalidColor(value)),
        }
    }

    /// The colors are found again from their byte.
    pub proof fn lemma_code_round_trip(color: Color)
        ensures
            Color::from_code(color.code()) == Some(color),
    {
    }

    /// A byte that stands for colors is the byte of those colors.
    pub proof fn lemma_from_code_sound(value: u8, color: Color)
        requires
            Color::from_code(value) == Some(color),
        ensures
            color.code() == value,
    {
    }
}

/// The variant of the board. There is one so far.
#[derive(Debug, Clone, Copy, PartialEq, Eq, Structural)]
pub enum PcbVariant {
    V1,
}

impl PcbVariant {
    /// The byte that stands for the variant in a record.
    pub open spec fn code(self) -> u8 {
        match self {
            PcbVariant::V1 => 12,
        }
    }

    /// The variant that a byte stands for, if it stands for one.
    pub open spec fn from_code(value: u8) -> Option<PcbVariant> {
        if value == 12 {
            Some(PcbVariant::V1)
        } else {
            None
        }
    }

    /// Converts the variant to its byte.
    pub fn to_u8(&self) -> (value: u8)
        ensures
            value == self.code(),
    {
        match self {
            PcbVariant::V1 => 12,
        }
    }

    /// Converts a byte of a record to the variant that it stands for. A byte
    /// that stands for none is an error, and is handed back in it.
    pub fn try_from(value: u8) -> (result: Result<PcbVariant, DecodeError>)
        ensures
            result == match PcbVariant::from_code(value) {
                Some(variant) => Ok::<PcbVariant, DecodeError>(variant),
                None => Err(DecodeError::InvalidPcbVariant(value)),
            },
    {
        match value {
            12 => Ok(PcbVariant::V1),
            _ => Err(DecodeError::InvalidPcbVariant(value)),
        }
    }

    /// The variant is found again from its byte.
    pub proof fn lemma_code_round_trip(variant: PcbVariant)
        ensures
            PcbVariant::from_code(variant.code()) == Some(variant),
    {
    }

    /// A byte that stands for a variant is the byte of that variant.
    pub proof fn lemma_from_code_sound(value: u8, variant: PcbVariant)
        requires
            PcbVariant::from_code(value) == Some(variant),
        ensures
            variant.code() == value,
    {
    }
}

/// The family of the display's controller. Several bytes of a record stand
/// for one family.
#[allow(non_camel_case_types)]
#[derive(Debug, Clone, Copy, PartialEq, Eq, Structural)]
pub enum DisplayVariant {
    Phat,
    PhatSsd1608,
    What,
    Uc8159_600x448,
    Uc8159_640x400,
    WhatSsd1683,
    Ac073Tc1A,
}

impl DisplayVariant {
    /// The byte that a record is written with for the family: the least of
    /// those that stand for it.
    pub open spec fn code(self) -> u8 {
        match self {
            DisplayVariant::Phat => 1,
            DisplayVariant::PhatSsd1608 => 10,
            DisplayVariant::What => 2,
            DisplayVariant::Uc8159_600x448 => 14,
            DisplayVariant::Uc8159_640x400 => 15,
            DisplayVariant::WhatSsd1683 => 17,
            DisplayVariant::Ac073Tc1A => 20,
        }
    }

    /// The family that a byte stands for, if it stands for one.
    pub open spec fn from_code(value: u8) -> Option<DisplayVariant> {
        if value == 1 || value == 4 || value == 5 {
            Some(DisplayVariant::Phat)
        } else if value == 10 || value == 11 || value == 12 {
            Some(DisplayVariant::PhatSsd1608)
        } else if value == 2 || value == 3 || value == 6 || value == 7 || value == 8 {
            Some(DisplayVariant::What)
        } else if value == 14 {
            Some(DisplayVariant::Uc8159_600x448)
        } else if value == 15 || value == 16 {
            Some(DisplayVariant::Uc8159_640x400)
        } else if value == 17 || value == 18 || value == 19 {
            Some(DisplayVariant::WhatSsd1683)
        } else if value == 20 {
            Some(DisplayVariant::Ac073Tc1A)
        } else {
            None
        }
    }

    /// Converts the family to the byte that a record is written with.
    pub fn to_u8(&self) -> (value: u8)
        ensures
            value == self.code(),
    {
        match self {
            DisplayVariant::Phat => 1,
            DisplayVariant::PhatSsd1608 => 10,
            DisplayVariant::What => 2,
            DisplayVariant::Uc8159_600x448 => 14,
            DisplayVariant::Uc8159_640x400 => 15,
            DisplayVariant::WhatSsd1683 => 17,
            DisplayVariant::Ac073Tc1A => 20,
        }
    }

    /// Converts a byte of a record to the family that it stands for. A byte
    /// that stands for none is an error, and is handed back in it.
    pub fn try_from(value: u8) -> (result: Result<DisplayVariant, DecodeError>)
        ensures
            result == match DisplayVariant::from_code(value) {
                Some(variant) => Ok::<DisplayVariant, DecodeError>(variant),
                None => Err(DecodeError::InvalidDisplayVariant(value)),
            },
    {
        match value {
            1 | 4 | 5 => Ok(DisplayVariant::Phat),
            10 | 11 | 12 => Ok(DisplayVariant::PhatSsd1608),
            2 | 3 | 6 | 7 | 8 => Ok(DisplayVariant::What),
            14 => Ok(DisplayVariant::Uc8159_600x448),
            15 | 16 => Ok(DisplayVariant::Uc8159_640x400),
            17 | 18 | 19 => Ok(DisplayVariant::WhatSsd1683),
            20 => Ok(DisplayVariant::Ac073Tc1A),
            _ => Err(DecodeError::InvalidDisplayVariant(value)),
        }
    }

    /// The family is found again from the byte that it is written with.
    pub proof fn lemma_code_round_trip(variant: DisplayVariant)
        ensures
            DisplayVariant::from_code(variant.code()) == Some(variant),
    {
    }
}

/// The mathematical value of an identification record.
pub struct EEPROMView {
    pub width: u16,
    pub height: u16,
    pub color: Color,
    pub pcb_variant: PcbVariant,
    pub display_variant: DisplayVariant,
    pub write_time: PascalStringView,
}

/// The bytes that are left when the padding is taken out.
pub open spec fn strip_padding(bytes: Seq<u8>) -> Seq<u8> {
    bytes.filter(|byte: u8| byte != PADDING)
}

/// The number that two bytes hold, the low byte first.
pub open spec fn word(low: u8, high: u8) -> u16 {
    (low + 256 * high) as u16
}

/// A run of padding bytes.
pub open spec fn padding(count: int) -> Seq<u8> {
    Seq::new(
        if count > 0 {
            count as nat
        } else {
            0
        },
        |index: int| PADDING,
    )
}

impl EEPROMView {
    /// The time of writing is a string in order.
    pub open spec fn wf(self) -> bool {
        self.write_time.wf()
    }

    /// The record that bytes hold, or why they hold none. The first fault
    /// found decides: the length, the colors, the board, the display. What
    /// the bytes of the time of writing are never makes them hold none.
    pub open spec fn decode(bytes: Seq<u8>) -> Result<EEPROMView, DecodeError> {
        if bytes.len() < RECORD_LEN {
            Err(DecodeError::TooShort(bytes.len() as usize))
        } else {
            match Color::from_code(bytes[4]) {
                None => Err(DecodeError::InvalidColor(bytes[4])),
                Some(color) => match PcbVariant::from_code(bytes[5]) {
                    None => Err(DecodeError::InvalidPcbVariant(bytes[5])),
                    Some(pcb_variant) => match DisplayVariant::from_code(bytes[6]) {
                        None => Err(DecodeError::InvalidDisplayVariant(bytes[6])),
                        Some(display_variant) => Ok(
                            EEPROMView {
                                width: word(bytes[0], bytes[1]),
                                height: word(bytes[2], bytes[3]),
                                color,
                                pcb_variant,
                                display_variant,
                                write_time: PascalStringView::written(bytes.skip(7)),
                            },
                        ),
                    },
                },
            }
        }
    }

    /// The fields of the record as bytes, without padding.
    pub open spec fn fields(self) -> Seq<u8> {
        seq![
            (self.width % 256) as u8,
            (self.width / 256) as u8,
            (self.height % 256) as u8,
            (self.height / 256) as u8,
            self.color.code(),
            self.pcb_variant.code(),
            self.display_variant.code(),
        ] + self.write_time.bytes()
    }

    /// The record as bytes: its fields, then padding up to the length of a
    /// record.
    pub open spec fn encode(self) -> Seq<u8> {
        self.fields() + padding(RECORD_LEN - self.fields().len())
    }
}

/// What a panel's EEPROM says of it.
#[derive(Debug, Clone, PartialEq, Eq)]
pub struct EEPROM {
    width: u16,
    height: u16,
    color: Color,
    pcb_variant: PcbVariant,
    display_variant: DisplayVariant,
    eeprom_write_time: PascalString,
}

impl View for EEPROM {
    type V = EEPROMView;

    closed spec fn view(&self) -> EEPROMView {
        EEPROMView {
            width: self.width,
            height: self.height,
            color: self.color,
            pcb_variant: self.pcb_variant,
            display_variant: self.display_variant,
            write_time: self.eeprom_write_time@,
        }
    }
}

/// Copies the bytes from a place on that are no padding.
fn without_padding(bytes: &[u8], start: usize) -> (kept: Vec<u8>)
    requires
        start <= bytes@.len(),
    ensures
        kept@ == strip_padding(bytes@.skip(start as int)),
{
    let mut kept: Vec<u8> = Vec::new();
    let mut index: usize = start;
    let ghost tail = bytes@.skip(start as int);
    proof {
        reveal(Seq::filter);
    }
    while index < bytes.len()
        invariant
            start <= index <= bytes@.len(),
            tail == bytes@.skip(start as int),
            kept@ == strip_padding(tail.take(index - start)),
        decreases bytes@.len() - index,
    {
        let byte: u8 = bytes[index];
        proof {
            reveal(Seq::filter);
            let longer = tail.take(index - start + 1);
            assert(longer.drop_last() =~= tail.take(index - start));
            assert(longer.last() == byte);
        }
        if byte != PADDING {
            kept.push(byte);
        }
        index = index + 1;
    }
    assert(tail.take(tail.len() as int) =~= tail);
    kept
}

impl EEPROM {
    /// The address at which the EEPROM answers on its bus.
    pub const ADDRESS: u16 = 0x50;

    /// The number of times that the record is asked for before giving up.
    pub const DEFAULT_TRIES: usize = 10;

    /// Decodes a record from the bytes that were read from the EEPROM. Too
    /// few bytes are no record, nor are bytes in which the colors, the board
    /// or the display has a byte that stands for none. The time of writing
    /// is taken as it comes: whether it can be read is found when it is asked
    /// for.
    pub fn try_from(value: &[u8]) -> (result: Result<EEPROM, DecodeError>)
        ensures
            match result {
                Ok(eeprom) => EEPROMView::decode(value@) == Ok::<EEPROMView, DecodeError>(eeprom@)
                    && eeprom@.wf(),
                Err(error) => EEPROMView::decode(value@) == Err::<EEPROMView, DecodeError>(error),
            },
    {
        if value.len() < RECORD_LEN {
            return Err(DecodeError::TooShort(value.len()));
        }
        let width: u16 = value[0] as u16 + 256 * (value[1] as u16);
        let height: u16 = value[2] as u16 + 256 * (value[3] as u16);
        let color = match Color::try_from(value[4]) {
            Ok(color) => color,
            Err(error) => {
                return Err(error);
            },
        };
        let pcb_variant = match PcbVariant::try_from(value[5]) {
            Ok(variant) => variant,
            Err(error) => {
                return Err(error);
            },
        };
        let display_variant = match DisplayVariant::try_from(value[6]) {
            Ok(variant) => variant,
            Err(error) => {
                return Err(error);
            },
        };
        let write_time_bytes = without_padding(value, 7);
        let eeprom_write_time = match PascalString::try_from(write_time_bytes.as_slice()) {
            Ok(string) => string,
            Err(_) => PascalString::with_capacity(0),
        };
        Ok(EEPROM { width, height, color, pcb_variant, display_variant, eeprom_write_time })
    }

    /// Encodes the record as bytes, padded to the length of a record.
    pub fn to_bytes(&self) -> (bytes: Vec<u8>)
        ensures
            bytes@ == self@.encode(),
    {
        let mut bytes: Vec<u8> = Vec::new();
        bytes.push((self.width % 256) as u8);
        bytes.push((self.width / 256) as u8);
        bytes.push((self.height % 256) as u8);
        bytes.push((self.height / 256) as u8);
        bytes.push(self.color.to_u8());
        bytes.push(self.pcb_variant.to_u8());
        bytes.push(self.display_variant.to_u8());
        let mut write_time = self.eeprom_write_time.to_bytes();
        bytes.append(&mut write_time);
        assert(bytes@ =~= self@.fields());
        while bytes.len() < RECORD_LEN
            invariant
                bytes@.len() >= self@.fields().len(),
                bytes@.len() <= RECORD_LEN || bytes@.len() == self@.fields().len(),
                bytes@ =~= self@.fields() + padding(bytes@.len() - self@.fields().len()),
            decreases RECORD_LEN - bytes@.len(),
        {
            bytes.push(PADDING);
        }
        assert(bytes@ =~= self@.encode());
        bytes
    }

    /// The width of the display in pixels.
    pub fn width(&self) -> (width: u16)
        ensures
            width == self@.width,
    {
        self.width
    }

    /// The height of the display in pixels.
    pub fn height(&self) -> (height: u16)
        ensures
            height == self@.height,
    {
        self.height
    }

    /// The colors that the display can show.
    pub fn color(&self) -> (color: Color)
        ensures
            color == self@.color,
    {
        self.color
    }

    /// The variant of the board.
    pub fn pcb_variant(&self) -> (variant: PcbVariant)
        ensures
            variant == self@.pcb_variant,
    {
        self.pcb_variant
    }

    /// The family of the display's controller.
    pub fn display_variant(&self) -> (variant: DisplayVariant)
        ensures
            variant == self@.display_variant,
    {
        self.display_variant
    }

    /// The time of writing, as the record holds it.
    pub fn write_time_string(&self) -> (string: &PascalString)
        ensures
            string@ == self@.write_time,
    {
        &self.eeprom_write_time
    }
}

/// A date and a time of day, without a time zone.
#[derive(Debug, Clone, Copy, PartialEq, Eq, Structural)]
pub struct WriteTime {
    pub year: i32,
    pub month: u32,
    pub day: u32,
    pub hour: u32,
    pub minute: u32,
    pub second: u32,
    pub nanosecond: u32,
}

/// The time of writing is no date and time of the form
/// `YYYY-MM-DD HH:MM:SS.f`.
#[derive(Debug, Clone, Copy, PartialEq, Eq, Structural)]
pub struct TimestampError;

/// The text that `String::from_utf8_lossy` makes of bytes.
pub uninterp spec fn lossy_text(bytes: Seq<u8>) -> Seq<char>;

/// The format in which a record holds its time of writing: the date, a
/// space, the time of day, a point and the fraction of the second.
pub const WRITE_TIME_FORMAT: &'static str = "%Y-%m-%d %H:%M:%S%.f";

/// The date and time that `NaiveDateTime::parse_from_str` reads from a text
/// in a format, if it reads one.
pub uninterp spec fn parsed_time(text: Seq<char>, format: Seq<char>) -> Option<WriteTime>;

/// Calls `String::from_utf8_lossy` of the standard library, which reads
/// bytes as UTF-8 and puts a replacement character where they are none. The
/// contract only names what it returns.
#[verifier::external_body]
fn text_of(bytes: &[u8]) -> (text: String)
    ensures
        text@ == lossy_text(bytes@),
{
    String::from_utf8_lossy(bytes).into_owned()
}

/// Calls `NaiveDateTime::parse_from_str` of chrono with a text and a format
/// and hands the fields of the date and time out, or nothing where chrono
/// reports an error, as it does for a format that it does not know. The
/// contract only names what comes back: it depends on the text and the
/// format alone.
#[verifier::external_body]
fn parse_time(text: &str, format: &str) -> (time: Option<WriteTime>)
    ensures
        time == parsed_time(text@, format@),
{
    match NaiveDateTime::parse_from_str(text, format) {
        Ok(time) => Some(
            WriteTime {
                year: time.year(),
                month: time.month(),
                day: time.day(),
                hour: time.hour(),
                minute: time.minute(),
                second: time.second(),
                nanosecond: time.nanosecond(),
            },
        ),
        Err(_) => None,
    }
}

impl WriteTime {
    /// The time of writing that a reading of its text gives: the date and
    /// time that was read, or an error where none was.
    pub open spec fn of_parsed(parsed: Option<WriteTime>) -> Result<WriteTime, TimestampError> {
        match parsed {
            Some(time) => Ok(time),
            None => Err(TimestampError),
        }
    }

    /// Turns a reading of the text into the time of writing, or into an
    /// error where nothing was read.
    pub fn from_parsed(parsed: Option<WriteTime>) -> (result: Result<WriteTime, TimestampError>)
        ensures
            result == WriteTime::of_parsed(parsed),
    {
        match parsed {
            Some(time) => Ok(time),
            None => Err(TimestampError),
        }
    }
}

impl EEPROM {
    /// The time at which the record was written: what the data of its
    /// string, taken as text, holds in the format of the time of writing.
    /// The record stays as good as it is where its time of writing cannot be
    /// read.
    pub fn eeprom_write_time(&self) -> (result: Result<WriteTime, TimestampError>)
        ensures
            result == WriteTime::of_parsed(
                parsed_time(lossy_text(self@.write_time.data), WRITE_TIME_FORMAT@),
            ),
    {
        let text = text_of(self.eeprom_write_time.data.as_slice());
        WriteTime::from_parsed(parse_time(text.as_str(), WRITE_TIME_FORMAT))
    }
}

/// The mathematical value of a reading of the EEPROM: how often the record
/// may be asked for, and how often it was.
pub struct ProbeView {
    pub max_tries: nat,
    pub tries: nat,
}

/// A reading of the EEPROM in progress. The chip now and then answers with
/// garbage, so the record is asked for again until an answer decodes or the
/// tries are used up.
#[derive(Debug, Clone, Copy, PartialEq, Eq)]
pub struct Probe {
    max_tries: usize,
    tries: usize,
}

impl View for Probe {
    type V = ProbeView;

    closed spec fn view(&self) -> ProbeView {
        ProbeView { max_tries: self.max_tries as nat, tries: self.tries as nat }
    }
}

/// What the reader of the EEPROM has to do next.
#[derive(Debug, Clone, PartialEq, Eq)]
pub enum ProbeStep {
    /// Write the query to the EEPROM and read a record from it.
    Query,
    /// Wait, then query again; with the fault of the last answer.
    Retry(DecodeError),
    /// The record was read.
    Done(EEPROM),
    /// The tries are used up; with their number and the fault of the last
    /// answer, if there was an answer.
    GiveUp(usize, Option<DecodeError>),
}

impl ProbeView {
    /// Whether the record may be asked for once more.
    pub open spec fn open(self) -> bool {
        self.tries < self.max_tries
    }

    /// The reading after one more answer.
    pub open spec fn answered(self) -> ProbeView {
        if self.open() {
            ProbeView { max_tries: self.max_tries, tries: self.tries + 1 }
        } else {
            self
        }
    }
}

impl Probe {
    /// The first step of the reading: a query, unless there is no try.
    pub fn start(&self) -> (step: ProbeStep)
        ensures
            self@.open() ==> step == ProbeStep::Query,
            !self@.open() ==> step == ProbeStep::GiveUp(self@.tries as usize, None),
    {
        if self.tries < self.max_tries {
            ProbeStep::Query
        } else {
            ProbeStep::GiveUp(self.tries, None)
        }
    }

    /// The number of answers so far.
    pub fn tries(&self) -> (tries: usize)
        ensures
            tries == self@.tries,
    {
        self.tries
    }

    /// The number of answers after which the reading gives up.
    pub fn max_tries(&self) -> (max_tries: usize)
        ensures
            max_tries == self@.max_tries,
    {
        self.max_tries
    }

    /// Takes the bytes that the EEPROM answered a query with, all that were
    /// read, and says what to do next. An answer that decodes ends the
    /// reading with its record. Any other answer, a short one too, is
    /// followed by a wait and another query while tries are left, and by
    /// giving up when they are used up.
    pub fn answer(&mut self, bytes: &[u8]) -> (step: ProbeStep)
        ensures
            final(self)@ == old(self)@.answered(),
            !old(self)@.open() ==> step == ProbeStep::GiveUp(old(self)@.tries as usize, None),
            old(self)@.open() ==> match EEPROMView::decode(bytes@) {
                Ok(record) => step matches ProbeStep::Done(eeprom) && eeprom@ == record
                    && eeprom@.wf(),
                Err(error) => if final(self)@.open() {
                    step == ProbeStep::Retry(error)
                } else {
                    step == ProbeStep::GiveUp(final(self)@.tries as usize, Some(error))
                },
            },
    {
        if self.tries >= self.max_tries {
            return ProbeStep::GiveUp(self.tries, None);
        }
        self.tries = self.tries + 1;
        match EEPROM::try_from(bytes) {
            Ok(eeprom) => ProbeStep::Done(eeprom),
            Err(error) => {
                if self.tries < self.max_tries {
                    ProbeStep::Retry(error)
                } else {
                    ProbeStep::GiveUp(self.tries, Some(error))
                }
            },
        }
    }
}

impl EEPROM {
    /// A reading of the EEPROM that asks for the record as often as is
    /// usual.
    pub fn try_new() -> (probe: Probe)
        ensures
            probe@ == (ProbeView { max_tries: EEPROM::DEFAULT_TRIES as nat, tries: 0 }),
    {
        EEPROM::try_new_tries(EEPROM::DEFAULT_TRIES)
    }

    /// A reading of the EEPROM that asks for the record a number of times at
    /// most.
    pub fn try_new_tries(max_tries: usize) -> (probe: Probe)
        ensures
            probe@ == (ProbeView { max_tries: max_tries as nat, tries: 0 }),
    {
        Probe { max_tries, tries: 0 }
    }
}

/// Nothing is left of padding when the padding is taken out.
pub proof fn lemma_strip_padding_of_padding(count: int)
    ensures
        strip_padding(padding(count)) == Seq::<u8>::empty(),
    decreases count,
{
    reveal(Seq::filter);
    if count > 0 {
        lemma_strip_padding_of_padding(count - 1);
        assert(padding(count).drop_last() =~= padding(count - 1));
    }
}

/// Bytes that hold no padding stay as they are when the padding is taken
/// out.
pub proof fn lemma_strip_padding_keeps(bytes: Seq<u8>)
    requires
        forall|index: int| 0 <= index < bytes.len() ==> bytes[index] != PADDING,
    ensures
        strip_padding(bytes) == bytes,
    decreases bytes.len(),
{
    reveal(Seq::filter);
    if bytes.len() > 0 {
        lemma_strip_padding_keeps(bytes.drop_last());
        assert(bytes.drop_last().push(bytes.last()) =~= bytes);
    }
}

/// No padding is left when the padding is taken out.
pub proof fn lemma_strip_padding_clean(bytes: Seq<u8>)
    ensures
        forall|index: int|
            0 <= index < strip_padding(bytes).len() ==> strip_padding(bytes)[index] != PADDING,
        strip_padding(bytes).len() <= bytes.len(),
{
    let kept = strip_padding(bytes);
    bytes.lemma_filter_len(|byte: u8| byte != PADDING);
    assert forall|index: int| 0 <= index < kept.len() implies kept[index] != PADDING by {
        bytes.lemma_filter_pred(|byte: u8| byte != PADDING, index);
    }
}

impl EEPROMView {
    /// The record is one that bytes can hold: its time of writing is a
    /// string in order, and neither its capacity nor a byte of its data is
    /// the padding byte.
    pub open spec fn canonical(self) -> bool {
        &&& self.write_time.wf()
        &&& self.write_time.capacity != PADDING
        &&& forall|index: int|
            0 <= index < self.write_time.data.len() ==> self.write_time.data[index] != PADDING
    }

    /// Every record that is decoded from bytes is one that bytes can hold.
    pub proof fn lemma_decoded_canonical(bytes: Seq<u8>, record: EEPROMView)
        requires
            EEPROMView::decode(bytes) == Ok::<EEPROMView, DecodeError>(record),
        ensures
            record.canonical(),
            record.wf(),
    {
        lemma_strip_padding_clean(bytes.skip(7));
    }

    /// Behind the seven bytes of the other fields, the bytes that a record
    /// is encoded to hold its time of writing and padding, nothing else.
    pub proof fn lemma_encoded_tail(record: EEPROMView)
        ensures
            record.encode().len() >= RECORD_LEN,
            record.encode().take(7) == record.fields().take(7),
            strip_padding(record.encode().skip(7)) == strip_padding(record.write_time.bytes()),
    {
        let encoded = record.encode();
        let string = record.write_time.bytes();
        let fill = padding(RECORD_LEN - record.fields().len());
        assert(encoded.skip(7) =~= string + fill);
        assert(encoded.take(7) =~= record.fields().take(7));
        Seq::filter_distributes_over_add(string, fill, |byte: u8| byte != PADDING);
        lemma_strip_padding_of_padding(RECORD_LEN - record.fields().len());
        assert(strip_padding(string) + Seq::<u8>::empty() =~= strip_padding(string));
    }

    /// The bytes of a string that holds no padding byte hold none either.
    pub proof fn lemma_string_bytes_clean(string: PascalStringView)
        requires
            string.capacity != PADDING,
            forall|index: int| 0 <= index < string.data.len() ==> string.data[index] != PADDING,
        ensures
            strip_padding(string.bytes()) == string.bytes(),
    {
        let bytes = string.bytes();
        assert forall|index: int| 0 <= index < bytes.len() implies bytes[index] != PADDING by {
            if index > 0 {
                assert(bytes[index] == string.data[index - 1]);
            }
        }
        lemma_strip_padding_keeps(bytes);
    }

    /// A string in order is read again from its bytes.
    pub proof fn lemma_string_parse(string: PascalStringView)
        requires
            string.wf(),
        ensures
            PascalStringView::parse(string.bytes()) == Ok::<PascalStringView, StringError>(
                string,
            ),
    {
        let bytes = string.bytes();
        assert(bytes.len() == string.data.len() + 1);
        assert(bytes[0] == string.capacity);
        assert(bytes.skip(1) =~= string.data);
    }

    /// A string in order that holds no padding byte is the string that a
    /// record holds whose bytes behind the other fields are its bytes.
    pub proof fn lemma_string_round_trip(string: PascalStringView)
        requires
            string.wf(),
            string.capacity != PADDING,
            forall|index: int| 0 <= index < string.data.len() ==> string.data[index] != PADDING,
        ensures
            PascalStringView::written(string.bytes()) == string,
    {
        EEPROMView::lemma_string_bytes_clean(string);
        EEPROMView::lemma_string_parse(string);
    }

    /// The time of writing of a record that bytes can hold is found again
    /// behind the seven bytes of the other fields.
    pub proof fn lemma_encoded_write_time(record: EEPROMView)
        requires
            record.canonical(),
        ensures
            record.encode().len() >= RECORD_LEN,
            record.encode().take(7) == record.fields().take(7),
            PascalStringView::written(record.encode().skip(7)) == record.write_time,
    {
        EEPROMView::lemma_encoded_tail(record);
        EEPROMView::lemma_string_round_trip(record.write_time);
        assert(strip_padding(record.encode().skip(7)) == strip_padding(
            record.write_time.bytes(),
        ));
    }

    /// A record that bytes can hold is decoded again from the bytes that it
    /// is encoded to, and those are as many as a record has at least.
    pub proof fn lemma_encode_decode(record: EEPROMView)
        requires
            record.canonical(),
        ensures
            record.encode().len() >= RECORD_LEN,
            EEPROMView::decode(record.encode()) == Ok::<EEPROMView, DecodeError>(record),
    {
        let encoded = record.encode();
        EEPROMView::lemma_encoded_write_time(record);
        let head = record.fields().take(7);
        assert(encoded[0] == head[0] && encoded[1] == head[1] && encoded[2] == head[2]
            && encoded[3] == head[3] && encoded[4] == head[4] && encoded[5] == head[5]
            && encoded[6] == head[6]);
        assert(encoded[4] == record.color.code());
        assert(encoded[5] == record.pcb_variant.code());
        assert(encoded[6] == record.display_variant.code());
        Color::lemma_code_round_trip(record.color);
        PcbVariant::lemma_code_round_trip(record.pcb_variant);
        DisplayVariant::lemma_code_round_trip(record.display_variant);
        assert(word(encoded[0], encoded[1]) == record.width);
        assert(word(encoded[2], encoded[3]) == record.height);
    }

    /// Decoding, encoding and decoding again gives the record of the first
    /// decoding: between the bytes that were decoded and those that are
    /// encoded nothing differs but padding.
    pub proof fn lemma_decode_round_trip(bytes: Seq<u8>, record: EEPROMView)
        requires
            EEPROMView::decode(bytes) == Ok::<EEPROMView, DecodeError>(record),
        ensures
            EEPROMView::decode(record.encode()) == EEPROMView::decode(bytes),
    {
        EEPROMView::lemma_decoded_canonical(bytes, record);
        EEPROMView::lemma_encode_decode(record);
    }

    /// As many bytes as a record has hold a record exactly when the bytes of
    /// the colors, the board and the display each stand for one. Width and
    /// height are then the first four bytes, the low byte first, and the
    /// bytes of the time of writing have no say in it.
    pub proof fn lemma_decode_succeeds(bytes: Seq<u8>)
        requires
            bytes.len() >= RECORD_LEN,
        ensures
            EEPROMView::decode(bytes) is Ok <==> Color::from_code(bytes[4]) is Some
                && PcbVariant::from_code(bytes[5]) is Some && DisplayVariant::from_code(
                bytes[6],
            ) is Some,
            EEPROMView::decode(bytes) matches Ok(record) ==> record.width == bytes[0] + 256
                * bytes[1] && record.height == bytes[2] + 256 * bytes[3] && record.wf(),
    {
        lemma_strip_padding_clean(bytes.skip(7));
    }

    /// Bytes whose byte of the colors stands for none are no record. Where
    /// the bytes are as many as a record has, that byte is the fault.
    pub proof fn lemma_decode_rejects_color(bytes: Seq<u8>)
        requires
            bytes.len() > 4,
            !(bytes[4] == 1 || bytes[4] == 2 || bytes[4] == 3 || bytes[4] == 5),
        ensures
            EEPROMView::decode(bytes) is Err,
            bytes.len() >= RECORD_LEN ==> EEPROMView::decode(bytes) == Err::<
                EEPROMView,
                DecodeError,
            >(DecodeError::InvalidColor(bytes[4])),
    {
    }
}

} // verus!

//! The values that the functions take and give: data types, scalars, and arrays of
//! strings or binaries held as offsets into one byte buffer, as arrow lays them out.

use vstd::prelude::*;
use vstd::utf8::encode_utf8;

verus! {

/// The data types that `encode` and `decode` tell apart; every other type is `Other`.
#[derive(Clone, Copy, Debug, PartialEq, Eq, Structural)]
pub enum DataType {
    Null,
    Utf8,
    LargeUtf8,
    Utf8View,
    Binary,
    LargeBinary,
    Other,
}

/// A single value.
#[derive(Debug)]
pub enum ScalarValue {
    Utf8(Option<String>),
    LargeUtf8(Option<String>),
    Utf8View(Option<String>),
    Binary(Option<Vec<u8>>),
    LargeBinary(Option<Vec<u8>>),
    /// A dictionary-encoded value: what matters here is the value it stands for.
    Dictionary(Box<ScalarValue>),
    /// A value of any other type.
    Other,
}

/// A value that is either one scalar or a whole array of values.
/// For an array of strings or binaries the `ByteArray` holds its contents (the bytes of
/// each string); for an array of another type only its `DataType` matters.
#[derive(Debug)]
pub enum ColumnarValue {
    Array(DataType, ByteArray),
    Scalar(ScalarValue),
}

/// The width of the offsets of a string or binary array: `i32` for `Utf8` and `Binary`,
/// `i64` for `LargeUtf8` and `LargeBinary`.
#[derive(Clone, Copy, Debug, PartialEq, Eq, Structural)]
pub enum OffsetSize {
    I32,
    I64,
}

/// The string type with offsets of this width.
pub open spec fn string_type(o: OffsetSize) -> DataType {
    match o {
        OffsetSize::I32 => DataType::Utf8,
        OffsetSize::I64 => DataType::LargeUtf8,
    }
}

/// The binary type with offsets of this width.
pub open spec fn binary_type(o: OffsetSize) -> DataType {
    match o {
        OffsetSize::I32 => DataType::Binary,
        OffsetSize::I64 => DataType::LargeBinary,
    }
}

/// The text of an optional string slice.
pub open spec fn opt_str_text(o: Option<&str>) -> Option<Seq<char>> {
    match o {
        Some(t) => Some(t@),
        None => None,
    }
}

/// The text of an optional string.
pub open spec fn opt_string_text(o: Option<String>) -> Option<Seq<char>> {
    match o {
        Some(t) => Some(t@),
        None => None,
    }
}

impl ScalarValue {
    /// The logical string a scalar holds: `Some(Some(text))` for a string, `Some(None)` for a
    /// null string, `None` for a value of another type; a dictionary value stands for the
    /// value it wraps.
    pub open spec fn spec_try_as_str(self) -> Option<Option<Seq<char>>>
        decreases self,
    {
        match self {
            ScalarValue::Utf8(o) => Some(opt_string_text(o)),
            ScalarValue::LargeUtf8(o) => Some(opt_string_text(o)),
            ScalarValue::Utf8View(o) => Some(opt_string_text(o)),
            ScalarValue::Dictionary(v) => (*v).spec_try_as_str(),
            _ => None,
        }
    }

    /// The logical string this scalar holds, where it holds one.
    pub fn try_as_str(&self) -> (r: Option<Option<&str>>)
        ensures
            match r {
                Some(o) => self.spec_try_as_str() == Some(opt_str_text(o)),
                None => self.spec_try_as_str() is None,
            },
        decreases self,
    {
        let v = match self {
            ScalarValue::Utf8(v) => v,
            ScalarValue::LargeUtf8(v) => v,
            ScalarValue::Utf8View(v) => v,
            ScalarValue::Dictionary(v) => return v.try_as_str(),
            _ => return None,
        };
        match v {
            Some(t) => Some(Some(t.as_str())),
            None => Some(None),
        }
    }

    /// The bytes of a string or binary scalar (the UTF-8 bytes of a string), or `None` for
    /// a scalar of another type.
    pub open spec fn spec_bytes_of(self) -> Option<Option<Seq<u8>>> {
        match self {
            ScalarValue::Utf8(o) => Some(opt_text_bytes(o)),
            ScalarValue::LargeUtf8(o) => Some(opt_text_bytes(o)),
            ScalarValue::Utf8View(o) => Some(opt_text_bytes(o)),
            ScalarValue::Binary(o) => Some(opt_vec_bytes(o)),
            ScalarValue::LargeBinary(o) => Some(opt_vec_bytes(o)),
            _ => None,
        }
    }

    /// Whether the scalar has one of the types with 64-bit offsets.
    pub open spec fn is_large(self) -> bool {
        self is LargeUtf8 || self is LargeBinary
    }

    /// The data type of the scalar.
    pub open spec fn spec_data_type(self) -> DataType {
        match self {
            ScalarValue::Utf8(_) => DataType::Utf8,
            ScalarValue::LargeUtf8(_) => DataType::LargeUtf8,
            ScalarValue::Utf8View(_) => DataType::Utf8View,
            ScalarValue::Binary(_) => DataType::Binary,
            ScalarValue::LargeBinary(_) => DataType::LargeBinary,
            _ => DataType::Other,
        }
    }
}

impl ColumnarValue {
    /// The data type of the value.
    pub open spec fn spec_data_type(self) -> DataType {
        match self {
            ColumnarValue::Array(t, _) => t,
            ColumnarValue::Scalar(s) => s.spec_data_type(),
        }
    }

    /// The byte strings a string or binary value holds: all those of an array, or the one
    /// of a scalar.
    pub open spec fn spec_contents(self) -> Option<Seq<Option<Seq<u8>>>> {
        match self {
            ColumnarValue::Array(t, a) => if is_byte_type(t) {
                Some(a@)
            } else {
                None
            },
            ColumnarValue::Scalar(s) => match s.spec_bytes_of() {
                Some(b) => Some(seq![b]),
                None => None,
            },
        }
    }
}

/// The string and binary types: their arrays hold one byte string per value.
pub open spec fn is_byte_type(t: DataType) -> bool {
    t == DataType::Utf8 || t == DataType::LargeUtf8 || t == DataType::Utf8View || t
        == DataType::Binary || t == DataType::LargeBinary
}

/// The bytes of an optional byte slice.
pub open spec fn opt_bytes(o: Option<&[u8]>) -> Option<Seq<u8>> {
    match o {
        Some(b) => Some(b@),
        None => None,
    }
}

/// The UTF-8 bytes of an optional string.
pub open spec fn opt_text_bytes(o: Option<String>) -> Option<Seq<u8>> {
    match o {
        Some(s) => Some(encode_utf8(s@)),
        None => None,
    }
}

/// The bytes of an optional byte vector.
pub open spec fn opt_vec_bytes(o: Option<Vec<u8>>) -> Option<Seq<u8>> {
    match o {
        Some(v) => Some(v@),
        None => None,
    }
}

/// The text of a scalar that holds a string: of `Utf8`, or of `LargeUtf8` where `large`.
pub open spec fn utf8_text(s: ScalarValue, large: bool) -> Option<Option<Seq<char>>> {
    match s {
        ScalarValue::Utf8(o) => if large {
            None
        } else {
            Some(
                match o {
                    Some(t) => Some(t@),
                    None => None,
                },
            )
        },
        ScalarValue::LargeUtf8(o) => if large {
            Some(
                match o {
                    Some(t) => Some(t@),
                    None => None,
                },
            )
        } else {
            None
        },
        _ => None,
    }
}

/// The bytes of a scalar that holds binary data: of `Binary`, or of `LargeBinary` where
/// `large`.
pub open spec fn binary_bytes(s: ScalarValue, large: bool) -> Option<Option<Seq<u8>>> {
    match s {
        ScalarValue::Binary(o) => if large {
            None
        } else {
            Some(opt_vec_bytes(o))
        },
        ScalarValue::LargeBinary(o) => if large {
            Some(opt_vec_bytes(o))
        } else {
            None
        },
        _ => None,
    }
}

/// The array as a binary array with offsets of the given width; it fails where the array
/// has another type.
pub fn as_generic_binary_array(data_type: DataType, array: &ByteArray, offsets: OffsetSize) -> (r:
    Result<&ByteArray, crate::error::EncodingError>)
    ensures
        data_type == binary_type(offsets) ==> (r matches Ok(a) && a == array),
        data_type != binary_type(offsets) ==> (r matches Err(e) && e
            == crate::error::EncodingError::CastFailed(binary_type(offsets))),
{
    let expected = match offsets {
        OffsetSize::I32 => DataType::Binary,
        OffsetSize::I64 => DataType::LargeBinary,
    };
    if data_type == expected {
        Ok(array)
    } else {
        Err(crate::error::EncodingError::CastFailed(expected))
    }
}

/// The array as a string array with offsets of the given width; it fails where the array
/// has another type.
pub fn as_generic_string_array(data_type: DataType, array: &ByteArray, offsets: OffsetSize) -> (r:
    Result<&ByteArray, crate::error::EncodingError>)
    ensures
        data_type == string_type(offsets) ==> (r matches Ok(a) && a == array),
        data_type != string_type(offsets) ==> (r matches Err(e) && e
            == crate::error::EncodingError::CastFailed(string_type(offsets))),
{
    let expected = match offsets {
        OffsetSize::I32 => DataType::Utf8,
        OffsetSize::I64 => DataType::LargeUtf8,
    };
    if data_type == expected {
        Ok(array)
    } else {
        Err(crate::error::EncodingError::CastFailed(expected))
    }
}

/// How many bytes an optional value has (none for a null).
pub open spec fn item_len(o: Option<Seq<u8>>) -> int {
    match o {
        Some(b) => b.len() as int,
        None => 0,
    }
}

/// Offsets, value bytes and validity that make a well-formed array: one more offset than
/// values, offsets that never decrease, and a last offset within the value bytes.
pub open spec fn parts_wf(offsets: Seq<usize>, values: Seq<u8>, validity: Seq<bool>) -> bool {
    &&& offsets.len() == validity.len() + 1
    &&& forall|i: int, j: int| 0 <= i <= j < offsets.len() ==> offsets[i] <= offsets[j]
    &&& offsets[offsets.len() - 1] <= values.len()
}

/// The values that offsets, value bytes and validity stand for: value `i` is null where it
/// is not valid, and otherwise the bytes from offset `i` up to offset `i + 1`.
pub open spec fn parts_view(offsets: Seq<usize>, values: Seq<u8>, validity: Seq<bool>) -> Seq<
    Option<Seq<u8>>,
> {
    Seq::new(
        validity.len(),
        |i: int|
            if validity[i] {
                Some(values.subrange(offsets[i] as int, offsets[i + 1] as int))
            } else {
                None
            },
    )
}

/// An array of optional byte strings, laid out as arrow lays out a string or binary array.
#[derive(Debug)]
pub struct ByteArray {
    offsets: Vec<usize>,
    values: Vec<u8>,
    validity: Vec<bool>,
}

impl View for ByteArray {
    type V = Seq<Option<Seq<u8>>>;

    closed spec fn view(&self) -> Seq<Option<Seq<u8>>> {
        parts_view(self.offsets@, self.values@, self.validity@)
    }
}

impl ByteArray {
    #[verifier::type_invariant]
    closed spec fn inv(self) -> bool {
        parts_wf(self.offsets@, self.values@, self.validity@)
    }

    /// The length of the buffer that holds the value bytes.
    pub closed spec fn buffer_len(self) -> int {
        self.values@.len() as int
    }

    /// The buffer holds exactly the bytes of the values, in order from its start, and a
    /// null value takes no bytes.
    pub open spec fn is_compact(self) -> bool {
        &&& self.buffer_len() == self.slots_len(self@.len() as int)
        &&& forall|i: int|
            0 <= i < self@.len() && #[trigger] self@[i] is None ==> self.slots_len(i + 1)
                == self.slots_len(i)
    }

    /// How many buffer bytes the slots before value `i` span.
    pub closed spec fn slots_len(self, i: int) -> int {
        self.offsets@[i] - self.offsets@[0]
    }

    /// Builds an array from its parts, where they are well-formed.
    pub fn try_new(offsets: Vec<usize>, values: Vec<u8>, validity: Vec<bool>) -> (r: Option<Self>)
        ensures
            r is Some <==> parts_wf(offsets@, values@, validity@),
            r matches Some(a) ==> {
                &&& a@ == parts_view(offsets@, values@, validity@)
                &&& a.buffer_len() == values@.len()
                &&& forall|i: int|
                    0 <= i <= validity@.len() ==> #[trigger] a.slots_len(i) == offsets@[i]
                        - offsets@[0]
            },
    {
        if offsets.len() == 0 || offsets.len() - 1 != validity.len()
            || offsets[offsets.len() - 1] > values.len() {
            return None;
        }
        let n = offsets.len();
        let mut k: usize = 1;
        while k < n
            invariant
                1 <= k <= n,
                n == offsets@.len(),
                forall|i: int, j: int| 0 <= i <= j < k ==> offsets@[i] <= offsets@[j],
            decreases n - k,
        {
            if offsets[k - 1] > offsets[k] {
                assert(!parts_wf(offsets@, values@, validity@));
                return None;
            }
            k = k + 1;
        }
        Some(ByteArray { offsets, values, validity })
    }

    /// The offsets, value bytes and validity of the array.
    pub fn into_parts(self) -> (r: (Vec<usize>, Vec<u8>, Vec<bool>))
        ensures
            parts_wf(r.0@, r.1@, r.2@),
            parts_view(r.0@, r.1@, r.2@) == self@,
    {
        proof {
            use_type_invariant(&self);
        }
        (self.offsets, self.values, self.validity)
    }

    /// The number of values.
    pub fn len(&self) -> (n: usize)
        ensures
            n == self@.len(),
            self.slots_len(0) == 0,
            self.slots_len(n as int) <= self.buffer_len(),
    {
        proof {
            use_type_invariant(self);
        }
        self.validity.len()
    }

    /// The length of the buffer that holds the value bytes.
    pub fn value_buffer_len(&self) -> (n: usize)
        ensures
            n == self.buffer_len(),
    {
        self.values.len()
    }

    /// Value `i`, and where it lies among the slots.
    pub fn value(&self, i: usize) -> (r: Option<&[u8]>)
        requires
            i < self@.len(),
        ensures
            opt_bytes(r) == self@[i as int],
            self.slots_len(i as int) + item_len(self@[i as int]) <= self.slots_len(i + 1),
            self.slots_len(i + 1) <= self.slots_len(self@.len() as int),
    {
        proof {
            use_type_invariant(self);
        }
        let n = self.offsets.len();
        assert(i + 1 < n);
        if self.validity[i] {
            let start = self.offsets[i];
            let end = self.offsets[i + 1];
            Some(&self.values.as_slice()[start..end])
        } else {
            None
        }
    }
}

} // verus!

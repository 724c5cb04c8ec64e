//! The two encodings: their names, the text each writes for bytes, and how each turns a
//! scalar into text and back.

use vstd::prelude::*;
use vstd::string::StrSliceExecFns;
use crate::base64_codec::{
    base64_decode_spec, base64_decode_to_vec, base64_encode, base64_encode_spec,
    base64_encoded_len, decoded_len_estimate_spec, lemma_encode_ascii, spec_base64_decode_error,
    spec_base64_decode_slice_error,
};
use crate::data::{binary_bytes, opt_bytes, utf8_text, ColumnarValue, ScalarValue};
use crate::error::EncodingError;
use crate::hex_codec::{
    hex_decode_spec, hex_decode_to_vec, hex_encode, hex_encode_spec, lemma_hex_encode_ascii,
    spec_hex_decode_error, spec_hex_decode_to_slice_error,
};
use crate::text::{ascii_text, is_ascii_bytes};

verus! {

/// A textual representation of binary data.
#[derive(Clone, Copy, Debug, PartialEq, Eq, Structural)]
pub enum Encoding {
    /// Base64 over the standard alphabet, without padding.
    Base64,
    /// Lowercase hexadecimal (either case is read).
    Hex,
}

impl std::str::FromStr for Encoding {
    type Err = EncodingError;

    fn from_str(name: &str) -> (r: Result<Encoding, EncodingError>)
        ensures
            match encoding_named(name@) {
                Some(e) => r == Ok::<Encoding, EncodingError>(e),
                None => r matches Err(EncodingError::UnknownEncoding(n)) && n@ == name@,
            },
    {
        Encoding::from_str(name)
    }
}

/// The encoding that a name stands for.
pub open spec fn encoding_named(name: Seq<char>) -> Option<Encoding> {
    if name == seq!['b', 'a', 's', 'e', '6', '4'] {
        Some(Encoding::Base64)
    } else if name == seq!['h', 'e', 'x'] {
        Some(Encoding::Hex)
    } else {
        None
    }
}

impl Encoding {
    /// The name of the encoding.
    pub open spec fn spec_name(self) -> Seq<char> {
        match self {
            Encoding::Base64 => seq!['b', 'a', 's', 'e', '6', '4'],
            Encoding::Hex => seq!['h', 'e', 'x'],
        }
    }

    /// The text (as ASCII codes) that stands for the bytes `v`.
    pub open spec fn spec_encode(self, v: Seq<u8>) -> Seq<u8> {
        match self {
            Encoding::Base64 => base64_encode_spec(v),
            Encoding::Hex => hex_encode_spec(v),
        }
    }

    /// The bytes that the text `s` stands for, or `None` where it stands for none.
    pub open spec fn spec_decode(self, s: Seq<u8>) -> Option<Seq<u8>> {
        match self {
            Encoding::Base64 => base64_decode_spec(s),
            Encoding::Hex => hex_decode_spec(s),
        }
    }

    /// Whether the text for `n` bytes fits in memory.
    pub open spec fn can_encode(self, n: int) -> bool {
        match self {
            Encoding::Base64 => base64_encoded_len(n) <= isize::MAX,
            Encoding::Hex => 2 * n <= isize::MAX,
        }
    }

    /// The text of an optional value.
    pub open spec fn encode_opt(self, o: Option<Seq<u8>>) -> Option<Seq<char>> {
        match o {
            Some(v) => Some(ascii_text(self.spec_encode(v))),
            None => None,
        }
    }

    /// The bytes of an optional text: `Some(None)` for a null, `Some(Some(bytes))` for a
    /// text that stands for bytes, `None` for one that stands for none.
    pub open spec fn decode_opt(self, o: Option<Seq<u8>>) -> Option<Option<Seq<u8>>> {
        match o {
            Some(s) => match self.spec_decode(s) {
                Some(v) => Some(Some(v)),
                None => None,
            },
            None => Some(None),
        }
    }

    /// The texts of the values of an array.
    pub open spec fn encode_column(self, col: Seq<Option<Seq<u8>>>) -> Seq<Option<Seq<u8>>> {
        Seq::new(
            col.len(),
            |i: int|
                match col[i] {
                    Some(v) => Some(self.spec_encode(v)),
                    None => None,
                },
        )
    }

    /// Whether the text of each value of an array fits in memory.
    pub open spec fn can_encode_column(self, col: Seq<Option<Seq<u8>>>) -> bool {
        forall|i: int|
            0 <= i < col.len() ==> (#[trigger] col[i] matches Some(v) ==> self.can_encode(
                v.len() as int,
            ))
    }

    /// The bytes of the texts of an array, or `None` where some text stands for no bytes.
    pub open spec fn decode_column(self, col: Seq<Option<Seq<u8>>>) -> Option<
        Seq<Option<Seq<u8>>>,
    > {
        if forall|i: int|
            0 <= i < col.len() ==> (#[trigger] col[i] matches Some(s) ==> self.spec_decode(s) is Some) {
            Some(
                Seq::new(
                    col.len(),
                    |i: int|
                        match col[i] {
                            Some(s) => Some(self.spec_decode(s).unwrap()),
                            None => None,
                        },
                ),
            )
        } else {
            None
        }
    }

    /// Whether a buffer of `upper` bytes holds the bytes decoded from texts that span
    /// `buffer_len` bytes in all.
    pub open spec fn bound_suffices(self, buffer_len: int, upper: int) -> bool {
        match self {
            Encoding::Base64 => upper >= decoded_len_estimate_spec(buffer_len),
            Encoding::Hex => upper >= buffer_len / 2,
        }
    }

    /// At most how many bytes texts that span `n` bytes in all decode to.
    pub open spec fn decoded_bound(self, n: int) -> int {
        match self {
            Encoding::Base64 => (3 * n) / 4,
            Encoding::Hex => n / 2,
        }
    }

    /// What decoding `input` into the buffer `before` at its start does: on success the
    /// decoded bytes stand at the start of `after` and the rest is as it was.
    pub open spec fn decoded_into(
        self,
        input: Seq<u8>,
        before: Seq<u8>,
        after: Seq<u8>,
        r: Result<usize, EncodingError>,
    ) -> bool {
        &&& after.len() == before.len()
        &&& match self.spec_decode(input) {
            Some(v) => {
                &&& r == Ok::<usize, EncodingError>(v.len() as usize)
                &&& after.subrange(0, v.len() as int) == v
                &&& after.subrange(v.len() as int, after.len() as int) == before.subrange(
                    v.len() as int,
                    before.len() as int,
                )
            },
            None => r matches Err(e) && e == self.slice_error(input, before.len() as int),
        }
    }

    /// The error that decoding the text `t` of an array value into a buffer with `room`
    /// bytes left fails with: what the codec reports (the hex decoder is always handed a
    /// buffer of half the text's length).
    pub open spec fn slice_error(self, t: Seq<u8>, room: int) -> EncodingError {
        match self {
            Encoding::Base64 => EncodingError::Base64Array(
                spec_base64_decode_slice_error(t, room as nat),
            ),
            Encoding::Hex => EncodingError::HexArray(
                spec_hex_decode_to_slice_error(t, (t.len() / 2) as nat),
            ),
        }
    }

    /// Whether an optional text stands for no bytes.
    pub open spec fn fails(self, o: Option<Seq<u8>>) -> bool {
        o matches Some(t) && self.spec_decode(t) is None
    }

    /// How many bytes the values before value `i` of an array decode to, where none of
    /// them fails.
    pub open spec fn decoded_len_before(self, col: Seq<Option<Seq<u8>>>, i: int) -> int
        decreases i,
    {
        if i <= 0 {
            0
        } else {
            self.decoded_len_before(col, i - 1) + match col[i - 1] {
                Some(t) => self.decoded_bound(t.len() as int),
                None => 0,
            }
        }
    }

    /// The first value of an array that stands for no bytes.
    pub open spec fn first_failure(self, col: Seq<Option<Seq<u8>>>) -> int {
        choose|i: int|
            0 <= i < col.len() && self.fails(#[trigger] col[i]) && forall|j: int|
                0 <= j < i ==> !self.fails(#[trigger] col[j])
    }

    /// The size of the buffer that decoding an array whose value bytes span `buffer_len`
    /// bytes reserves.
    pub open spec fn buffer_bound(self, buffer_len: int) -> int {
        match self {
            Encoding::Base64 => decoded_len_estimate_spec(buffer_len),
            Encoding::Hex => buffer_len / 2,
        }
    }

    /// The error that decoding an array fails with, where its values are decoded in order
    /// into one buffer of `upper` bytes: that of its first value that stands for no bytes,
    /// with the room the values before it left.
    pub open spec fn array_error(self, col: Seq<Option<Seq<u8>>>, upper: int) -> EncodingError {
        let i = self.first_failure(col);
        self.slice_error(col[i].unwrap(), upper - self.decoded_len_before(col, i))
    }

    /// What encoding one optional value into a string scalar gives: a `Utf8` scalar, or a
    /// `LargeUtf8` one where `large`, of its text (null for null).
    pub open spec fn scalar_encoded(self, input: Option<Seq<u8>>, r: ColumnarValue, large: bool) -> bool {
        r matches ColumnarValue::Scalar(s) && utf8_text(s, large) == Some(self.encode_opt(input))
    }

    /// What decoding one optional text into a binary scalar gives: a `Binary` scalar, or a
    /// `LargeBinary` one where `large`, of its bytes (null for null), or the error for a text
    /// that stands for no bytes.
    pub open spec fn scalar_decoded(
        self,
        input: Option<Seq<u8>>,
        r: Result<ColumnarValue, EncodingError>,
        large: bool,
    ) -> bool {
        match self.decode_opt(input) {
            Some(out) => r matches Ok(ColumnarValue::Scalar(s)) && binary_bytes(s, large) == Some(
                out,
            ),
            None => r matches Err(e) && input matches Some(t) && e == self.value_error(t),
        }
    }

    /// The error that decoding the scalar text `t` fails with: what the codec reports.
    pub open spec fn value_error(self, t: Seq<u8>) -> EncodingError {
        match self {
            Encoding::Base64 => EncodingError::Base64Value(spec_base64_decode_error(t)),
            Encoding::Hex => EncodingError::HexValue(spec_hex_decode_error(t)),
        }
    }

    /// The name of the encoding, as shown to users.
    pub fn name(self) -> (r: &'static str)
        ensures
            r@ == self.spec_name(),
    {
        match self {
            Encoding::Base64 => {
                proof {
                    reveal_strlit("base64");
                }
                "base64"
            },
            Encoding::Hex => {
                proof {
                    reveal_strlit("hex");
                }
                "hex"
            },
        }
    }

    /// The encoding that `name` stands for.
    pub fn from_str(name: &str) -> (r: Result<Encoding, EncodingError>)
        ensures
            match encoding_named(name@) {
                Some(e) => r == Ok::<Encoding, EncodingError>(e),
                None => r matches Err(EncodingError::UnknownEncoding(n)) && n@ == name@,
            },
    {
        let n = name.unicode_len();
        if n == 6 && name.get_char(0) == 'b' && name.get_char(1) == 'a' && name.get_char(2) == 's'
            && name.get_char(3) == 'e' && name.get_char(4) == '6' && name.get_char(5) == '4' {
            assert(name@ =~= seq!['b', 'a', 's', 'e', '6', '4']);
            Ok(Encoding::Base64)
        } else if n == 3 && name.get_char(0) == 'h' && name.get_char(1) == 'e' && name.get_char(2)
            == 'x' {
            assert(name@ =~= seq!['h', 'e', 'x']);
            Ok(Encoding::Hex)
        } else {
            proof {
                if name@ == seq!['b', 'a', 's', 'e', '6', '4'] {
                    assert(name@[0] == 'b' && name@[1] == 'a' && name@[2] == 's');
                    assert(name@[3] == 'e' && name@[4] == '6' && name@[5] == '4');
                }
                if name@ == seq!['h', 'e', 'x'] {
                    assert(name@[0] == 'h' && name@[1] == 'e' && name@[2] == 'x');
                }
            }
            Err(EncodingError::UnknownEncoding(name.to_owned()))
        }
    }

    /// The text of `value`.
    pub(crate) fn encode_text(self, value: &[u8]) -> (text: String)
        requires
            self.can_encode(value@.len() as int),
        ensures
            text@ == ascii_text(self.spec_encode(value@)),
            is_ascii_bytes(self.spec_encode(value@)),
    {
        proof {
            lemma_encode_ascii(value@);
            lemma_hex_encode_ascii(value@);
        }
        match self {
            Encoding::Base64 => base64_encode(value),
            Encoding::Hex => hex_encode(value),
        }
    }

    /// Encodes one value into a `Utf8` scalar.
    pub fn encode_scalar(self, value: Option<&[u8]>) -> (r: ColumnarValue)
        requires
            value matches Some(v) ==> self.can_encode(v@.len() as int),
        ensures
            self.scalar_encoded(opt_bytes(value), r, false),
    {
        let text = match value {
            Some(v) => Some(self.encode_text(v)),
            None => None,
        };
        ColumnarValue::Scalar(ScalarValue::Utf8(text))
    }

    /// Encodes one value into a `LargeUtf8` scalar.
    pub fn encode_large_scalar(self, value: Option<&[u8]>) -> (r: ColumnarValue)
        requires
            value matches Some(v) ==> self.can_encode(v@.len() as int),
        ensures
            self.scalar_encoded(opt_bytes(value), r, true),
    {
        let text = match value {
            Some(v) => Some(self.encode_text(v)),
            None => None,
        };
        ColumnarValue::Scalar(ScalarValue::LargeUtf8(text))
    }

    /// The bytes that one text stands for.
    fn decode_value(self, value: &[u8]) -> (r: Result<Vec<u8>, EncodingError>)
        requires
            value@.len() <= isize::MAX,
        ensures
            match self.spec_decode(value@) {
                Some(v) => r matches Ok(out) && out@ == v,
                None => r matches Err(e) && e == self.value_error(value@),
            },
    {
        match self {
            Encoding::Base64 => match base64_decode_to_vec(value) {
                Ok(out) => Ok(out),
                Err(e) => Err(EncodingError::Base64Value(e)),
            },
            Encoding::Hex => match hex_decode_to_vec(value) {
                Ok(out) => Ok(out),
                Err(e) => Err(EncodingError::HexValue(e)),
            },
        }
    }

    /// Decodes one text into a `Binary` scalar.
    pub fn decode_scalar(self, value: Option<&[u8]>) -> (r: Result<ColumnarValue, EncodingError>)
        requires
            value matches Some(v) ==> v@.len() <= isize::MAX,
        ensures
            self.scalar_decoded(opt_bytes(value), r, false),
    {
        let value = match value {
            Some(value) => value,
            None => return Ok(ColumnarValue::Scalar(ScalarValue::Binary(None))),
        };
        let out = self.decode_value(value)?;
        Ok(ColumnarValue::Scalar(ScalarValue::Binary(Some(out))))
    }

    /// Decodes one text into a `LargeBinary` scalar.
    pub fn decode_large_scalar(self, value: Option<&[u8]>) -> (r: Result<
        ColumnarValue,
        EncodingError,
    >)
        requires
            value matches Some(v) ==> v@.len() <= isize::MAX,
        ensures
            self.scalar_decoded(opt_bytes(value), r, true),
    {
        let value = match value {
            Some(value) => value,
            None => return Ok(ColumnarValue::Scalar(ScalarValue::LargeBinary(None))),
        };
        let out = self.decode_value(value)?;
        Ok(ColumnarValue::Scalar(ScalarValue::LargeBinary(Some(out))))
    }

}

} // verus!

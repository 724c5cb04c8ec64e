//! Encoding and decoding whole arrays: every value is encoded into one new array, or every
//! text is decoded into one shared buffer sized in advance from the input's value bytes.

use vstd::prelude::*;
use crate::base64_codec::{
    base64_decode_spec, base64_decode_to_slice, decoded_len_estimate,
    decoded_len_estimate_spec, lemma_encoded_len,
};
use crate::data::{
    as_generic_binary_array, as_generic_string_array, binary_type, parts_view, parts_wf,
    string_type, ByteArray, ColumnarValue, DataType, OffsetSize,
};
use crate::encoding::Encoding;
use crate::error::EncodingError;
use crate::hex_codec::{hex_decode_spec, hex_decode_to_slice};
use crate::text::lemma_ascii_text_bytes;

verus! {

/// Decodes hex text into the start of `buf`, which must have room for half as many bytes
/// as the text has.
fn hex_decode(input: &[u8], buf: &mut [u8]) -> (r: Result<usize, EncodingError>)
    requires
        input@.len() / 2 <= old(buf)@.len(),
    ensures
        Encoding::Hex.decoded_into(input@, old(buf)@, final(buf)@, r),
{
    // only write input / 2 bytes to buf
    let out_len = input.len() / 2;
    let (out, rest) = buf.split_at_mut(out_len);
    let r = hex_decode_to_slice(input, out);
    assert(rest@ == old(buf)@.subrange(out_len as int, old(buf)@.len() as int));
    // the bytes past the decoded ones are untouched
    assert(buf@.subrange(out_len as int, buf@.len() as int) == rest@);
    match r {
        Ok(()) => {
            assert(buf@.subrange(0, out_len as int) == hex_decode_spec(input@).unwrap());
            Ok(out_len)
        },
        Err(e) => Err(EncodingError::HexArray(e)),
    }
}

/// Decodes base64 text into the start of `buf`.
fn base64_decode(input: &[u8], buf: &mut [u8]) -> (r: Result<usize, EncodingError>)
    requires
        base64_decode_spec(input@) matches Some(v) ==> v.len() <= old(buf)@.len(),
    ensures
        Encoding::Base64.decoded_into(input@, old(buf)@, final(buf)@, r),
{
    match base64_decode_to_slice(input, buf) {
        Ok(n) => Ok(n),
        Err(e) => Err(EncodingError::Base64Array(e)),
    }
}

impl Encoding {
    /// Builds the array of the texts of the values of `input`.
    fn encode_to_array(self, input: &ByteArray) -> (out: ByteArray)
        requires
            self.can_encode_column(input@),
        ensures
            out@ == self.encode_column(input@),
            out.is_compact(),
    {
        let n = input.len();
        let mut offsets: Vec<usize> = Vec::new();
        let mut values: Vec<u8> = Vec::new();
        let mut validity: Vec<bool> = Vec::new();
        offsets.push(0);
        let mut i: usize = 0;
        while i < n
            invariant
                n == input@.len(),
                self.can_encode_column(input@),
                i <= n,
                offsets@.len() == i + 1,
                validity@.len() == i,
                offsets@[0] == 0,
                offsets@[i as int] == values@.len(),
                forall|a: int, b: int| 0 <= a <= b <= i ==> offsets@[a] <= offsets@[b],
                forall|j: int| 0 <= j < i && !#[trigger] validity@[j] ==> offsets@[j + 1] == offsets@[j],
                forall|j: int|
                    0 <= j < i ==> #[trigger] parts_view(offsets@, values@, validity@)[j]
                        == self.encode_column(input@)[j],
            decreases n - i,
        {
            let ghost before = parts_view(offsets@, values@, validity@);
            let ghost old_offsets = offsets@;
            let ghost old_values = values@;
            let ghost old_validity = validity@;
            match input.value(i) {
                Some(v) => {
                    assert(input@[i as int] matches Some(x) ==> self.can_encode(x.len() as int));
                    let text = self.encode_text(v);
                    let bytes = text.as_str().as_bytes();
                    proof {
                        lemma_ascii_text_bytes(self.spec_encode(v@));
                    }
                    values.extend_from_slice(bytes);
                    assert(values@ =~= old_values + self.spec_encode(v@));
                    offsets.push(values.len());
                    validity.push(true);
                },
                None => {
                    offsets.push(values.len());
                    validity.push(false);
                },
            }
            proof {
                assert forall|j: int| 0 <= j <= i implies #[trigger] parts_view(
                    offsets@,
                    values@,
                    validity@,
                )[j] == self.encode_column(input@)[j] by {
                    if j < i {
                        assert(before[j] == self.encode_column(input@)[j]);
                        if validity@[j] {
                            assert(offsets@[j + 1] <= old_offsets[i as int]);
                            assert(values@.subrange(offsets@[j] as int, offsets@[j + 1] as int)
                                =~= old_values.subrange(
                                offsets@[j] as int,
                                offsets@[j + 1] as int,
                            ));
                        }
                    } else {
                        if validity@[j] {
                            assert(values@.subrange(offsets@[j] as int, offsets@[j + 1] as int)
                                =~= self.spec_encode(input@[j].unwrap()));
                        }
                    }
                }
            }
            i = i + 1;
        }
        assert(parts_view(offsets@, values@, validity@) =~= self.encode_column(input@));
        let ghost (o, v) = (offsets@, validity@);
        let out = ByteArray::try_new(offsets, values, validity).unwrap();
        proof {
            assert forall|j: int| 0 <= j < out@.len() && #[trigger] out@[j] is None implies out.slots_len(
                j + 1,
            ) == out.slots_len(j) by {
                assert(!v[j]);
                assert(out.slots_len(j) == o[j] - o[0]);
                assert(out.slots_len(j + 1) == o[j + 1] - o[0]);
            }
            assert(out.slots_len(out@.len() as int) == o[out@.len() as int] - o[0]);
        }
        out
    }

    /// Encodes a binary array into a `Utf8` array.
    pub fn encode_binary_array(self, data_type: DataType, value: &ByteArray, offsets: OffsetSize) -> (r: Result<
        ColumnarValue,
        EncodingError,
    >)
        requires
            data_type == binary_type(offsets) ==> self.can_encode_column(value@),
        ensures
            data_type == binary_type(offsets) ==> (r matches Ok(ColumnarValue::Array(t, a)) && t
                == DataType::Utf8 && a@ == self.encode_column(value@) && a.is_compact()),
            data_type != binary_type(offsets) ==> (r matches Err(e) && e == EncodingError::CastFailed(
                binary_type(offsets),
            )),
    {
        let input_value = as_generic_binary_array(data_type, value, offsets)?;
        let array = self.encode_to_array(input_value);
        Ok(ColumnarValue::Array(DataType::Utf8, array))
    }

    /// Encodes a string array into a `Utf8` array.
    pub fn encode_utf8_array(self, data_type: DataType, value: &ByteArray, offsets: OffsetSize) -> (r: Result<
        ColumnarValue,
        EncodingError,
    >)
        requires
            data_type == string_type(offsets) ==> self.can_encode_column(value@),
        ensures
            data_type == string_type(offsets) ==> (r matches Ok(ColumnarValue::Array(t, a)) && t
                == DataType::Utf8 && a@ == self.encode_column(value@) && a.is_compact()),
            data_type != string_type(offsets) ==> (r matches Err(e) && e == EncodingError::CastFailed(
                string_type(offsets),
            )),
    {
        let input_value = as_generic_string_array(data_type, value, offsets)?;
        let array = self.encode_to_array(input_value);
        Ok(ColumnarValue::Array(DataType::Utf8, array))
    }

    /// Decoding texts that span `l` more bytes in a buffer already filled with `total`
    /// bytes stays within the buffer and within the bound for the longer span.
    proof fn lemma_room(self, total: int, s: int, l: int, buffer_len: int, upper: int)
        requires
            0 <= s,
            0 <= l,
            s + l <= buffer_len,
            0 <= total <= self.decoded_bound(s),
            self.bound_suffices(buffer_len, upper),
        ensures
            total + self.decoded_bound(l) <= upper,
            total + self.decoded_bound(l) <= self.decoded_bound(s + l),
    {
        match self {
            Encoding::Base64 => {
                assert((3 * s) / 4 + (3 * l) / 4 <= (3 * (s + l)) / 4) by (nonlinear_arith)
                    requires
                        0 <= s,
                        0 <= l,
                ;
                assert((3 * (s + l)) / 4 <= (3 * buffer_len) / 4) by (nonlinear_arith)
                    requires
                        s + l <= buffer_len,
                ;
                assert((3 * buffer_len) / 4 <= decoded_len_estimate_spec(buffer_len)) by (
                nonlinear_arith)
                    requires
                        0 <= buffer_len,
                ;
            },
            Encoding::Hex => {
                assert(s / 2 + l / 2 <= (s + l) / 2) by (nonlinear_arith)
                    requires
                        0 <= s,
                        0 <= l,
                ;
                assert((s + l) / 2 <= buffer_len / 2) by (nonlinear_arith)
                    requires
                        s + l <= buffer_len,
                ;
            },
        }
    }

    /// The bound grows with the span.
    proof fn lemma_bound_grows(self, a: int, b: int)
        requires
            0 <= a <= b,
        ensures
            self.decoded_bound(a) <= self.decoded_bound(b),
    {
        assert((3 * a) / 4 <= (3 * b) / 4) by (nonlinear_arith)
            requires
                0 <= a <= b,
        ;
        assert(a / 2 <= b / 2) by (nonlinear_arith)
            requires
                0 <= a <= b,
        ;
    }

    /// The bytes that a text stands for are exactly as many as the bound allows.
    proof fn lemma_decoded_len(self, t: Seq<u8>)
        ensures
            self.spec_decode(t) matches Some(v) ==> v.len() == self.decoded_bound(t.len() as int),
    {
        if let Some(v) = self.spec_decode(t) {
            if self == Encoding::Base64 {
                lemma_encoded_len(v);
            }
        }
    }

    /// The first value that fails is the one at `i`, where every value before it decodes.
    proof fn lemma_first_failure(self, col: Seq<Option<Seq<u8>>>, i: int)
        requires
            0 <= i < col.len(),
            self.fails(col[i]),
            forall|j: int| 0 <= j < i ==> !self.fails(#[trigger] col[j]),
        ensures
            self.first_failure(col) == i,
    {
        let w = self.first_failure(col);
        assert(0 <= w < col.len() && self.fails(col[w]) && forall|j: int|
            0 <= j < w ==> !self.fails(#[trigger] col[j]));
        if w < i {
            assert(!self.fails(col[w]));
        } else if w > i {
            assert(!self.fails(col[i]));
        }
    }

    /// Where value `i` is the first that stands for no bytes, decoding the array fails with
    /// its error, given the room that the values before it left.
    proof fn lemma_fails_at(self, col: Seq<Option<Seq<u8>>>, i: int, upper: int)
        requires
            0 <= i < col.len(),
            self.fails(col[i]),
            forall|j: int| 0 <= j < i ==> (#[trigger] col[j] matches Some(t) ==> self.spec_decode(t) is Some),
        ensures
            self.decode_column(col) is None,
            self.array_error(col, upper) == self.slice_error(
                col[i].unwrap(),
                upper - self.decoded_len_before(col, i),
            ),
    {
        assert forall|j: int| 0 <= j < i implies !self.fails(#[trigger] col[j]) by {
            if col[j] is Some {
                assert(self.spec_decode(col[j].unwrap()) is Some);
            }
        }
        self.lemma_first_failure(col, i);
    }

    /// One more value adds the bytes it decodes to.
    proof fn lemma_len_before_step(self, col: Seq<Option<Seq<u8>>>, i: int)
        requires
            0 <= i,
        ensures
            self.decoded_len_before(col, i + 1) == self.decoded_len_before(col, i) + match col[i] {
                Some(t) => self.decoded_bound(t.len() as int),
                None => 0,
            },
    {
    }

    /// Decodes the bytes of one array value into the buffer that holds the bytes of all.
    fn decode_into(self, input: &[u8], buf: &mut [u8]) -> (r: Result<usize, EncodingError>)
        requires
            self.spec_decode(input@) matches Some(v) ==> v.len() <= old(buf)@.len(),
            self == Encoding::Hex ==> input@.len() / 2 <= old(buf)@.len(),
        ensures
            self.decoded_into(input@, old(buf)@, final(buf)@, r),
    {
        match self {
            Encoding::Base64 => base64_decode(input, buf),
            Encoding::Hex => hex_decode(input, buf),
        }
    }

    /// Decodes each value of `input` into one shared buffer of `conservative_upper_bound_size`
    /// bytes, and builds the binary array of the results; it fails on the first value that
    /// stands for no bytes.
    #[verifier::rlimit(60)]
    fn decode_to_array(self, input: &ByteArray, conservative_upper_bound_size: usize) -> (r:
        Result<ByteArray, EncodingError>)
        requires
            self.bound_suffices(input.buffer_len(), conservative_upper_bound_size as int),
        ensures
            match self.decode_column(input@) {
                Some(col) => r matches Ok(a) && a@ == col && a.is_compact(),
                None => r matches Err(e) && e == self.array_error(
                    input@,
                    conservative_upper_bound_size as int,
                ),
            },
    {
        let upper = conservative_upper_bound_size;
        let mut values: Vec<u8> = vec![0u8; upper];
        let mut offsets: Vec<usize> = Vec::new();
        offsets.push(0);
        let mut validity: Vec<bool> = Vec::new();
        let mut total_bytes_decoded: usize = 0;
        let n = input.len();
        let mut i: usize = 0;
        while i < n
            invariant
                n == input@.len(),
                input.slots_len(0) == 0,
                input.slots_len(n as int) <= input.buffer_len(),
                self.bound_suffices(input.buffer_len(), upper as int),
                upper == conservative_upper_bound_size,
                i <= n,
                values@.len() == upper,
                offsets@.len() == i + 1,
                validity@.len() == i,
                offsets@[0] == 0,
                offsets@[i as int] == total_bytes_decoded,
                forall|a: int, b: int| 0 <= a <= b <= i ==> offsets@[a] <= offsets@[b],
                forall|j: int| 0 <= j < i && !#[trigger] validity@[j] ==> offsets@[j + 1] == offsets@[j],
                total_bytes_decoded <= self.decoded_bound(input.slots_len(i as int)),
                total_bytes_decoded == self.decoded_len_before(input@, i as int),
                forall|j: int|
                    0 <= j < i ==> (#[trigger] input@[j] matches Some(t) ==> self.spec_decode(t) is Some),
                forall|j: int|
                    0 <= j < i ==> #[trigger] parts_view(offsets@, values@, validity@)[j] == match input@[j] {
                        Some(t) => Some(self.spec_decode(t).unwrap()),
                        None => None,
                    },
            decreases n - i,
        {
            let ghost before = parts_view(offsets@, values@, validity@);
            let ghost old_offsets = offsets@;
            let ghost old_values = values@;
            let ghost old_validity = validity@;
            let ghost total = total_bytes_decoded as int;
            let ghost s_i = input.slots_len(i as int);
            let item = input.value(i);
            match item {
                Some(v) => {
                    let ghost l = v@.len() as int;
                    proof {
                        self.lemma_room(total, s_i, l, input.buffer_len(), upper as int);
                        self.lemma_bound_grows(s_i + l, input.slots_len(i + 1));
                        if let Some(d) = self.spec_decode(v@) {
                            self.lemma_decoded_len(v@);
                        }
                    }
                    let (_done, cursor) = values.as_mut_slice().split_at_mut(total_bytes_decoded);
                    let ghost room = cursor@.len() as int;
                    assert(room == upper - total);
                    let decoded = match self.decode_into(v, cursor) {
                        Ok(d) => d,
                        Err(e) => {
                            proof {
                                self.lemma_fails_at(input@, i as int, upper as int);
                            }
                            return Err(e);
                        },
                    };
                    proof {
                        self.lemma_decoded_len(v@);
                    }
                    assert(values@.subrange(0, total) =~= old_values.subrange(0, total));
                    assert(values@.subrange(total, total + decoded) =~= self.spec_decode(
                        v@,
                    ).unwrap());
                    proof {
                        self.lemma_len_before_step(input@, i as int);
                    }
                    total_bytes_decoded = total_bytes_decoded + decoded;
                    offsets.push(total_bytes_decoded);
                    validity.push(true);
                },
                None => {
                    proof {
                        self.lemma_len_before_step(input@, i as int);
                    }
                    offsets.push(total_bytes_decoded);
                    validity.push(false);
                    proof {
                        self.lemma_bound_grows(s_i, input.slots_len(i + 1));
                    }
                },
            }
            proof {
                assert forall|j: int| 0 <= j <= i implies #[trigger] parts_view(
                    offsets@,
                    values@,
                    validity@,
                )[j] == match input@[j] {
                    Some(t) => Some(self.spec_decode(t).unwrap()),
                    None => None,
                } by {
                    if j < i {
                        assert(validity@[j] == old_validity[j]);
                        assert(offsets@[j] == old_offsets[j] && offsets@[j + 1] == old_offsets[j + 1]);
                        if validity@[j] {
                            assert(old_offsets[j + 1] <= old_offsets[i as int]);
                            assert(values@.subrange(offsets@[j] as int, offsets@[j + 1] as int)
                                =~= old_values.subrange(
                                offsets@[j] as int,
                                offsets@[j + 1] as int,
                            )) by {
                                assert(values@.subrange(0, total) =~= old_values.subrange(0, total));
                                assert(values@.subrange(offsets@[j] as int, offsets@[j + 1] as int)
                                    =~= values@.subrange(0, total).subrange(
                                    offsets@[j] as int,
                                    offsets@[j + 1] as int,
                                ));
                                assert(old_values.subrange(offsets@[j] as int, offsets@[j + 1] as int)
                                    =~= old_values.subrange(0, total).subrange(
                                    offsets@[j] as int,
                                    offsets@[j + 1] as int,
                                ));
                            }
                        }
                        assert(before[j] == match input@[j] {
                            Some(t) => Some(self.spec_decode(t).unwrap()),
                            None => None,
                        });
                    }
                }
            }
            i = i + 1;
        }
        let ghost full = values@;
        values.truncate(total_bytes_decoded);
        proof {
            assert(parts_wf(offsets@, values@, validity@));
            assert(parts_view(offsets@, values@, validity@) =~= self.decode_column(input@).unwrap())
                by {
                assert forall|j: int| 0 <= j < n implies #[trigger] parts_view(
                    offsets@,
                    values@,
                    validity@,
                )[j] == self.decode_column(input@).unwrap()[j] by {
                    assert(parts_view(offsets@, full, validity@)[j] == match input@[j] {
                        Some(t) => Some(self.spec_decode(t).unwrap()),
                        None => None,
                    });
                    if validity@[j] {
                        assert(offsets@[j + 1] <= total_bytes_decoded);
                        assert(values@.subrange(offsets@[j] as int, offsets@[j + 1] as int)
                            =~= full.subrange(offsets@[j] as int, offsets@[j + 1] as int));
                    }
                }
            }
        }
        let ghost (o, v) = (offsets@, validity@);
        let binary_array = ByteArray::try_new(offsets, values, validity).unwrap();
        proof {
            assert forall|j: int| 0 <= j < binary_array@.len() && #[trigger] binary_array@[j] is None implies binary_array.slots_len(
                j + 1,
            ) == binary_array.slots_len(j) by {
                assert(!v[j]);
                assert(binary_array.slots_len(j) == o[j] - o[0]);
                assert(binary_array.slots_len(j + 1) == o[j + 1] - o[0]);
            }
            assert(binary_array.slots_len(n as int) == o[n as int] - o[0]);
        }
        Ok(binary_array)
    }

    /// Decodes the values of a string or binary array into a binary array.
    fn decode_byte_array(self, input_value: &ByteArray) -> (r: Result<ByteArray, EncodingError>)
        ensures
            match self.decode_column(input_value@) {
                Some(col) => r matches Ok(a) && a@ == col && a.is_compact(),
                None => r matches Err(e) && e == self.array_error(
                    input_value@,
                    self.buffer_bound(input_value.buffer_len()),
                ),
            },
    {
        match self {
            Encoding::Base64 => {
                let upper_bound = decoded_len_estimate(input_value.value_buffer_len());
                self.decode_to_array(input_value, upper_bound)
            },
            Encoding::Hex => {
                // Each pair of hex digits stands for one byte, so half the length of all
                // the value bytes is room enough.
                let upper_bound = input_value.value_buffer_len() / 2;
                self.decode_to_array(input_value, upper_bound)
            },
        }
    }

    /// Decodes a binary array into a `Binary` array.
    pub fn decode_binary_array(self, data_type: DataType, value: &ByteArray, offsets: OffsetSize) -> (r: Result<
        ColumnarValue,
        EncodingError,
    >)
        ensures
            data_type == binary_type(offsets) ==> match self.decode_column(value@) {
                Some(col) => r matches Ok(ColumnarValue::Array(t, a)) && t == DataType::Binary
                    && a@ == col && a.is_compact(),
                None => r matches Err(e) && e == self.array_error(
                    value@,
                    self.buffer_bound(value.buffer_len()),
                ),
            },
            data_type != binary_type(offsets) ==> (r matches Err(e) && e == EncodingError::CastFailed(
                binary_type(offsets),
            )),
    {
        let input_value = as_generic_binary_array(data_type, value, offsets)?;
        let array = self.decode_byte_array(input_value)?;
        Ok(ColumnarValue::Array(DataType::Binary, array))
    }

    /// Decodes a string array into a `Binary` array.
    pub fn decode_utf8_array(self, data_type: DataType, value: &ByteArray, offsets: OffsetSize) -> (r: Result<
        ColumnarValue,
        EncodingError,
    >)
        ensures
            data_type == string_type(offsets) ==> match self.decode_column(value@) {
                Some(col) => r matches Ok(ColumnarValue::Array(t, a)) && t == DataType::Binary
                    && a@ == col && a.is_compact(),
                None => r matches Err(e) && e == self.array_error(
                    value@,
                    self.buffer_bound(value.buffer_len()),
                ),
            },
            data_type != string_type(offsets) ==> (r matches Err(e) && e == EncodingError::CastFailed(
                string_type(offsets),
            )),
    {
        let input_value = as_generic_string_array(data_type, value, offsets)?;
        let array = self.decode_byte_array(input_value)?;
        Ok(ColumnarValue::Array(DataType::Binary, array))
    }

    /// Encodes a string view array into a `Utf8` array, as a `Utf8` array of the same
    /// strings would be.
    pub fn encode_utf8_view_array(self, value: &ByteArray) -> (r: ColumnarValue)
        requires
            self.can_encode_column(value@),
        ensures
            r matches ColumnarValue::Array(t, a) && t == DataType::Utf8 && a@ == self.encode_column(
                value@,
            ) && a.is_compact(),
    {
        ColumnarValue::Array(DataType::Utf8, self.encode_to_array(value))
    }

    /// Decodes a string view array into a `Binary` array, as a `Utf8` array of the same
    /// strings would be.
    pub fn decode_utf8_view_array(self, value: &ByteArray) -> (r: Result<ColumnarValue, EncodingError>)
        ensures
            match self.decode_column(value@) {
                Some(col) => r matches Ok(ColumnarValue::Array(t, a)) && t == DataType::Binary
                    && a@ == col && a.is_compact(),
                None => r matches Err(e) && e == self.array_error(
                    value@,
                    self.buffer_bound(value.buffer_len()),
                ),
            },
    {
        let array = self.decode_byte_array(value)?;
        Ok(ColumnarValue::Array(DataType::Binary, array))
    }
}

} // verus!

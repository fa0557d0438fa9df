//! SAMI's small protobuf-compatible wire format.
//!
//! A message is a run of fields. Each field opens with a varint key that holds
//! the field number and the wire type; only the wire types that the service
//! uses are known.

use vstd::prelude::*;
use crate::error::Error;
use crate::text;

verus! {

/// Marks the first audio frame of a session.
pub const FRAME_STATE_FIRST: u64 = 1;

/// Marks an audio frame between the first and the last.
pub const FRAME_STATE_MIDDLE: u64 = 3;

/// Marks the last audio frame of a session.
pub const FRAME_STATE_LAST: u64 = 9;

/// One more than the largest value of 64 bits.
pub open spec fn two_64() -> nat {
    0x1_0000_0000_0000_0000
}

/// The varint of a number: seven bits a byte, low bits first, with the high
/// bit set on every byte but the last.
pub open spec fn varint(v: nat) -> Seq<u8>
    decreases v,
{
    if v < 128 {
        seq![v as u8]
    } else {
        seq![(v % 128 + 128) as u8] + varint(v / 128)
    }
}

/// The length of the varint at the front of `s`, if one ends within `limit` bytes.
pub open spec fn varint_len(s: Seq<u8>, limit: nat) -> Option<nat>
    decreases limit,
{
    if limit == 0 || s.len() == 0 {
        None
    } else if s[0] < 128 {
        Some(1)
    } else {
        match varint_len(s.skip(1), (limit - 1) as nat) {
            Some(n) => Some(n + 1),
            None => None,
        }
    }
}

/// The number that the varint at the front of `s` stands for.
pub open spec fn varint_value(s: Seq<u8>) -> nat
    decreases s.len(),
{
    if s.len() == 0 {
        0
    } else if s[0] < 128 {
        s[0] as nat
    } else {
        (s[0] - 128) as nat + 128 * varint_value(s.skip(1))
    }
}

/// The varint at the front of `s`: its value in 64 bits and its length, which
/// is ten bytes at most.
pub open spec fn parse_varint(s: Seq<u8>) -> Option<(u64, nat)> {
    match varint_len(s, 10) {
        Some(n) => Some(((varint_value(s) % two_64()) as u64, n)),
        None => None,
    }
}

/// The place value of the seven bits at position `i` of a varint.
spec fn place(i: nat) -> nat
    decreases i,
{
    if i == 0 {
        1
    } else {
        128 * place((i - 1) as nat)
    }
}

proof fn lemma_place(i: nat)
    requires
        i <= 9,
    ensures
        1 <= place(i) <= 0x8000_0000_0000_0000,
        place(9) == 0x8000_0000_0000_0000,
{
    reveal_with_fuel(place, 10);
}

/// Appends a varint.
pub fn append_varint(dst: &mut Vec<u8>, value: u64)
    ensures
        final(dst)@ == old(dst)@ + varint(value as nat),
{
    let mut rest: u64 = value;
    while rest >= 0x80
        invariant
            dst@ + varint(rest as nat) == old(dst)@ + varint(value as nat),
        decreases rest,
    {
        let ghost before = dst@;
        dst.push((rest % 128) as u8 + 128);
        assert(before + varint(rest as nat) == dst@ + varint((rest / 128) as nat));
        rest = rest / 128;
    }
    dst.push(rest as u8);
    assert(dst@ == old(dst)@ + varint(value as nat));
}

/// Reads the varint at the front of a slice.
pub fn read_varint(src: &[u8]) -> (r: Option<(u64, usize)>)
    ensures
        match r {
            Some(found) => parse_varint(src@) == Some((found.0, found.1 as nat)) && 0 < found.1
                <= src@.len(),
            None => parse_varint(src@) is None,
        },
{
    let mut value: u64 = 0;
    let mut scale: u64 = 1;
    let mut i: usize = 0;
    assert(src@.skip(0) == src@);
    while i < 10 && i < src.len()
        invariant
            i <= 10,
            i <= src@.len(),
            i <= 9 ==> {
                &&& scale == place(i as nat)
                &&& value < scale
                &&& varint_value(src@) == value + scale * varint_value(src@.skip(i as int))
            },
            varint_len(src@, 10) == match varint_len(src@.skip(i as int), (10 - i) as nat) {
                Some(n) => Some(n + i as nat),
                None => None,
            },
        decreases 10 - i,
    {
        let byte: u8 = src[i];
        let ghost tail = src@.skip(i as int);
        assert(tail[0] == byte);
        assert(tail.skip(1) == src@.skip(i + 1));
        proof {
            lemma_place(i as nat);
        }
        if byte < 0x80 {
            assert(varint_value(tail) == byte);
            if i == 9 {
                let low: u64 = (byte % 2) as u64;
                proof {
                    let total = varint_value(src@);
                    let half = (byte / 2) as int;
                    assert(total == value + 0x8000_0000_0000_0000 * byte);
                    assert(total == value + 0x8000_0000_0000_0000 * low + two_64() * half);
                    vstd::arithmetic::div_mod::lemma_fundamental_div_mod_converse(
                        total as int,
                        two_64() as int,
                        half,
                        value + 0x8000_0000_0000_0000 * low,
                    );
                }
                return Some((value + 0x8000_0000_0000_0000 * low, i + 1));
            }
            proof {
                lemma_place((i + 1) as nat);
                assert(value + scale * byte < 128 * scale) by (nonlinear_arith)
                    requires
                        value < scale,
                        byte < 128,
                ;
                vstd::arithmetic::div_mod::lemma_small_mod(varint_value(src@), two_64());
            }
            return Some((value + scale * (byte as u64), i + 1));
        }
        if i < 9 {
            let low: u64 = (byte - 128) as u64;
            proof {
                lemma_place((i + 1) as nat);
                let later = varint_value(tail.skip(1));
                assert(value + scale * low < 128 * scale) by (nonlinear_arith)
                    requires
                        value < scale,
                        low < 128,
                ;
                assert(scale * (low + 128 * later) == scale * low + (128 * scale) * later)
                    by (nonlinear_arith);
            }
            value = value + scale * low;
            scale = 128 * scale;
        }
        i += 1;
    }
    None
}

/// A field of bytes: its key, its length and the bytes.
pub open spec fn bytes_field(field: nat, value: Seq<u8>) -> Seq<u8> {
    varint(8 * field + 2) + varint(value.len()) + value
}

/// A field of one number: its key and the number.
pub open spec fn varint_field(field: nat, value: nat) -> Seq<u8> {
    varint(8 * field) + varint(value)
}

/// Appends a field of bytes.
pub fn append_bytes(dst: &mut Vec<u8>, field: u64, value: &[u8])
    requires
        field <= 0x1fff_ffff_ffff_ffff,
    ensures
        final(dst)@ == old(dst)@ + bytes_field(field as nat, value@),
{
    append_varint(dst, 8 * field + 2);
    append_varint(dst, value.len() as u64);
    dst.extend_from_slice(value);
    assert(dst@ == old(dst)@ + bytes_field(field as nat, value@));
}

/// Appends a field of one number.
pub fn append_varint_field(dst: &mut Vec<u8>, field: u64, value: u64)
    requires
        field <= 0x1fff_ffff_ffff_ffff,
    ensures
        final(dst)@ == old(dst)@ + varint_field(field as nat, value as nat),
{
    append_varint(dst, 8 * field);
    append_varint(dst, value);
    assert(dst@ == old(dst)@ + varint_field(field as nat, value as nat));
}

/// The message that asks for a recognition task.
pub open spec fn start_task_message(app_key: Seq<char>, request_id: Seq<char>) -> Seq<u8> {
    bytes_field(2, vstd::utf8::encode_utf8(app_key)) + bytes_field(
        3,
        vstd::utf8::encode_utf8("ASR"@),
    ) + bytes_field(5, vstd::utf8::encode_utf8("StartTask"@)) + bytes_field(
        8,
        vstd::utf8::encode_utf8(request_id),
    )
}

/// The message that opens a session with its settings.
pub open spec fn start_session_message(
    app_key: Seq<char>,
    request_id: Seq<char>,
    session_json: Seq<u8>,
) -> Seq<u8> {
    bytes_field(2, vstd::utf8::encode_utf8(app_key)) + bytes_field(
        3,
        vstd::utf8::encode_utf8("ASR"@),
    ) + bytes_field(5, vstd::utf8::encode_utf8("StartSession"@)) + bytes_field(6, session_json)
        + bytes_field(8, vstd::utf8::encode_utf8(request_id))
}

/// The JSON that dates an audio frame.
pub open spec fn timestamp_json(timestamp_ms: int) -> Seq<char> {
    "{\"extra\":{},\"timestamp_ms\":"@ + text::decimal_int(timestamp_ms) + "}"@
}

/// The message that carries one audio frame.
pub open spec fn task_request_message(
    request_id: Seq<char>,
    timestamp_ms: int,
    frame_state: nat,
    audio: Seq<u8>,
) -> Seq<u8> {
    bytes_field(3, vstd::utf8::encode_utf8("ASR"@)) + bytes_field(
        5,
        vstd::utf8::encode_utf8("TaskRequest"@),
    ) + bytes_field(6, vstd::utf8::encode_utf8(timestamp_json(timestamp_ms))) + bytes_field(
        7,
        audio,
    ) + bytes_field(8, vstd::utf8::encode_utf8(request_id)) + varint_field(9, frame_state)
}

/// The message that ends a session.
pub open spec fn finish_session_message(app_key: Seq<char>, request_id: Seq<char>) -> Seq<u8> {
    bytes_field(2, vstd::utf8::encode_utf8(app_key)) + bytes_field(
        3,
        vstd::utf8::encode_utf8("ASR"@),
    ) + bytes_field(5, vstd::utf8::encode_utf8("FinishSession"@)) + bytes_field(
        8,
        vstd::utf8::encode_utf8(request_id),
    )
}

/// Encodes the message that asks for a recognition task.
pub fn encode_start_task(app_key: &str, request_id: &str) -> (r: Vec<u8>)
    ensures
        r@ == start_task_message(app_key@, request_id@),
{
    let mut out: Vec<u8> = Vec::new();
    append_bytes(&mut out, 2, app_key.as_bytes());
    append_bytes(&mut out, 3, "ASR".as_bytes());
    append_bytes(&mut out, 5, "StartTask".as_bytes());
    append_bytes(&mut out, 8, request_id.as_bytes());
    out
}

/// Encodes the message that opens a session with its settings.
pub fn encode_start_session(app_key: &str, request_id: &str, session_json: &[u8]) -> (r: Vec<u8>)
    ensures
        r@ == start_session_message(app_key@, request_id@, session_json@),
{
    let mut out: Vec<u8> = Vec::new();
    append_bytes(&mut out, 2, app_key.as_bytes());
    append_bytes(&mut out, 3, "ASR".as_bytes());
    append_bytes(&mut out, 5, "StartSession".as_bytes());
    append_bytes(&mut out, 6, session_json);
    append_bytes(&mut out, 8, request_id.as_bytes());
    out
}

/// Encodes the message that carries one audio frame.
pub fn encode_task_request(
    request_id: &str,
    timestamp_ms: i64,
    frame_state: u64,
    audio: &[u8],
) -> (r: Vec<u8>)
    ensures
        r@ == task_request_message(
            request_id@,
            timestamp_ms as int,
            frame_state as nat,
            audio@,
        ),
{
    let payload = "{\"extra\":{},\"timestamp_ms\":".to_owned().concat(
        text::decimal_int_text(timestamp_ms).as_str(),
    ).concat("}");
    let mut out: Vec<u8> = Vec::new();
    append_bytes(&mut out, 3, "ASR".as_bytes());
    append_bytes(&mut out, 5, "TaskRequest".as_bytes());
    append_bytes(&mut out, 6, payload.as_str().as_bytes());
    append_bytes(&mut out, 7, audio);
    append_bytes(&mut out, 8, request_id.as_bytes());
    append_varint_field(&mut out, 9, frame_state);
    out
}

/// Encodes the message that ends a session.
pub fn encode_finish_session(app_key: &str, request_id: &str) -> (r: Vec<u8>)
    ensures
        r@ == finish_session_message(app_key@, request_id@),
{
    let mut out: Vec<u8> = Vec::new();
    append_bytes(&mut out, 2, app_key.as_bytes());
    append_bytes(&mut out, 3, "ASR".as_bytes());
    append_bytes(&mut out, 5, "FinishSession".as_bytes());
    append_bytes(&mut out, 8, request_id.as_bytes());
    out
}

/// A field as it stands on the wire.
#[allow(inconsistent_fields)]
pub enum WireField {
    Varint { field: u64, value: u64 },
    Fixed64 { field: u64 },
    Bytes { field: u64, value: Seq<u8> },
    Fixed32 { field: u64 },
}

/// The field at the front of `data` and its length, or why there is none.
pub open spec fn parse_field(data: Seq<u8>) -> Result<(WireField, nat), Seq<char>> {
    match parse_varint(data) {
        None => Err("invalid SAMI field key"@),
        Some((key, used)) => {
            let field = (key / 8) as u64;
            let kind = key % 8;
            let rest = data.skip(used as int);
            if kind == 0 {
                match parse_varint(rest) {
                    None => Err("invalid SAMI varint"@),
                    Some((value, n)) => Ok((WireField::Varint { field, value }, used + n)),
                }
            } else if kind == 1 {
                if rest.len() < 8 {
                    Err("truncated SAMI fixed64"@)
                } else {
                    Ok((WireField::Fixed64 { field }, used + 8))
                }
            } else if kind == 2 {
                match parse_varint(rest) {
                    None => Err("invalid SAMI length"@),
                    Some((length, n)) => {
                        if length > rest.len() - n {
                            Err("truncated SAMI bytes"@)
                        } else {
                            Ok(
                                (
                                    WireField::Bytes {
                                        field,
                                        value: rest.subrange(n as int, n + length),
                                    },
                                    used + n + length as nat,
                                ),
                            )
                        }
                    },
                }
            } else if kind == 5 {
                if rest.len() < 4 {
                    Err("truncated SAMI fixed32"@)
                } else {
                    Ok((WireField::Fixed32 { field }, used + 4))
                }
            } else {
                Err("unsupported SAMI wire type"@)
            }
        },
    }
}

/// A varint is not empty and lies within its bytes.
proof fn lemma_varint_len_bounds(s: Seq<u8>, limit: nat)
    ensures
        varint_len(s, limit) matches Some(n) ==> 0 < n <= s.len() && n <= limit,
    decreases limit,
{
    if limit > 0 && s.len() > 0 && s[0] >= 128 {
        lemma_varint_len_bounds(s.skip(1), (limit - 1) as nat);
    }
}

/// A field is not empty and lies within its bytes.
proof fn lemma_parse_field_bounds(data: Seq<u8>)
    ensures
        parse_field(data) matches Ok((_, n)) ==> 0 < n <= data.len(),
{
    lemma_varint_len_bounds(data, 10);
    if let Some((_, used)) = parse_varint(data) {
        lemma_varint_len_bounds(data.skip(used as int), 10);
    }
}

/// The fields of a message, or why it is malformed.
pub open spec fn parse_fields(data: Seq<u8>) -> Result<Seq<WireField>, Seq<char>>
    decreases data.len(),
    via parse_fields_decreases
{
    if data.len() == 0 {
        Ok(Seq::empty())
    } else {
        match parse_field(data) {
            Err(reason) => Err(reason),
            Ok((first, n)) => match parse_fields(data.skip(n as int)) {
                Err(reason) => Err(reason),
                Ok(others) => Ok(seq![first] + others),
            },
        }
    }
}

#[via_fn]
proof fn parse_fields_decreases(data: Seq<u8>) {
    lemma_parse_field_bounds(data);
}

/// The parts of a response that the client reads.
#[derive(Clone, Debug, PartialEq, Eq)]
pub struct Frame {
    pub request_id: String,
    pub event: String,
    pub status_code: u64,
    pub status_text: String,
    pub payload_json: String,
}

/// What a [`Frame`] holds.
pub struct FrameModel {
    pub request_id: Seq<char>,
    pub event: Seq<char>,
    pub status_code: u64,
    pub status_text: Seq<char>,
    pub payload_json: Seq<char>,
}

impl View for Frame {
    type V = FrameModel;

    open spec fn view(&self) -> FrameModel {
        FrameModel {
            request_id: self.request_id@,
            event: self.event@,
            status_code: self.status_code,
            status_text: self.status_text@,
            payload_json: self.payload_json@,
        }
    }
}

/// The frame of a message without fields.
pub open spec fn empty_frame() -> FrameModel {
    FrameModel {
        request_id: Seq::empty(),
        event: Seq::empty(),
        status_code: 0,
        status_text: Seq::empty(),
        payload_json: Seq::empty(),
    }
}

impl Default for Frame {
    fn default() -> (r: Frame)
        ensures
            r@ == empty_frame(),
    {
        Frame {
            request_id: String::new(),
            event: String::new(),
            status_code: 0,
            status_text: String::new(),
            payload_json: String::new(),
        }
    }
}

/// Whether a character is white space between JSON tokens.
pub open spec fn is_json_space(c: char) -> bool {
    c == ' ' || c == '\n' || c == '\r' || c == '\t'
}

/// Whether the first character after leading JSON white space opens an object
/// or an array.
pub open spec fn json_like(value: Seq<char>) -> bool {
    exists|i: int|
        #![trigger value[i]]
        0 <= i < value.len() && (value[i] == '{' || value[i] == '[') && forall|k: int|
            0 <= k < i ==> is_json_space(#[trigger] value[k])
}

/// Tells whether a text looks like a JSON object or array.
pub fn looks_json(value: &str) -> (r: bool)
    ensures
        r == json_like(value@),
{
    for c in it: value.chars()
        invariant
            it.seq() == value@,
            forall|k: int| 0 <= k < it.index() ==> is_json_space(#[trigger] value@[k]),
    {
        if !(c == ' ' || c == '\n' || c == '\r' || c == '\t') {
            assert(value@[it.index()] == c);
            return c == '{' || c == '[';
        }
    }
    false
}

/// The frame after a text field is taken over.
pub open spec fn with_text(frame: FrameModel, field: u64, value: Seq<char>) -> FrameModel {
    if field == 1 || field == 8 {
        FrameModel { request_id: value, ..frame }
    } else if field == 4 || field == 5 {
        FrameModel { event: value, ..frame }
    } else if (field == 6 || field == 7) && json_like(value) {
        FrameModel { payload_json: value, ..frame }
    } else if field == 6 {
        FrameModel { status_text: value, ..frame }
    } else {
        frame
    }
}

/// The frame after one more field: texts and the status code are taken over by
/// field number; bytes that are not UTF-8 and other fields change nothing.
pub open spec fn with_field(frame: FrameModel, field: WireField) -> FrameModel {
    match field {
        WireField::Varint { field, value } => if field == 5 {
            FrameModel { status_code: value, ..frame }
        } else {
            frame
        },
        WireField::Bytes { field, value } => if vstd::utf8::valid_utf8(value) {
            with_text(frame, field, vstd::utf8::decode_utf8(value))
        } else {
            frame
        },
        WireField::Fixed64 { .. } => frame,
        WireField::Fixed32 { .. } => frame,
    }
}

/// The frame that fields build up, each on top of those before it.
pub open spec fn frame_of(fields: Seq<WireField>) -> FrameModel
    decreases fields.len(),
{
    if fields.len() == 0 {
        empty_frame()
    } else {
        with_field(frame_of(fields.drop_last()), fields.last())
    }
}

/// What a message decodes to, or why it is malformed.
pub open spec fn decoded(data: Seq<u8>) -> Result<FrameModel, Seq<char>> {
    match parse_fields(data) {
        Ok(fields) => Ok(frame_of(fields)),
        Err(reason) => Err(reason),
    }
}

/// Takes over one text field.
fn store_text(frame: &mut Frame, field: u64, value: String)
    ensures
        final(frame)@ == with_text(old(frame)@, field, value@),
{
    if field == 1 || field == 8 {
        frame.request_id = value;
    } else if field == 4 || field == 5 {
        frame.event = value;
    } else if (field == 6 || field == 7) && looks_json(value.as_str()) {
        frame.payload_json = value;
    } else if field == 6 {
        frame.status_text = value;
    }
}

/// Takes over the field at the front of a message and tells its length.
fn take_field(frame: &mut Frame, data: &[u8]) -> (r: Result<usize, Error>)
    ensures
        match parse_field(data@) {
            Ok((field, n)) => {
                &&& r == Ok::<usize, Error>(n as usize)
                &&& n <= data@.len()
                &&& final(frame)@ == with_field(old(frame)@, field)
            },
            Err(reason) => crate::error::failure(r) == Some(
                crate::error::ErrorModel::Message(reason),
            ) && final(frame)@ == old(frame)@,
        },
{
    proof {
        lemma_parse_field_bounds(data@);
    }
    let (key, used) = match read_varint(data) {
        Some(found) => found,
        None => {
            return Err(Error::msg("invalid SAMI field key"));
        },
    };
    let field: u64 = key / 8;
    let kind: u64 = key % 8;
    let rest = vstd::slice::slice_subrange(data, used, data.len());
    assert(rest@ == data@.skip(used as int));
    if kind == 0 {
        match read_varint(rest) {
            Some((value, n)) => {
                if field == 5 {
                    frame.status_code = value;
                }
                Ok(used + n)
            },
            None => Err(Error::msg("invalid SAMI varint")),
        }
    } else if kind == 1 {
        if rest.len() < 8 {
            return Err(Error::msg("truncated SAMI fixed64"));
        }
        Ok(used + 8)
    } else if kind == 2 {
        let (length, n) = match read_varint(rest) {
            Some(found) => found,
            None => {
                return Err(Error::msg("invalid SAMI length"));
            },
        };
        if length > (rest.len() - n) as u64 {
            return Err(Error::msg("truncated SAMI bytes"));
        }
        let end: usize = n + length as usize;
        let value = vstd::slice::slice_subrange(rest, n, end);
        if let Some(found) = text::utf8_text(value) {
            store_text(frame, field, found);
        }
        Ok(used + end)
    } else if kind == 5 {
        if rest.len() < 4 {
            return Err(Error::msg("truncated SAMI fixed32"));
        }
        Ok(used + 4)
    } else {
        Err(Error::msg("unsupported SAMI wire type"))
    }
}

/// Decodes a message of the service.
pub fn decode(data: &[u8]) -> (r: Result<Frame, Error>)
    ensures
        match decoded(data@) {
            Ok(frame) => r matches Ok(found) && found@ == frame,
            Err(reason) => r matches Err(e) && e@ == crate::error::ErrorModel::Message(reason),
        },
{
    let mut frame = Frame::default();
    let mut offset: usize = 0;
    let ghost mut done: Seq<WireField> = Seq::empty();
    assert(data@.skip(0) == data@);
    assert(parse_fields(data@) matches Ok(fields) ==> Seq::<WireField>::empty() + fields == fields);
    while offset < data.len()
        invariant
            offset <= data@.len(),
            frame@ == frame_of(done),
            parse_fields(data@) == match parse_fields(data@.skip(offset as int)) {
                Ok(fields) => Ok(done + fields),
                Err(reason) => Err(reason),
            },
        decreases data@.len() - offset,
    {
        let ghost start = offset as int;
        let ghost tail = data@.skip(start);
        proof {
            lemma_parse_field_bounds(tail);
        }
        let n: usize = match take_field(
            &mut frame,
            vstd::slice::slice_subrange(data, offset, data.len()),
        ) {
            Ok(n) => n,
            Err(error) => {
                return Err(error);
            },
        };
        offset += n;
        proof {
            let (first, _) = parse_field(tail)->Ok_0;
            assert(tail.skip(n as int) == data@.skip(start + n));
            if let Ok(others) = parse_fields(tail.skip(n as int)) {
                assert(done + (seq![first] + others) == done.push(first) + others);
            }
            lemma_frame_push(done, first);
            done = done.push(first);
        }
    }
    assert(data@.skip(offset as int) == Seq::<u8>::empty());
    assert(done + Seq::<WireField>::empty() == done);
    Ok(frame)
}

proof fn lemma_varint_size(v: nat, k: nat)
    requires
        k >= 1,
        v < place(k),
    ensures
        varint(v).len() <= k,
    decreases k,
{
    if v >= 128 {
        assert(k > 1) by {
            reveal_with_fuel(place, 2);
        }
        lemma_varint_size(v / 128, (k - 1) as nat);
    }
}

proof fn lemma_varint_reads_back(v: nat, rest: Seq<u8>, limit: nat)
    requires
        varint(v).len() <= limit,
    ensures
        varint(v).len() > 0,
        varint_value(varint(v) + rest) == v,
        varint_len(varint(v) + rest, limit) == Some(varint(v).len()),
    decreases v,
{
    let s = varint(v) + rest;
    if v >= 128 {
        lemma_varint_reads_back(v / 128, rest, (limit - 1) as nat);
        assert(s.skip(1) == varint(v / 128) + rest);
        assert(s[0] == v % 128 + 128);
    } else {
        assert(s[0] == v);
    }
}

/// A number of 64 bits that was written as a varint is read back from it,
/// whatever bytes follow, and the varint takes ten bytes at most.
pub proof fn law_varint_round_trip(v: u64, rest: Seq<u8>)
    ensures
        1 <= varint(v as nat).len() <= 10,
        parse_varint(varint(v as nat) + rest) == Some((v, varint(v as nat).len())),
{
    assert(place(10) > u64::MAX) by {
        lemma_place(9);
        reveal_with_fuel(place, 2);
    }
    lemma_varint_size(v as nat, 10);
    lemma_varint_reads_back(v as nat, rest, 10);
    vstd::arithmetic::div_mod::lemma_small_mod(v as nat, two_64());
}

/// A field of bytes is read back as it was written, whatever bytes follow.
pub proof fn law_bytes_field_round_trip(field: u64, value: Seq<u8>, rest: Seq<u8>)
    requires
        field <= 0x1fff_ffff_ffff_ffff,
        value.len() <= u64::MAX,
    ensures
        parse_field(bytes_field(field as nat, value) + rest) == Ok::<(WireField, nat), Seq<char>>(
            (WireField::Bytes { field, value }, bytes_field(field as nat, value).len()),
        ),
{
    let key = (8 * field + 2) as u64;
    let length = value.len() as u64;
    let whole = bytes_field(field as nat, value) + rest;
    let after_key = varint(length as nat) + (value + rest);
    law_varint_round_trip(key, after_key);
    law_varint_round_trip(length, value + rest);
    let used = varint(key as nat).len() as int;
    let n = varint(length as nat).len() as int;
    assert(whole == varint(key as nat) + after_key);
    assert(whole.skip(used) == after_key);
    assert(after_key.subrange(n, n + length) == value);
}

/// A field of one number is read back as it was written, whatever bytes follow.
pub proof fn law_varint_field_round_trip(field: u64, value: u64, rest: Seq<u8>)
    requires
        field <= 0x1fff_ffff_ffff_ffff,
    ensures
        parse_field(varint_field(field as nat, value as nat) + rest) == Ok::<
            (WireField, nat),
            Seq<char>,
        >(
            (
                WireField::Varint { field, value },
                varint_field(field as nat, value as nat).len(),
            ),
        ),
{
    let key = (8 * field) as u64;
    let whole = varint_field(field as nat, value as nat) + rest;
    let after_key = varint(value as nat) + rest;
    law_varint_round_trip(key, after_key);
    law_varint_round_trip(value, rest);
    assert(whole == varint(key as nat) + after_key);
    assert(whole.skip(varint(key as nat).len() as int) == after_key);
}

proof fn lemma_fields_after_bytes(field: u64, value: Seq<u8>, rest: Seq<u8>)
    requires
        field <= 0x1fff_ffff_ffff_ffff,
        value.len() <= u64::MAX,
        parse_fields(rest) is Ok,
    ensures
        parse_fields(bytes_field(field as nat, value) + rest) == Ok::<Seq<WireField>, Seq<char>>(
            seq![WireField::Bytes { field, value }] + parse_fields(rest)->Ok_0,
        ),
{
    law_bytes_field_round_trip(field, value, rest);
    lemma_parse_field_bounds(bytes_field(field as nat, value) + rest);
    let whole = bytes_field(field as nat, value) + rest;
    assert(whole.skip(bytes_field(field as nat, value).len() as int) == rest);
}

/// Fields build up a frame one by one.
proof fn lemma_frame_push(fields: Seq<WireField>, next: WireField)
    ensures
        frame_of(fields.push(next)) == with_field(frame_of(fields), next),
{
    assert(fields.push(next).drop_last() == fields);
}

/// A text field that was encoded is taken over as the text.
proof fn lemma_text_field(frame: FrameModel, field: u64, value: Seq<char>)
    ensures
        with_field(
            frame,
            WireField::Bytes { field, value: vstd::utf8::encode_utf8(value) },
        ) == with_text(frame, field, value),
{
    vstd::utf8::encode_utf8_valid_utf8(value);
    vstd::utf8::encode_utf8_decode_utf8(value);
}

/// An ASCII text is as long in bytes as in characters.
proof fn lemma_names_are_short()
    ensures
        vstd::utf8::encode_utf8("ASR"@).len() == 3,
        vstd::utf8::encode_utf8("StartTask"@).len() == 9,
        vstd::utf8::encode_utf8("StartSession"@).len() == 12,
        vstd::utf8::encode_utf8("TaskRequest"@).len() == 11,
        vstd::utf8::encode_utf8("FinishSession"@).len() == 13,
{
    reveal_strlit("ASR");
    reveal_strlit("StartTask");
    reveal_strlit("StartSession");
    reveal_strlit("TaskRequest");
    reveal_strlit("FinishSession");
    vstd::utf8::is_ascii_chars_encode_utf8("ASR"@);
    vstd::utf8::is_ascii_chars_encode_utf8("StartTask"@);
    vstd::utf8::is_ascii_chars_encode_utf8("StartSession"@);
    vstd::utf8::is_ascii_chars_encode_utf8("TaskRequest"@);
    vstd::utf8::is_ascii_chars_encode_utf8("FinishSession"@);
}

/// A message of key, service, event and request decodes to the event and the request.
proof fn lemma_control_decodes(app_key: Seq<char>, event: Seq<char>, request_id: Seq<char>)
    requires
        vstd::utf8::encode_utf8(app_key).len() <= u64::MAX,
        vstd::utf8::encode_utf8(event).len() <= u64::MAX,
        vstd::utf8::encode_utf8(request_id).len() <= u64::MAX,
    ensures
        decoded(
            bytes_field(2, vstd::utf8::encode_utf8(app_key)) + bytes_field(
                3,
                vstd::utf8::encode_utf8("ASR"@),
            ) + bytes_field(5, vstd::utf8::encode_utf8(event)) + bytes_field(
                8,
                vstd::utf8::encode_utf8(request_id),
            ),
        ) == Ok::<FrameModel, Seq<char>>(FrameModel { request_id, event, ..empty_frame() }),
{
    let k = vstd::utf8::encode_utf8(app_key);
    let a = vstd::utf8::encode_utf8("ASR"@);
    let e = vstd::utf8::encode_utf8(event);
    let q = vstd::utf8::encode_utf8(request_id);
    let nothing = Seq::<u8>::empty();
    let d = bytes_field(8, q) + nothing;
    let c = bytes_field(5, e) + d;
    let b = bytes_field(3, a) + c;
    let whole = bytes_field(2, k) + b;
    lemma_names_are_short();
    lemma_fields_after_bytes(8, q, nothing);
    lemma_fields_after_bytes(5, e, d);
    lemma_fields_after_bytes(3, a, c);
    lemma_fields_after_bytes(2, k, b);
    assert(whole == bytes_field(2, k) + bytes_field(3, a) + bytes_field(5, e) + bytes_field(8, q));
    let f0 = Seq::<WireField>::empty();
    let f1 = f0.push(WireField::Bytes { field: 2, value: k });
    let f2 = f1.push(WireField::Bytes { field: 3, value: a });
    let f3 = f2.push(WireField::Bytes { field: 5, value: e });
    let f4 = f3.push(WireField::Bytes { field: 8, value: q });
    assert(parse_fields(whole)->Ok_0 == f4);
    lemma_frame_push(f0, WireField::Bytes { field: 2, value: k });
    lemma_frame_push(f1, WireField::Bytes { field: 3, value: a });
    lemma_frame_push(f2, WireField::Bytes { field: 5, value: e });
    lemma_frame_push(f3, WireField::Bytes { field: 8, value: q });
    lemma_text_field(frame_of(f0), 2, app_key);
    lemma_text_field(frame_of(f1), 3, "ASR"@);
    lemma_text_field(frame_of(f2), 5, event);
    lemma_text_field(frame_of(f3), 8, request_id);
}

/// The start of a task decodes to its event and its request.
pub proof fn law_start_task_decodes(app_key: Seq<char>, request_id: Seq<char>)
    requires
        vstd::utf8::encode_utf8(app_key).len() <= u64::MAX,
        vstd::utf8::encode_utf8(request_id).len() <= u64::MAX,
    ensures
        decoded(start_task_message(app_key, request_id)) == Ok::<FrameModel, Seq<char>>(
            FrameModel { request_id, event: "StartTask"@, ..empty_frame() },
        ),
{
    lemma_names_are_short();
    lemma_control_decodes(app_key, "StartTask"@, request_id);
}

/// The end of a session decodes to its event and its request.
pub proof fn law_finish_session_decodes(app_key: Seq<char>, request_id: Seq<char>)
    requires
        vstd::utf8::encode_utf8(app_key).len() <= u64::MAX,
        vstd::utf8::encode_utf8(request_id).len() <= u64::MAX,
    ensures
        decoded(finish_session_message(app_key, request_id)) == Ok::<FrameModel, Seq<char>>(
            FrameModel { request_id, event: "FinishSession"@, ..empty_frame() },
        ),
{
    lemma_names_are_short();
    lemma_control_decodes(app_key, "FinishSession"@, request_id);
}

/// The start of a session decodes to its event and its request, with the
/// settings as the payload where they look like JSON, and as the status text
/// where they are some other UTF-8 text.
pub proof fn law_start_session_decodes(
    app_key: Seq<char>,
    request_id: Seq<char>,
    session_json: Seq<u8>,
)
    requires
        vstd::utf8::encode_utf8(app_key).len() <= u64::MAX,
        vstd::utf8::encode_utf8(request_id).len() <= u64::MAX,
        session_json.len() <= u64::MAX,
    ensures
        decoded(start_session_message(app_key, request_id, session_json)) == Ok::<
            FrameModel,
            Seq<char>,
        >(
            with_field(
                FrameModel { request_id, event: "StartSession"@, ..empty_frame() },
                WireField::Bytes { field: 6, value: session_json },
            ),
        ),
{
    let k = vstd::utf8::encode_utf8(app_key);
    let a = vstd::utf8::encode_utf8("ASR"@);
    let e = vstd::utf8::encode_utf8("StartSession"@);
    let q = vstd::utf8::encode_utf8(request_id);
    let nothing = Seq::<u8>::empty();
    let g = bytes_field(8, q) + nothing;
    let d = bytes_field(6, session_json) + g;
    let c = bytes_field(5, e) + d;
    let b = bytes_field(3, a) + c;
    let whole = bytes_field(2, k) + b;
    lemma_names_are_short();
    lemma_fields_after_bytes(8, q, nothing);
    lemma_fields_after_bytes(6, session_json, g);
    lemma_fields_after_bytes(5, e, d);
    lemma_fields_after_bytes(3, a, c);
    lemma_fields_after_bytes(2, k, b);
    assert(whole == start_session_message(app_key, request_id, session_json));
    let f0 = Seq::<WireField>::empty();
    let f1 = f0.push(WireField::Bytes { field: 2, value: k });
    let f2 = f1.push(WireField::Bytes { field: 3, value: a });
    let f3 = f2.push(WireField::Bytes { field: 5, value: e });
    let f4 = f3.push(WireField::Bytes { field: 6, value: session_json });
    let f5 = f4.push(WireField::Bytes { field: 8, value: q });
    assert(parse_fields(whole)->Ok_0 == f5);
    lemma_frame_push(f0, WireField::Bytes { field: 2, value: k });
    lemma_frame_push(f1, WireField::Bytes { field: 3, value: a });
    lemma_frame_push(f2, WireField::Bytes { field: 5, value: e });
    lemma_frame_push(f3, WireField::Bytes { field: 6, value: session_json });
    lemma_frame_push(f4, WireField::Bytes { field: 8, value: q });
    lemma_text_field(frame_of(f0), 2, app_key);
    lemma_text_field(frame_of(f1), 3, "ASR"@);
    lemma_text_field(frame_of(f2), 5, "StartSession"@);
    lemma_text_field(frame_of(f4), 8, request_id);
}

/// The date of an audio frame fits the length that its field can hold.
proof fn lemma_timestamp_is_short(timestamp_ms: int)
    requires
        i64::MIN <= timestamp_ms <= i64::MAX,
    ensures
        vstd::utf8::encode_utf8(timestamp_json(timestamp_ms)).len() <= u64::MAX,
{
    reveal_strlit("{\"extra\":{},\"timestamp_ms\":");
    reveal_strlit("}");
    let size = if timestamp_ms < 0 {
        -timestamp_ms
    } else {
        timestamp_ms
    };
    text::lemma_decimal_is_ascii(size as nat);
    assert(vstd::utf8::is_ascii_chars(timestamp_json(timestamp_ms)));
    vstd::utf8::is_ascii_chars_encode_utf8(timestamp_json(timestamp_ms));
}

/// The date of an audio frame looks like JSON.
proof fn lemma_timestamp_looks_json(timestamp_ms: int)
    ensures
        json_like(timestamp_json(timestamp_ms)),
{
    reveal_strlit("{\"extra\":{},\"timestamp_ms\":");
    assert(timestamp_json(timestamp_ms)[0] == '{');
}

/// Concatenation may be grouped from either end.
proof fn lemma_regroup(
    a: Seq<u8>,
    b: Seq<u8>,
    c: Seq<u8>,
    d: Seq<u8>,
    e: Seq<u8>,
    f: Seq<u8>,
)
    ensures
        a + b + c + d + e + f == a + (b + (c + (d + (e + (f + Seq::<u8>::empty()))))),
{
}

/// The fields of an audio frame.
proof fn lemma_task_request_fields(
    request_id: Seq<char>,
    timestamp_ms: int,
    frame_state: u64,
    audio: Seq<u8>,
)
    requires
        vstd::utf8::encode_utf8(request_id).len() <= u64::MAX,
        vstd::utf8::encode_utf8(timestamp_json(timestamp_ms)).len() <= u64::MAX,
        audio.len() <= u64::MAX,
    ensures
        parse_fields(
            task_request_message(request_id, timestamp_ms, frame_state as nat, audio),
        ) == Ok::<Seq<WireField>, Seq<char>>(
            Seq::<WireField>::empty().push(
                WireField::Bytes { field: 3, value: vstd::utf8::encode_utf8("ASR"@) },
            ).push(
                WireField::Bytes { field: 5, value: vstd::utf8::encode_utf8("TaskRequest"@) },
            ).push(
                WireField::Bytes {
                    field: 6,
                    value: vstd::utf8::encode_utf8(timestamp_json(timestamp_ms)),
                },
            ).push(WireField::Bytes { field: 7, value: audio }).push(
                WireField::Bytes { field: 8, value: vstd::utf8::encode_utf8(request_id) },
            ).push(WireField::Varint { field: 9, value: frame_state }),
        ),
{
    let a = vstd::utf8::encode_utf8("ASR"@);
    let e = vstd::utf8::encode_utf8("TaskRequest"@);
    let t = vstd::utf8::encode_utf8(timestamp_json(timestamp_ms));
    let q = vstd::utf8::encode_utf8(request_id);
    let nothing = Seq::<u8>::empty();
    let h = varint_field(9, frame_state as nat) + nothing;
    let g = bytes_field(8, q) + h;
    let d = bytes_field(7, audio) + g;
    let c = bytes_field(6, t) + d;
    let b = bytes_field(5, e) + c;
    let whole = bytes_field(3, a) + b;
    let state = WireField::Varint { field: 9, value: frame_state };
    lemma_names_are_short();
    assert(parse_fields(h) == Ok::<Seq<WireField>, Seq<char>>(seq![state])) by {
        law_varint_field_round_trip(9, frame_state, nothing);
        lemma_parse_field_bounds(h);
        assert(h.skip(varint_field(9, frame_state as nat).len() as int) == nothing);
        assert(parse_fields(nothing) == Ok::<Seq<WireField>, Seq<char>>(Seq::empty()));
        assert(seq![state] + Seq::<WireField>::empty() == seq![state]);
    }
    lemma_fields_after_bytes(8, q, h);
    lemma_fields_after_bytes(7, audio, g);
    lemma_fields_after_bytes(6, t, d);
    lemma_fields_after_bytes(5, e, c);
    lemma_fields_after_bytes(3, a, b);
    lemma_regroup(
        bytes_field(3, a),
        bytes_field(5, e),
        bytes_field(6, t),
        bytes_field(7, audio),
        bytes_field(8, q),
        varint_field(9, frame_state as nat),
    );
    assert(whole == task_request_message(request_id, timestamp_ms, frame_state as nat, audio));
    let fields = parse_fields(whole)->Ok_0;
    assert(fields.len() == 6);
    assert(fields[5] == state);
    assert(fields[4] == WireField::Bytes { field: 8, value: q });
    assert(fields[3] == WireField::Bytes { field: 7, value: audio });
    assert(fields[2] == WireField::Bytes { field: 6, value: t });
    assert(fields[1] == WireField::Bytes { field: 5, value: e });
    assert(fields[0] == WireField::Bytes { field: 3, value: a });
    assert(fields =~= Seq::<WireField>::empty().push(WireField::Bytes { field: 3, value: a }).push(
        WireField::Bytes { field: 5, value: e },
    ).push(WireField::Bytes { field: 6, value: t }).push(
        WireField::Bytes { field: 7, value: audio },
    ).push(WireField::Bytes { field: 8, value: q }).push(state));
}

/// An audio frame decodes to its event, its request and its date; audio bytes
/// that happen to be a text that looks like JSON take the place of the date.
pub proof fn law_task_request_decodes(
    request_id: Seq<char>,
    timestamp: i64,
    frame_state: u64,
    audio: Seq<u8>,
)
    requires
        vstd::utf8::encode_utf8(request_id).len() <= u64::MAX,
        audio.len() <= u64::MAX,
    ensures
        decoded(
            task_request_message(request_id, timestamp as int, frame_state as nat, audio),
        ) == Ok::<FrameModel, Seq<char>>(
            with_field(
                FrameModel {
                    request_id,
                    event: "TaskRequest"@,
                    payload_json: timestamp_json(timestamp as int),
                    ..empty_frame()
                },
                WireField::Bytes { field: 7, value: audio },
            ),
        ),
{
    let date = timestamp_json(timestamp as int);
    let service = WireField::Bytes { field: 3, value: vstd::utf8::encode_utf8("ASR"@) };
    let event = WireField::Bytes { field: 5, value: vstd::utf8::encode_utf8("TaskRequest"@) };
    let dated = WireField::Bytes { field: 6, value: vstd::utf8::encode_utf8(date) };
    let sound = WireField::Bytes { field: 7, value: audio };
    let asked = WireField::Bytes { field: 8, value: vstd::utf8::encode_utf8(request_id) };
    let state = WireField::Varint { field: 9, value: frame_state };
    let f0 = Seq::<WireField>::empty();
    let f1 = f0.push(service);
    let f2 = f1.push(event);
    let f3 = f2.push(dated);
    let f4 = f3.push(sound);
    let f5 = f4.push(asked);
    lemma_timestamp_is_short(timestamp as int);
    lemma_timestamp_looks_json(timestamp as int);
    lemma_task_request_fields(request_id, timestamp as int, frame_state, audio);
    lemma_frame_push(f0, service);
    lemma_frame_push(f1, event);
    lemma_frame_push(f2, dated);
    lemma_frame_push(f3, sound);
    lemma_frame_push(f4, asked);
    lemma_frame_push(f5, state);
    lemma_text_field(frame_of(f0), 3, "ASR"@);
    lemma_text_field(frame_of(f1), 5, "TaskRequest"@);
    lemma_text_field(frame_of(f2), 6, date);
    lemma_text_field(frame_of(f4), 8, request_id);
}

/// A varint is read the same whatever bytes follow it.
proof fn lemma_varint_ignores_rest(s: Seq<u8>, rest: Seq<u8>, limit: nat)
    requires
        varint_len(s, limit) is Some,
    ensures
        varint_len(s + rest, limit) == varint_len(s, limit),
        varint_value(s + rest) == varint_value(s),
    decreases limit,
{
    assert((s + rest)[0] == s[0]);
    if s[0] >= 128 {
        lemma_varint_ignores_rest(s.skip(1), rest, (limit - 1) as nat);
        assert((s + rest).skip(1) == s.skip(1) + rest);
    }
}

/// A field is read the same whatever bytes follow it.
proof fn lemma_field_ignores_rest(data: Seq<u8>, rest: Seq<u8>)
    requires
        parse_field(data) is Ok,
    ensures
        parse_field(data + rest) == parse_field(data),
{
    lemma_varint_len_bounds(data, 10);
    lemma_varint_ignores_rest(data, rest, 10);
    let (key, used) = parse_varint(data)->0;
    let after = data.skip(used as int);
    assert((data + rest).skip(used as int) == after + rest);
    if key % 8 == 0 || key % 8 == 2 {
        lemma_varint_len_bounds(after, 10);
        lemma_varint_ignores_rest(after, rest, 10);
        let (value, n) = parse_varint(after)->0;
        if key % 8 == 2 {
            assert((after + rest).subrange(n as int, n + value) == after.subrange(
                n as int,
                n + value,
            ));
        }
    }
}

/// Bytes after a well-formed message are read as a message of their own: where
/// they are well-formed, both are one well-formed message that holds the fields
/// of both; where they are malformed, the whole is malformed for the same reason.
pub proof fn law_messages_concatenate(first: Seq<u8>, second: Seq<u8>)
    requires
        parse_fields(first) is Ok,
    ensures
        parse_fields(first + second) == match parse_fields(second) {
            Ok(fields) => Ok::<Seq<WireField>, Seq<char>>(parse_fields(first)->Ok_0 + fields),
            Err(reason) => Err(reason),
        },
        parse_fields(second) matches Err(reason) ==> decoded(first + second) == Err::<
            FrameModel,
            Seq<char>,
        >(reason),
    decreases first.len(),
{
    if first.len() == 0 {
        assert(first + second == second);
        assert(parse_fields(first)->Ok_0 == Seq::<WireField>::empty());
        if let Ok(fields) = parse_fields(second) {
            assert(Seq::<WireField>::empty() + fields == fields);
        }
    } else {
        lemma_parse_field_bounds(first);
        lemma_field_ignores_rest(first, second);
        let (field, n) = parse_field(first)->Ok_0;
        let tail = first.skip(n as int);
        law_messages_concatenate(tail, second);
        lemma_parse_field_bounds(first + second);
        assert((first + second).skip(n as int) == tail + second);
        if let Ok(fields) = parse_fields(second) {
            assert(seq![field] + (parse_fields(tail)->Ok_0 + fields) == seq![field] + parse_fields(
                tail,
            )->Ok_0 + fields);
        }
    }
}

/// The parts of a frame.
pub enum FramePart {
    RequestId,
    Event,
    StatusCode,
    StatusText,
    PayloadJson,
}

/// The part of a frame that a field is taken over to.
pub open spec fn part_of(field: WireField) -> Option<FramePart> {
    match field {
        WireField::Varint { field, .. } => if field == 5 {
            Some(FramePart::StatusCode)
        } else {
            None
        },
        WireField::Bytes { field, value } => if !vstd::utf8::valid_utf8(value) {
            None
        } else if field == 1 || field == 8 {
            Some(FramePart::RequestId)
        } else if field == 4 || field == 5 {
            Some(FramePart::Event)
        } else if (field == 6 || field == 7) && json_like(vstd::utf8::decode_utf8(value)) {
            Some(FramePart::PayloadJson)
        } else if field == 6 {
            Some(FramePart::StatusText)
        } else {
            None
        },
        WireField::Fixed64 { .. } => None,
        WireField::Fixed32 { .. } => None,
    }
}

/// Whether a part is the same in two frames.
pub open spec fn same_part(a: FrameModel, b: FrameModel, part: FramePart) -> bool {
    match part {
        FramePart::RequestId => a.request_id == b.request_id,
        FramePart::Event => a.event == b.event,
        FramePart::StatusCode => a.status_code == b.status_code,
        FramePart::StatusText => a.status_text == b.status_text,
        FramePart::PayloadJson => a.payload_json == b.payload_json,
    }
}

/// A part of the frame that a message decodes to is what the last field for it
/// says, whatever fields stand before that one and after it.
pub proof fn law_last_record_wins(data: Seq<u8>, part: FramePart, last: int)
    requires
        parse_fields(data) matches Ok(fields) && 0 <= last < fields.len() && part_of(fields[last])
            == Some(part) && forall|i: int|
            last < i < fields.len() ==> part_of(#[trigger] fields[i]) != Some(part),
    ensures
        decoded(data) matches Ok(frame) && same_part(
            frame,
            with_field(empty_frame(), parse_fields(data)->Ok_0[last]),
            part,
        ),
{
    lemma_last_record(parse_fields(data)->Ok_0, part, last);
}

proof fn lemma_last_record(fields: Seq<WireField>, part: FramePart, last: int)
    requires
        0 <= last < fields.len(),
        part_of(fields[last]) == Some(part),
        forall|i: int| last < i < fields.len() ==> part_of(#[trigger] fields[i]) != Some(part),
    ensures
        same_part(frame_of(fields), with_field(empty_frame(), fields[last]), part),
    decreases fields.len(),
{
    if last < fields.len() - 1 {
        assert(part_of(fields[fields.len() - 1]) != Some(part));
        lemma_last_record(fields.drop_last(), part, last);
    }
}

/// A part of the frame that no field of a message is for stays empty, or zero.
pub proof fn law_parts_without_record_are_empty(data: Seq<u8>, part: FramePart)
    requires
        parse_fields(data) matches Ok(fields) && forall|i: int|
            0 <= i < fields.len() ==> part_of(#[trigger] fields[i]) != Some(part),
    ensures
        decoded(data) matches Ok(frame) && same_part(frame, empty_frame(), part),
{
    lemma_no_record(parse_fields(data)->Ok_0, part);
}

proof fn lemma_no_record(fields: Seq<WireField>, part: FramePart)
    requires
        forall|i: int| 0 <= i < fields.len() ==> part_of(#[trigger] fields[i]) != Some(part),
    ensures
        same_part(frame_of(fields), empty_frame(), part),
    decreases fields.len(),
{
    if fields.len() > 0 {
        assert(part_of(fields[fields.len() - 1]) != Some(part));
        lemma_no_record(fields.drop_last(), part);
    }
}

/// What groups of seven bits stand for, the lowest first.
pub open spec fn sevens_value(s: Seq<u8>) -> nat
    decreases s.len(),
{
    if s.len() == 0 {
        0
    } else {
        (s[0] % 128) as nat + 128 * sevens_value(s.skip(1))
    }
}

/// A varint holds its number in groups of seven bits, the lowest first. Every byte
/// but the last has its high bit set, and no group at the end is empty.
pub proof fn law_varints_are_groups_of_seven_bits(v: nat)
    ensures
        varint(v).len() > 0,
        sevens_value(varint(v)) == v,
        varint(v).last() < 128,
        varint(v).last() > 0 || v == 0,
        forall|i: int| 0 <= i < varint(v).len() - 1 ==> #[trigger] varint(v)[i] >= 128,
    decreases v,
{
    reveal_with_fuel(sevens_value, 2);
    if v >= 128 {
        let tail = varint(v / 128);
        law_varints_are_groups_of_seven_bits(v / 128);
        assert(varint(v).skip(1) =~= tail);
        assert(varint(v).last() == tail.last());
        assert forall|i: int| 0 <= i < varint(v).len() - 1 implies #[trigger] varint(v)[i]
            >= 128 by {
            if i > 0 {
                assert(varint(v)[i] == tail[i - 1]);
            }
        }
    }
}

/// Ten bytes with their high bits set are no varint, and neither are fewer with
/// nothing behind them.
pub proof fn law_unending_varints_are_refused(s: Seq<u8>)
    requires
        forall|i: int| 0 <= i < s.len() && i < 10 ==> #[trigger] s[i] >= 128,
    ensures
        parse_varint(s) is None,
{
    lemma_unending(s, 10);
}

proof fn lemma_unending(s: Seq<u8>, limit: nat)
    requires
        forall|i: int| 0 <= i < s.len() && i < limit ==> #[trigger] s[i] >= 128,
    ensures
        varint_len(s, limit) is None,
    decreases limit,
{
    if limit > 0 && s.len() > 0 {
        assert(s[0] >= 128);
        assert forall|i: int| 0 <= i < s.skip(1).len() && i < limit - 1 implies #[trigger] s.skip(
            1,
        )[i] >= 128 by {
            assert(s[i + 1] >= 128);
        }
        lemma_unending(s.skip(1), (limit - 1) as nat);
    }
}

/// The fields of the message that asks for a task: the whole key of the
/// application, the service, the event and the whole name of the request, under the
/// numbers 2, 3, 5 and 8. The message that ends a session has the same fields with
/// its own event.
pub proof fn law_control_messages_hold_their_fields(app_key: Seq<char>, request_id: Seq<char>)
    requires
        vstd::utf8::encode_utf8(app_key).len() <= u64::MAX,
        vstd::utf8::encode_utf8(request_id).len() <= u64::MAX,
    ensures
        parse_fields(start_task_message(app_key, request_id)) == Ok::<Seq<WireField>, Seq<char>>(
            seq![
                WireField::Bytes { field: 2, value: vstd::utf8::encode_utf8(app_key) },
                WireField::Bytes { field: 3, value: vstd::utf8::encode_utf8("ASR"@) },
                WireField::Bytes { field: 5, value: vstd::utf8::encode_utf8("StartTask"@) },
                WireField::Bytes { field: 8, value: vstd::utf8::encode_utf8(request_id) },
            ],
        ),
        parse_fields(finish_session_message(app_key, request_id)) == Ok::<
            Seq<WireField>,
            Seq<char>,
        >(
            seq![
                WireField::Bytes { field: 2, value: vstd::utf8::encode_utf8(app_key) },
                WireField::Bytes { field: 3, value: vstd::utf8::encode_utf8("ASR"@) },
                WireField::Bytes { field: 5, value: vstd::utf8::encode_utf8("FinishSession"@) },
                WireField::Bytes { field: 8, value: vstd::utf8::encode_utf8(request_id) },
            ],
        ),
{
    lemma_names_are_short();
    lemma_control_fields(app_key, "StartTask"@, request_id);
    lemma_control_fields(app_key, "FinishSession"@, request_id);
}

proof fn lemma_control_fields(app_key: Seq<char>, event: Seq<char>, request_id: Seq<char>)
    requires
        vstd::utf8::encode_utf8(app_key).len() <= u64::MAX,
        vstd::utf8::encode_utf8(event).len() <= u64::MAX,
        vstd::utf8::encode_utf8(request_id).len() <= u64::MAX,
    ensures
        parse_fields(
            bytes_field(2, vstd::utf8::encode_utf8(app_key)) + bytes_field(
                3,
                vstd::utf8::encode_utf8("ASR"@),
            ) + bytes_field(5, vstd::utf8::encode_utf8(event)) + bytes_field(
                8,
                vstd::utf8::encode_utf8(request_id),
            ),
        ) == Ok::<Seq<WireField>, Seq<char>>(
            seq![
                WireField::Bytes { field: 2, value: vstd::utf8::encode_utf8(app_key) },
                WireField::Bytes { field: 3, value: vstd::utf8::encode_utf8("ASR"@) },
                WireField::Bytes { field: 5, value: vstd::utf8::encode_utf8(event) },
                WireField::Bytes { field: 8, value: vstd::utf8::encode_utf8(request_id) },
            ],
        ),
{
    let k = vstd::utf8::encode_utf8(app_key);
    let a = vstd::utf8::encode_utf8("ASR"@);
    let e = vstd::utf8::encode_utf8(event);
    let q = vstd::utf8::encode_utf8(request_id);
    let nothing = Seq::<u8>::empty();
    let d = bytes_field(8, q) + nothing;
    let c = bytes_field(5, e) + d;
    let b = bytes_field(3, a) + c;
    let whole = bytes_field(2, k) + b;
    lemma_names_are_short();
    lemma_fields_after_bytes(8, q, nothing);
    lemma_fields_after_bytes(5, e, d);
    lemma_fields_after_bytes(3, a, c);
    lemma_fields_after_bytes(2, k, b);
    assert(whole == bytes_field(2, k) + bytes_field(3, a) + bytes_field(5, e) + bytes_field(8, q));
    assert(parse_fields(whole)->Ok_0 =~= seq![
        WireField::Bytes { field: 2, value: k },
        WireField::Bytes { field: 3, value: a },
        WireField::Bytes { field: 5, value: e },
        WireField::Bytes { field: 8, value: q },
    ]);
}

/// The fields of the message that opens a session: those that ask for a task, with
/// its own event and the whole of the settings under the number 6.
pub proof fn law_opening_messages_hold_their_fields(
    app_key: Seq<char>,
    request_id: Seq<char>,
    session_json: Seq<u8>,
)
    requires
        vstd::utf8::encode_utf8(app_key).len() <= u64::MAX,
        vstd::utf8::encode_utf8(request_id).len() <= u64::MAX,
        session_json.len() <= u64::MAX,
    ensures
        parse_fields(start_session_message(app_key, request_id, session_json)) == Ok::<
            Seq<WireField>,
            Seq<char>,
        >(
            seq![
                WireField::Bytes { field: 2, value: vstd::utf8::encode_utf8(app_key) },
                WireField::Bytes { field: 3, value: vstd::utf8::encode_utf8("ASR"@) },
                WireField::Bytes { field: 5, value: vstd::utf8::encode_utf8("StartSession"@) },
                WireField::Bytes { field: 6, value: session_json },
                WireField::Bytes { field: 8, value: vstd::utf8::encode_utf8(request_id) },
            ],
        ),
{
    let k = vstd::utf8::encode_utf8(app_key);
    let a = vstd::utf8::encode_utf8("ASR"@);
    let e = vstd::utf8::encode_utf8("StartSession"@);
    let q = vstd::utf8::encode_utf8(request_id);
    let nothing = Seq::<u8>::empty();
    let g = bytes_field(8, q) + nothing;
    let d = bytes_field(6, session_json) + g;
    let c = bytes_field(5, e) + d;
    let b = bytes_field(3, a) + c;
    let whole = bytes_field(2, k) + b;
    lemma_names_are_short();
    lemma_fields_after_bytes(8, q, nothing);
    lemma_fields_after_bytes(6, session_json, g);
    lemma_fields_after_bytes(5, e, d);
    lemma_fields_after_bytes(3, a, c);
    lemma_fields_after_bytes(2, k, b);
    assert(whole == start_session_message(app_key, request_id, session_json));
    assert(parse_fields(whole)->Ok_0 =~= seq![
        WireField::Bytes { field: 2, value: k },
        WireField::Bytes { field: 3, value: a },
        WireField::Bytes { field: 5, value: e },
        WireField::Bytes { field: 6, value: session_json },
        WireField::Bytes { field: 8, value: q },
    ]);
}

/// The fields of the message that carries a packet: the service, the event, the
/// date, the whole packet, the name of the request and the mark of the frame, under
/// the numbers 3, 5, 6, 7, 8 and 9.
pub proof fn law_audio_messages_hold_their_packet(
    request_id: Seq<char>,
    timestamp: i64,
    frame_state: u64,
    audio: Seq<u8>,
)
    requires
        vstd::utf8::encode_utf8(request_id).len() <= u64::MAX,
        audio.len() <= u64::MAX,
    ensures
        parse_fields(
            task_request_message(request_id, timestamp as int, frame_state as nat, audio),
        ) == Ok::<Seq<WireField>, Seq<char>>(
            seq![
                WireField::Bytes { field: 3, value: vstd::utf8::encode_utf8("ASR"@) },
                WireField::Bytes { field: 5, value: vstd::utf8::encode_utf8("TaskRequest"@) },
                WireField::Bytes {
                    field: 6,
                    value: vstd::utf8::encode_utf8(timestamp_json(timestamp as int)),
                },
                WireField::Bytes { field: 7, value: audio },
                WireField::Bytes { field: 8, value: vstd::utf8::encode_utf8(request_id) },
                WireField::Varint { field: 9, value: frame_state },
            ],
        ),
{
    lemma_timestamp_is_short(timestamp as int);
    lemma_task_request_fields(request_id, timestamp as int, frame_state, audio);
    assert(parse_fields(
        task_request_message(request_id, timestamp as int, frame_state as nat, audio),
    )->Ok_0 =~= seq![
        WireField::Bytes { field: 3, value: vstd::utf8::encode_utf8("ASR"@) },
        WireField::Bytes { field: 5, value: vstd::utf8::encode_utf8("TaskRequest"@) },
        WireField::Bytes {
            field: 6,
            value: vstd::utf8::encode_utf8(timestamp_json(timestamp as int)),
        },
        WireField::Bytes { field: 7, value: audio },
        WireField::Bytes { field: 8, value: vstd::utf8::encode_utf8(request_id) },
        WireField::Varint { field: 9, value: frame_state },
    ]);
}

/// A frame is dated by a document that holds nothing but the time in milliseconds,
/// beside an empty object.
pub proof fn law_frames_are_dated_in_milliseconds(timestamp_ms: int)
    ensures
        ({
            let before = "{\"extra\":{},\"timestamp_ms\":"@;
            let date = timestamp_json(timestamp_ms);
            let number = date.subrange(before.len() as int, date.len() - 1);
            &&& date.take(before.len() as int) == before
            &&& date.last() == '}'
            &&& timestamp_ms >= 0 ==> text::numeral_value(number) == timestamp_ms
            &&& timestamp_ms < 0 ==> number[0] == '-' && text::numeral_value(number.skip(1))
                == -timestamp_ms
        }),
{
    let before = "{\"extra\":{},\"timestamp_ms\":"@;
    let date = timestamp_json(timestamp_ms);
    reveal_strlit("}");
    assert("}"@ =~= seq!['}']);
    text::law_signs_of_numerals(timestamp_ms);
    assert(date.take(before.len() as int) =~= before);
    assert(date.subrange(before.len() as int, date.len() - 1) =~= text::decimal_int(timestamp_ms));
}

/// The last field for a part of a frame is taken over whole: a text under 1 or 8 as
/// the request, under 4 or 5 as the event, under 6 or 7 as the payload where it looks
/// like JSON, under 6 as the status text where it does not, and a number under 5 as
/// the status code.
pub proof fn law_fields_are_taken_over_whole(
    data: Seq<u8>,
    last: int,
    number: u64,
    value: Seq<u8>,
)
    requires
        parse_fields(data) matches Ok(fields) && 0 <= last < fields.len(),
        vstd::utf8::valid_utf8(value),
    ensures
        ({
            let fields = parse_fields(data)->Ok_0;
            let found = vstd::utf8::decode_utf8(value);
            let json = json_like(found);
            let is_last = |part: FramePart|
                forall|i: int| last < i < fields.len() ==> part_of(#[trigger] fields[i]) != Some(
                    part,
                );
            decoded(data) matches Ok(frame) && {
                &&& fields[last] == (WireField::Bytes { field: 1, value }) && is_last(
                    FramePart::RequestId,
                ) ==> frame.request_id == found
                &&& fields[last] == (WireField::Bytes { field: 8, value }) && is_last(
                    FramePart::RequestId,
                ) ==> frame.request_id == found
                &&& fields[last] == (WireField::Bytes { field: 4, value }) && is_last(
                    FramePart::Event,
                ) ==> frame.event == found
                &&& fields[last] == (WireField::Bytes { field: 5, value }) && is_last(
                    FramePart::Event,
                ) ==> frame.event == found
                &&& fields[last] == (WireField::Bytes { field: 6, value }) && json && is_last(
                    FramePart::PayloadJson,
                ) ==> frame.payload_json == found
                &&& fields[last] == (WireField::Bytes { field: 7, value }) && json && is_last(
                    FramePart::PayloadJson,
                ) ==> frame.payload_json == found
                &&& fields[last] == (WireField::Bytes { field: 6, value }) && !json && is_last(
                    FramePart::StatusText,
                ) ==> frame.status_text == found
                &&& fields[last] == (WireField::Varint { field: 5, value: number }) && is_last(
                    FramePart::StatusCode,
                ) ==> frame.status_code == number
            }
        }),
{
    let fields = parse_fields(data)->Ok_0;
    if let Some(part) = part_of(fields[last]) {
        if forall|i: int| last < i < fields.len() ==> part_of(#[trigger] fields[i]) != Some(part) {
            law_last_record_wins(data, part, last);
        }
    }
}

/// Fields of fixed width are stepped over, whatever their eight or four bytes are
/// and whatever follows.
pub proof fn law_fixed_fields_are_stepped_over(field: u64, value: Seq<u8>, rest: Seq<u8>)
    requires
        field <= 0x1fff_ffff_ffff_ffff,
    ensures
        value.len() == 8 ==> parse_field(varint(8 * field as nat + 1) + value + rest) == Ok::<
            (WireField, nat),
            Seq<char>,
        >((WireField::Fixed64 { field }, varint(8 * field as nat + 1).len() + 8)),
        value.len() == 4 ==> parse_field(varint(8 * field as nat + 5) + value + rest) == Ok::<
            (WireField, nat),
            Seq<char>,
        >((WireField::Fixed32 { field }, varint(8 * field as nat + 5).len() + 4)),
{
    let one = (8 * field + 1) as u64;
    let five = (8 * field + 5) as u64;
    law_varint_round_trip(one, value + rest);
    law_varint_round_trip(five, value + rest);
    assert(varint(one as nat) + value + rest =~= varint(one as nat) + (value + rest));
    assert(varint(five as nat) + value + rest =~= varint(five as nat) + (value + rest));
    assert((varint(one as nat) + (value + rest)).skip(varint(one as nat).len() as int) =~= value
        + rest);
    assert((varint(five as nat) + (value + rest)).skip(varint(five as nat).len() as int) =~= value
        + rest);
}

/// A field of bytes whose bytes are not all there is malformed, and so is a field of
/// a sort that is not known.
pub proof fn law_cut_and_unknown_fields_are_malformed(
    field: u64,
    value: Seq<u8>,
    kept: int,
    sort: nat,
    rest: Seq<u8>,
)
    requires
        field <= 0x1fff_ffff_ffff_ffff,
        value.len() <= u64::MAX,
        0 <= kept < value.len(),
        sort == 3 || sort == 4 || sort == 6 || sort == 7,
    ensures
        decoded(varint(8 * field as nat + 2) + varint(value.len()) + value.take(kept)) == Err::<
            FrameModel,
            Seq<char>,
        >("truncated SAMI bytes"@),
        decoded(varint(8 * field as nat + sort) + rest) == Err::<FrameModel, Seq<char>>(
            "unsupported SAMI wire type"@,
        ),
{
    let key = (8 * field + 2) as u64;
    let cut = value.take(kept);
    let tail = varint(value.len()) + cut;
    let whole = varint(key as nat) + varint(value.len()) + cut;
    law_varint_round_trip(key, tail);
    law_varint_round_trip(value.len() as u64, cut);
    assert(whole =~= varint(key as nat) + tail);
    assert(whole.skip(varint(key as nat).len() as int) =~= tail);
    let other = (8 * field + sort) as u64;
    law_varint_round_trip(other, rest);
}

/// A text looks like JSON if and only if its first character other than a space, a
/// line end, a carriage return or a tab opens an object or an array.
pub proof fn law_json_opens_with_a_bracket(before: Seq<char>, first: char, rest: Seq<char>)
    requires
        forall|i: int|
            0 <= i < before.len() ==> #[trigger] before[i] == ' ' || before[i] == '\n' || before[i]
                == '\r' || before[i] == '\t',
        first != ' ' && first != '\n' && first != '\r' && first != '\t',
    ensures
        json_like(before.push(first) + rest) <==> first == '{' || first == '[',
        !json_like(before),
{
    let whole = before.push(first) + rest;
    let at = before.len() as int;
    assert(whole[at] == first);
    assert forall|k: int| 0 <= k < at implies is_json_space(#[trigger] whole[k]) by {
        assert(whole[k] == before[k]);
    }
    if json_like(whole) {
        let i = choose|i: int|
            #![trigger whole[i]]
            0 <= i < whole.len() && (whole[i] == '{' || whole[i] == '[') && forall|k: int|
                0 <= k < i ==> is_json_space(#[trigger] whole[k]);
        if i > at {
            assert(is_json_space(whole[at]));
        } else if i < at {
            assert(is_json_space(whole[i]));
        }
    }
    if json_like(before) {
        let i = choose|i: int|
            #![trigger before[i]]
            0 <= i < before.len() && (before[i] == '{' || before[i] == '[') && forall|k: int|
                0 <= k < i ==> is_json_space(#[trigger] before[k]);
        assert(before[i] == ' ' || before[i] == '\n' || before[i] == '\r' || before[i] == '\t');
    }
}

/// Whether a field leaves every frame as it is: its number carries nothing
/// that is read, it is of fixed width, or its bytes are not UTF-8.
pub open spec fn is_ignored(field: WireField) -> bool {
    match field {
        WireField::Varint { field, .. } => field != 5,
        WireField::Bytes { field, value } => !vstd::utf8::valid_utf8(value) || field == 0 || field
            == 2 || field == 3 || field > 8,
        WireField::Fixed64 { .. } => true,
        WireField::Fixed32 { .. } => true,
    }
}

/// A well-formed message decodes to the same frame when a field that is
/// ignored follows it.
pub proof fn law_ignored_field_changes_nothing(message: Seq<u8>, extra: Seq<u8>)
    requires
        parse_fields(message) is Ok,
        parse_fields(extra) matches Ok(fields) && fields.len() == 1 && is_ignored(fields[0]),
    ensures
        decoded(message + extra) == decoded(message),
{
    law_messages_concatenate(message, extra);
    let fields = parse_fields(message)->Ok_0;
    let last = parse_fields(extra)->Ok_0[0];
    assert(fields + parse_fields(extra)->Ok_0 == fields.push(last));
    lemma_frame_push(fields, last);
}

/// A frame is known by each of its texts, its code and the whole of its payload.
pub proof fn law_frames_are_known_by_what_they_hold(frame: Frame)
    ensures
        frame@.request_id == frame.request_id@,
        frame@.event == frame.event@,
        frame@.status_code == frame.status_code,
        frame@.status_text == frame.status_text@,
        frame@.payload_json == frame.payload_json@,
{
}

} // verus!

//! Byte encoders for the X11 core requests the session's X authority smoke
//! tests send, and decoders for the integers of its replies. Every request
//! is a whole number of 4-byte units, in the byte order the client chose.

use vstd::prelude::*;
use vstd::string::StringSliceAdditionalSpecFns;

verus! {

broadcast use vstd::seq_lib::group_seq_properties;

/// The byte order a client announces in its connection setup.
#[derive(Clone, Copy, Debug, PartialEq, Eq, Structural)]
pub enum XByteOrder {
    LittleEndian,
    BigEndian,
}

impl XByteOrder {
    /// The setup byte of the order: `l` for little-endian, `B` for big-endian.
    pub open spec fn spec_marker(self) -> u8 {
        match self {
            XByteOrder::LittleEndian => 0x6c,
            XByteOrder::BigEndian => 0x42,
        }
    }

    pub fn marker(self) -> (byte: u8)
        ensures
            byte == self.spec_marker(),
    {
        match self {
            XByteOrder::LittleEndian => 0x6c,
            XByteOrder::BigEndian => 0x42,
        }
    }
}

/// The bytes of a `u16`, least significant first for little-endian.
pub open spec fn u16_bytes(order: XByteOrder, v: u16) -> Seq<u8> {
    let b0 = (v % 0x100) as u8;
    let b1 = (v / 0x100) as u8;
    match order {
        XByteOrder::LittleEndian => seq![b0, b1],
        XByteOrder::BigEndian => seq![b1, b0],
    }
}

/// The bytes of a `u32`, least significant first for little-endian.
pub open spec fn u32_bytes(order: XByteOrder, v: u32) -> Seq<u8> {
    let b0 = (v % 0x100) as u8;
    let b1 = (v / 0x100 % 0x100) as u8;
    let b2 = (v / 0x1_0000 % 0x100) as u8;
    let b3 = (v / 0x100_0000) as u8;
    match order {
        XByteOrder::LittleEndian => seq![b0, b1, b2, b3],
        XByteOrder::BigEndian => seq![b3, b2, b1, b0],
    }
}

/// The bytes of a `u64`, least significant first for little-endian.
pub open spec fn u64_bytes(order: XByteOrder, v: u64) -> Seq<u8> {
    let lo = u32_bytes(order, (v % 0x1_0000_0000) as u32);
    let hi = u32_bytes(order, (v / 0x1_0000_0000) as u32);
    match order {
        XByteOrder::LittleEndian => lo + hi,
        XByteOrder::BigEndian => hi + lo,
    }
}

/// The `u16` two bytes encode.
pub open spec fn u16_of(order: XByteOrder, b: Seq<u8>) -> int {
    match order {
        XByteOrder::LittleEndian => b[0] + b[1] * 0x100,
        XByteOrder::BigEndian => b[1] + b[0] * 0x100,
    }
}

/// The `u32` four bytes encode.
pub open spec fn u32_of(order: XByteOrder, b: Seq<u8>) -> int {
    match order {
        XByteOrder::LittleEndian => b[0] + b[1] * 0x100 + b[2] * 0x1_0000 + b[3] * 0x100_0000,
        XByteOrder::BigEndian => b[3] + b[2] * 0x100 + b[1] * 0x1_0000 + b[0] * 0x100_0000,
    }
}

/// `n` zero bytes.
pub open spec fn zeros(n: int) -> Seq<u8> {
    Seq::new(n as nat, |i: int| 0u8)
}

/// `len` rounded up to a multiple of four.
pub open spec fn padded_len(len: int) -> int {
    (len + 3) / 4 * 4
}

pub fn push_x11_u16(out: &mut Vec<u8>, byte_order: XByteOrder, value: u16)
    ensures
        final(out)@ == old(out)@ + u16_bytes(byte_order, value),
{
    let b0 = (value % 0x100) as u8;
    let b1 = (value / 0x100) as u8;
    match byte_order {
        XByteOrder::LittleEndian => {
            out.push(b0);
            out.push(b1);
        },
        XByteOrder::BigEndian => {
            out.push(b1);
            out.push(b0);
        },
    }
}

/// A signed 16-bit value goes out as its two's-complement bits.
pub fn push_x11_i16(out: &mut Vec<u8>, byte_order: XByteOrder, value: i16)
    ensures
        final(out)@ == old(out)@ + u16_bytes(byte_order, value as u16),
{
    push_x11_u16(out, byte_order, value as u16);
}

pub fn push_x11_u32(out: &mut Vec<u8>, byte_order: XByteOrder, value: u32)
    ensures
        final(out)@ == old(out)@ + u32_bytes(byte_order, value),
{
    let b0 = (value % 0x100) as u8;
    let b1 = (value / 0x100 % 0x100) as u8;
    let b2 = (value / 0x1_0000 % 0x100) as u8;
    let b3 = (value / 0x100_0000) as u8;
    match byte_order {
        XByteOrder::LittleEndian => {
            out.push(b0);
            out.push(b1);
            out.push(b2);
            out.push(b3);
        },
        XByteOrder::BigEndian => {
            out.push(b3);
            out.push(b2);
            out.push(b1);
            out.push(b0);
        },
    }
}

pub fn push_x11_u64(out: &mut Vec<u8>, byte_order: XByteOrder, value: u64)
    ensures
        final(out)@ == old(out)@ + u64_bytes(byte_order, value),
{
    let lo = (value % 0x1_0000_0000) as u32;
    let hi = (value / 0x1_0000_0000) as u32;
    match byte_order {
        XByteOrder::LittleEndian => {
            push_x11_u32(out, byte_order, lo);
            push_x11_u32(out, byte_order, hi);
        },
        XByteOrder::BigEndian => {
            push_x11_u32(out, byte_order, hi);
            push_x11_u32(out, byte_order, lo);
        },
    }
}

pub fn read_x11_u16(byte_order: XByteOrder, bytes: &[u8]) -> (value: u16)
    requires
        bytes@.len() == 2,
    ensures
        value == u16_of(byte_order, bytes@),
{
    match byte_order {
        XByteOrder::LittleEndian => bytes[0] as u16 + bytes[1] as u16 * 0x100,
        XByteOrder::BigEndian => bytes[1] as u16 + bytes[0] as u16 * 0x100,
    }
}

pub fn read_x11_u32(byte_order: XByteOrder, bytes: &[u8]) -> (value: u32)
    requires
        bytes@.len() == 4,
    ensures
        value == u32_of(byte_order, bytes@),
{
    match byte_order {
        XByteOrder::LittleEndian => bytes[0] as u32 + bytes[1] as u32 * 0x100 + bytes[2] as u32 * 0x1_0000
            + bytes[3] as u32 * 0x100_0000,
        XByteOrder::BigEndian => bytes[3] as u32 + bytes[2] as u32 * 0x100 + bytes[1] as u32 * 0x1_0000
            + bytes[0] as u32 * 0x100_0000,
    }
}

/// The length in bytes of the setup reply's body after its 8-byte prefix,
/// or the status byte when the server refused the connection (status 1 is
/// success).
pub fn x11_setup_reply_body_len(byte_order: XByteOrder, prefix: &[u8]) -> (len: Result<usize, u8>)
    requires
        prefix@.len() == 8,
    ensures
        len == if prefix@[0] == 1 {
            Ok::<usize, u8>((u16_of(byte_order, prefix@.subrange(6, 8)) * 4) as usize)
        } else {
            Err::<usize, u8>(prefix@[0])
        },
{
    if prefix[0] != 1 {
        return Err(prefix[0]);
    }
    let units = read_x11_u16(byte_order, &prefix[6..8]);
    Ok(units as usize * 4)
}

/// The length in bytes of a reply's body after its 32-byte prefix, from
/// the reply length field; none when it does not fit in memory.
pub fn x11_reply_body_len(byte_order: XByteOrder, prefix: &[u8]) -> (len: Option<usize>)
    requires
        prefix@.len() == 32,
    ensures
        len == if u32_of(byte_order, prefix@.subrange(4, 8)) * 4 <= usize::MAX {
            Some((u32_of(byte_order, prefix@.subrange(4, 8)) * 4) as usize)
        } else {
            None::<usize>
        },
{
    let units = read_x11_u32(byte_order, &prefix[4..8]);
    let units = units as u64;
    let bytes = units * 4;
    if bytes > usize::MAX as u64 {
        None
    } else {
        Some(bytes as usize)
    }
}

/// The atom of an InternAtom reply.
pub fn x11_intern_atom_reply_atom(byte_order: XByteOrder, reply: &[u8]) -> (atom: u32)
    requires
        reply@.len() >= 32,
    ensures
        atom == u32_of(byte_order, reply@.subrange(8, 12)),
{
    read_x11_u32(byte_order, &reply[8..12])
}

/// How many of `codes` equal `code`.
pub open spec fn count_code(codes: Seq<u8>, code: u8) -> nat
    decreases codes.len(),
{
    if codes.len() == 0 {
        0
    } else {
        count_code(codes.drop_last(), code) + if codes.last() == code {
            1nat
        } else {
            0nat
        }
    }
}

/// How many of the records received after the smoke's requests were
/// ConfigureNotify (22), MapNotify (19) and errors (0).
#[derive(Clone, Copy, Debug, PartialEq, Eq, Structural)]
pub struct X11RecordCounts {
    pub configure_notify: usize,
    pub map_notify: usize,
    pub errors: usize,
}

/// Counts the records by their first byte, the event code.
pub fn x11_record_counts(codes: &[u8]) -> (counts: X11RecordCounts)
    ensures
        counts.configure_notify == count_code(codes@, 22),
        counts.map_notify == count_code(codes@, 19),
        counts.errors == count_code(codes@, 0),
{
    let mut counts = X11RecordCounts { configure_notify: 0, map_notify: 0, errors: 0 };
    let mut i: usize = 0;
    while i < codes.len()
        invariant
            i <= codes@.len(),
            counts.configure_notify == count_code(codes@.subrange(0, i as int), 22),
            counts.map_notify == count_code(codes@.subrange(0, i as int), 19),
            counts.errors == count_code(codes@.subrange(0, i as int), 0),
            counts.configure_notify <= i,
            counts.map_notify <= i,
            counts.errors <= i,
        decreases codes@.len() - i,
    {
        assert(codes@.subrange(0, i + 1).drop_last() =~= codes@.subrange(0, i as int));
        let code = codes[i];
        if code == 22 {
            counts.configure_notify = counts.configure_notify + 1;
        } else if code == 19 {
            counts.map_notify = counts.map_notify + 1;
        } else if code == 0 {
            counts.errors = counts.errors + 1;
        }
        i = i + 1;
    }
    assert(codes@.subrange(0, codes@.len() as int) =~= codes@);
    counts
}

/// The value length of a GetProperty reply: its format-sized element count.
pub fn x11_get_property_reply_len(byte_order: XByteOrder, reply: &[u8]) -> (len: u32)
    requires
        reply@.len() >= 32,
    ensures
        len == u32_of(byte_order, reply@.subrange(16, 20)),
{
    read_x11_u32(byte_order, &reply[16..20])
}

/// Reading back what was written gives the value written.
pub proof fn lemma_x11_integers_round_trip(order: XByteOrder, a: u16, b: u32)
    ensures
        u16_of(order, u16_bytes(order, a)) == a,
        u32_of(order, u32_bytes(order, b)) == b,
{
    assert((a % 0x100) + (a / 0x100) * 0x100 == a) by (bit_vector);
    assert(a / 0x100 < 0x100) by (bit_vector);
    assert((b % 0x100) + (b / 0x100 % 0x100) * 0x100 + (b / 0x1_0000 % 0x100) * 0x1_0000 + (b / 0x100_0000)
        * 0x100_0000 == b) by (bit_vector);
    assert(b / 0x100_0000 < 0x100) by (bit_vector);
}

/// `len` rounded up to a multiple of four.
pub fn padded_x11_len(len: usize) -> (padded: usize)
    requires
        len + 3 <= usize::MAX,
    ensures
        padded == padded_len(len as int),
        padded % 4 == 0,
        len <= padded < len + 4,
{
    (len + 3) / 4 * 4
}

/// Zero bytes up to the next multiple of four.
pub fn pad_x11(out: &mut Vec<u8>)
    requires
        old(out)@.len() + 3 <= usize::MAX,
    ensures
        final(out)@ == old(out)@ + zeros(padded_len(old(out)@.len() as int) - old(out)@.len()),
{
    let target = padded_x11_len(out.len());
    let ghost start = out@;
    while out.len() < target
        invariant
            start.len() <= out@.len() <= target,
            target == padded_len(start.len() as int),
            out@ == start + zeros(out@.len() - start.len()),
        decreases target - out@.len(),
    {
        out.push(0);
        assert(out@ =~= start + zeros(out@.len() - start.len()));
    }
}

/// Appends `bytes`.
fn push_bytes(out: &mut Vec<u8>, bytes: &[u8])
    ensures
        final(out)@ == old(out)@ + bytes@,
{
    let mut i: usize = 0;
    while i < bytes.len()
        invariant
            i <= bytes@.len(),
            out@ == old(out)@ + bytes@.subrange(0, i as int),
        decreases bytes@.len() - i,
    {
        out.push(bytes[i]);
        i = i + 1;
    }
    assert(bytes@.subrange(0, bytes@.len() as int) =~= bytes@);
}

/// The connection setup of protocol 11.0 without authorization.
pub fn x11_setup_request(byte_order: XByteOrder) -> (out: Vec<u8>)
    ensures
        out@ == seq![byte_order.spec_marker(), 0u8] + u16_bytes(byte_order, 11) + u16_bytes(byte_order, 0)
            + u16_bytes(byte_order, 0) + u16_bytes(byte_order, 0) + u16_bytes(byte_order, 0),
{
    let mut out: Vec<u8> = Vec::new();
    out.push(byte_order.marker());
    out.push(0);
    push_x11_u16(&mut out, byte_order, 11);
    push_x11_u16(&mut out, byte_order, 0);
    push_x11_u16(&mut out, byte_order, 0);
    push_x11_u16(&mut out, byte_order, 0);
    push_x11_u16(&mut out, byte_order, 0);
    out
}

/// CreateWindow (opcode 1) of depth 24 under the root window 0x20, with a
/// border of 0, class InputOutput, the parent's visual and no attributes.
pub fn x11_create_window_request(byte_order: XByteOrder, window: u32, x: i16, y: i16, width: u16, height: u16) -> (out:
    Vec<u8>)
    ensures
        out@ == seq![1u8, 24u8] + u16_bytes(byte_order, 8) + u32_bytes(byte_order, window) + u32_bytes(
            byte_order,
            0x20,
        ) + u16_bytes(byte_order, x as u16) + u16_bytes(byte_order, y as u16) + u16_bytes(byte_order, width)
            + u16_bytes(byte_order, height) + u16_bytes(byte_order, 0) + u16_bytes(byte_order, 1) + u32_bytes(
            byte_order,
            0,
        ) + u32_bytes(byte_order, 0),
        out@.len() == 32,
{
    let mut out: Vec<u8> = Vec::new();
    out.push(1);
    out.push(24);
    push_x11_u16(&mut out, byte_order, 8);
    push_x11_u32(&mut out, byte_order, window);
    push_x11_u32(&mut out, byte_order, 0x20);
    push_x11_i16(&mut out, byte_order, x);
    push_x11_i16(&mut out, byte_order, y);
    push_x11_u16(&mut out, byte_order, width);
    push_x11_u16(&mut out, byte_order, height);
    push_x11_u16(&mut out, byte_order, 0);
    push_x11_u16(&mut out, byte_order, 1);
    push_x11_u32(&mut out, byte_order, 0);
    push_x11_u32(&mut out, byte_order, 0);
    out
}

/// A request that names one resource, such as MapWindow.
pub fn x11_resource_request(byte_order: XByteOrder, opcode: u8, id: u32) -> (out: Vec<u8>)
    ensures
        out@ == seq![opcode, 0u8] + u16_bytes(byte_order, 2) + u32_bytes(byte_order, id),
        out@.len() == 8,
{
    let mut out: Vec<u8> = Vec::new();
    out.push(opcode);
    out.push(0);
    push_x11_u16(&mut out, byte_order, 2);
    push_x11_u32(&mut out, byte_order, id);
    out
}

/// The fixed part of a request of the shape `opcode, data, length, name
/// length, unused, name, pad`, which InternAtom and QueryExtension share,
/// for a name of `name_len` bytes. The length and the name length are
/// 16-bit fields, so they wrap for names of 64 KiB and more.
pub open spec fn named_request_header(order: XByteOrder, opcode: u8, data: u8, name_len: int) -> Seq<u8> {
    seq![opcode, data] + u16_bytes(order, ((8 + padded_len(name_len)) / 4) as u16) + u16_bytes(
        order,
        name_len as u16,
    ) + u16_bytes(order, 0)
}

/// The whole request: the header, the name, and zeros up to a four-byte
/// boundary.
pub open spec fn named_request(order: XByteOrder, opcode: u8, data: u8, name: Seq<u8>) -> Seq<u8> {
    named_request_header(order, opcode, data, name.len() as int) + name + zeros(
        padded_len(name.len() as int) - name.len(),
    )
}

#[verifier::spinoff_prover]
#[verifier::rlimit(40)]
fn x11_named_request_header(byte_order: XByteOrder, opcode: u8, data: u8, name_len: usize) -> (out: Vec<u8>)
    requires
        name_len + 11 <= usize::MAX,
    ensures
        out@ == named_request_header(byte_order, opcode, data, name_len as int),
        out@.len() == 8,
{
    let mut out: Vec<u8> = Vec::new();
    out.push(opcode);
    out.push(data);
    let len_units = (8 + padded_x11_len(name_len)) / 4;
    push_x11_u16(&mut out, byte_order, len_units as u16);
    push_x11_u16(&mut out, byte_order, name_len as u16);
    push_x11_u16(&mut out, byte_order, 0);
    assert(out@ =~= named_request_header(byte_order, opcode, data, name_len as int));
    out
}

#[verifier::spinoff_prover]
#[verifier::rlimit(40)]
fn x11_named_request(byte_order: XByteOrder, opcode: u8, data: u8, name: &str) -> (out: Vec<u8>)
    requires
        name.spec_bytes().len() + 11 <= usize::MAX,
    ensures
        out@ == named_request(byte_order, opcode, data, name.spec_bytes()),
        out@.len() == 8 + padded_len(name.spec_bytes().len() as int),
{
    let bytes = name.as_bytes();
    let mut out = x11_named_request_header(byte_order, opcode, data, bytes.len());
    let ghost header = out@;
    push_bytes(&mut out, bytes);
    let ghost before_pad = out@;
    assert(before_pad.len() == 8 + bytes@.len());
    pad_x11(&mut out);
    assert(padded_len(before_pad.len() as int) - before_pad.len() == padded_len(bytes@.len() as int)
        - bytes@.len());
    assert(out@ =~= header + bytes@ + zeros(padded_len(bytes@.len() as int) - bytes@.len()));
    out
}

/// InternAtom (opcode 16) of `name`.
pub fn x11_intern_atom_request(byte_order: XByteOrder, only_if_exists: bool, name: &str) -> (out: Vec<u8>)
    requires
        name.spec_bytes().len() + 11 <= usize::MAX,
    ensures
        out@ == named_request(byte_order, 16, if only_if_exists { 1 } else { 0 }, name.spec_bytes()),
        out@.len() == 8 + padded_len(name.spec_bytes().len() as int),
{
    x11_named_request(byte_order, 16, if only_if_exists { 1 } else { 0 }, name)
}

/// QueryExtension (opcode 98) of `name`.
pub fn x11_query_extension_request(byte_order: XByteOrder, name: &str) -> (out: Vec<u8>)
    requires
        name.spec_bytes().len() + 11 <= usize::MAX,
    ensures
        out@ == named_request(byte_order, 98, 0, name.spec_bytes()),
        out@.len() == 8 + padded_len(name.spec_bytes().len() as int),
{
    x11_named_request(byte_order, 98, 0, name)
}

/// The session's PresentPixmap extension request: a pixmap presented in a
/// window with its damage, on top of a committed generation, with a
/// timeout. The extension's major and minor opcodes come from the server.
pub fn x11_sophia_present_pixmap_request(
    byte_order: XByteOrder,
    major_opcode: u8,
    minor_opcode: u8,
    window: u32,
    pixmap: u32,
    damage: (i16, i16, u16, u16),
    previous_committed_generation: u64,
    timeout_msec: u32,
) -> (out: Vec<u8>)
    ensures
        out@ == seq![major_opcode, minor_opcode] + u16_bytes(byte_order, 8) + u32_bytes(byte_order, window)
            + u32_bytes(byte_order, pixmap) + u16_bytes(byte_order, damage.0 as u16) + u16_bytes(
            byte_order,
            damage.1 as u16,
        ) + u16_bytes(byte_order, damage.2) + u16_bytes(byte_order, damage.3) + u64_bytes(
            byte_order,
            previous_committed_generation,
        ) + u32_bytes(byte_order, timeout_msec),
        out@.len() == 32,
{
    let mut out: Vec<u8> = Vec::new();
    out.push(major_opcode);
    out.push(minor_opcode);
    push_x11_u16(&mut out, byte_order, 8);
    push_x11_u32(&mut out, byte_order, window);
    push_x11_u32(&mut out, byte_order, pixmap);
    push_x11_i16(&mut out, byte_order, damage.0);
    push_x11_i16(&mut out, byte_order, damage.1);
    push_x11_u16(&mut out, byte_order, damage.2);
    push_x11_u16(&mut out, byte_order, damage.3);
    push_x11_u64(&mut out, byte_order, previous_committed_generation);
    push_x11_u32(&mut out, byte_order, timeout_msec);
    out
}

/// The fixed part of a ChangeProperty request (opcode 18, mode Replace,
/// format 8) announcing `data_len` bytes of data. The length and element
/// count fields wrap for data too long to describe.
pub open spec fn change_property_header(
    order: XByteOrder,
    window: u32,
    property: u32,
    property_type: u32,
    data_len: int,
) -> Seq<u8> {
    seq![18u8, 0u8] + u16_bytes(order, ((24 + padded_len(data_len)) / 4) as u16) + u32_bytes(order, window)
        + u32_bytes(order, property) + u32_bytes(order, property_type) + seq![8u8, 0u8, 0u8, 0u8] + u32_bytes(
        order,
        data_len as u32,
    )
}

/// ChangeProperty of 8-bit `bytes`: the header, the data, and zeros up to
/// a four-byte boundary.
pub open spec fn change_property_request(
    order: XByteOrder,
    window: u32,
    property: u32,
    property_type: u32,
    bytes: Seq<u8>,
) -> Seq<u8> {
    change_property_header(order, window, property, property_type, bytes.len() as int) + bytes + zeros(
        padded_len(bytes.len() as int) - bytes.len(),
    )
}

#[verifier::spinoff_prover]
#[verifier::rlimit(40)]
fn x11_change_property_header(
    byte_order: XByteOrder,
    window: u32,
    property: u32,
    property_type: u32,
    data_len: usize,
) -> (out: Vec<u8>)
    requires
        data_len + 27 <= usize::MAX,
    ensures
        out@ == change_property_header(byte_order, window, property, property_type, data_len as int),
        out@.len() == 24,
{
    let mut out: Vec<u8> = Vec::new();
    out.push(18);
    out.push(0);
    let len_units = (24 + padded_x11_len(data_len)) / 4;
    push_x11_u16(&mut out, byte_order, len_units as u16);
    push_x11_u32(&mut out, byte_order, window);
    push_x11_u32(&mut out, byte_order, property);
    push_x11_u32(&mut out, byte_order, property_type);
    out.push(8);
    out.push(0);
    out.push(0);
    out.push(0);
    push_x11_u32(&mut out, byte_order, data_len as u32);
    assert(out@ =~= change_property_header(byte_order, window, property, property_type, data_len as int));
    out
}

#[verifier::spinoff_prover]
#[verifier::rlimit(40)]
pub fn x11_change_property_request(
    byte_order: XByteOrder,
    window: u32,
    property: u32,
    property_type: u32,
    bytes: &[u8],
) -> (out: Vec<u8>)
    requires
        bytes@.len() + 27 <= usize::MAX,
    ensures
        out@ == change_property_request(byte_order, window, property, property_type, bytes@),
        out@.len() == 24 + padded_len(bytes@.len() as int),
{
    let mut out = x11_change_property_header(byte_order, window, property, property_type, bytes.len());
    let ghost header = out@;
    push_bytes(&mut out, bytes);
    let ghost before_pad = out@;
    assert(before_pad.len() == 24 + bytes@.len());
    pad_x11(&mut out);
    assert(padded_len(before_pad.len() as int) - before_pad.len() == padded_len(bytes@.len() as int)
        - bytes@.len());
    assert(out@ =~= header + bytes@ + zeros(padded_len(bytes@.len() as int) - bytes@.len()));
    out
}

/// GetProperty (opcode 20, delete false).
pub fn x11_get_property_request(
    byte_order: XByteOrder,
    window: u32,
    property: u32,
    property_type: u32,
    long_offset: u32,
    long_length: u32,
) -> (out: Vec<u8>)
    ensures
        out@ == seq![20u8, 0u8] + u16_bytes(byte_order, 6) + u32_bytes(byte_order, window) + u32_bytes(
            byte_order,
            property,
        ) + u32_bytes(byte_order, property_type) + u32_bytes(byte_order, long_offset) + u32_bytes(
            byte_order,
            long_length,
        ),
        out@.len() == 24,
{
    let mut out: Vec<u8> = Vec::new();
    out.push(20);
    out.push(0);
    push_x11_u16(&mut out, byte_order, 6);
    push_x11_u32(&mut out, byte_order, window);
    push_x11_u32(&mut out, byte_order, property);
    push_x11_u32(&mut out, byte_order, property_type);
    push_x11_u32(&mut out, byte_order, long_offset);
    push_x11_u32(&mut out, byte_order, long_length);
    out
}

} // verus!

//! The frames that go over a socket, and where the sockets are.
//!
//! A frame is its length, as four bytes with the highest first, and then its
//! payload. A payload is JSON, or the output of a terminal: a marker byte, the
//! number of a prompt as eight bytes, and the bytes that came from it.

use vstd::prelude::*;
use vstd::string::*;

use crate::paths::{join_path, joined_path};
use crate::text;

verus! {

/// The longest payload that is read.
pub const MAX_FRAME_SIZE: usize = 16_777_216;

/// The first byte of a payload that is the output of a terminal.
pub const PTY_FRAME_MARKER: u8 = 1;

// ---------------------------------------------------------------------
// Numbers as bytes
// ---------------------------------------------------------------------

/// The last `k` bytes of `n`, the highest first.
pub open spec fn big_endian(n: nat, k: nat) -> Seq<u8>
    decreases k,
{
    if k == 0 {
        Seq::empty()
    } else {
        big_endian(n / 256, (k - 1) as nat).push((n % 256) as u8)
    }
}

/// The number whose bytes are `b`, the highest first.
pub open spec fn value_of(b: Seq<u8>) -> nat
    decreases b.len(),
{
    if b.len() == 0 {
        0
    } else {
        value_of(b.drop_last()) * 256 + b.last() as nat
    }
}

/// 256 to the `k`.
pub open spec fn byte_range(k: nat) -> nat
    decreases k,
{
    if k == 0 {
        1
    } else {
        byte_range((k - 1) as nat) * 256
    }
}

/// The bytes of a number have its value, where there are enough of them.
pub proof fn big_endian_value(n: nat, k: nat)
    requires
        n < byte_range(k),
    ensures
        big_endian(n, k).len() == k,
        value_of(big_endian(n, k)) == n,
    decreases k,
{
    if k > 0 {
        big_endian_value(n / 256, (k - 1) as nat);
        assert(big_endian(n, k).drop_last() =~= big_endian(n / 256, (k - 1) as nat));
    }
}

/// `k` bytes have a value below 256 to the `k`.
proof fn value_bound(b: Seq<u8>)
    ensures
        value_of(b) < byte_range(b.len()),
    decreases b.len(),
{
    if b.len() > 0 {
        value_bound(b.drop_last());
    }
}

/// 256 to the fourth and to the eighth.
proof fn byte_ranges()
    ensures
        byte_range(4) == 0x1_0000_0000,
        byte_range(8) == 0x1_0000_0000_0000_0000,
{
    reveal_with_fuel(byte_range, 9);
}

/// The last `k` bytes of `n`, the highest first.
fn to_big_endian(n: u64, k: usize) -> (r: Vec<u8>)
    ensures
        r@ == big_endian(n as nat, k as nat),
{
    let mut out: Vec<u8> = Vec::new();
    let mut rest: u64 = n;
    let mut i: usize = 0;
    proof {
        assert(big_endian(n as nat, k as nat) + out@ =~= big_endian(n as nat, k as nat));
    }
    while i < k
        invariant
            i <= k,
            big_endian(n as nat, k as nat) == big_endian(rest as nat, (k - i) as nat) + out@,
        decreases k - i,
    {
        let ghost o = out@;
        let low: u8 = (rest % 256) as u8;
        out.insert(0, low);
        proof {
            assert(out@ =~= seq![low] + o);
            assert(big_endian(rest as nat, (k - i) as nat) + o =~= big_endian(
                (rest / 256) as nat,
                (k - i - 1) as nat,
            ) + out@);
        }
        rest = rest / 256;
        i = i + 1;
    }
    proof {
        assert(big_endian(rest as nat, 0) + out@ =~= out@);
    }
    out
}

/// The number whose bytes are `b[from..to]`, the highest first.
fn from_big_endian(b: &Vec<u8>, from: usize, to: usize) -> (r: u64)
    requires
        from <= to <= b.len(),
        to - from <= 8,
    ensures
        r == value_of(b@.subrange(from as int, to as int)),
{
    let mut value: u64 = 0;
    let mut i: usize = from;
    while i < to
        invariant
            from <= i <= to <= b.len(),
            to - from <= 8,
            value == value_of(b@.subrange(from as int, i as int)),
        decreases to - i,
    {
        proof {
            let s = b@.subrange(from as int, i as int);
            let t = b@.subrange(from as int, i + 1);
            assert(t.drop_last() =~= s);
            value_bound(t);
            byte_ranges();
            range_grows(t.len(), 8);
        }
        value = value * 256 + b[i] as u64;
        i = i + 1;
    }
    value
}

/// More bytes hold more.
proof fn range_grows(a: nat, b: nat)
    requires
        a <= b,
    ensures
        byte_range(a) <= byte_range(b),
    decreases b,
{
    if a < b {
        range_grows(a, (b - 1) as nat);
    }
}

// ---------------------------------------------------------------------
// Frames
// ---------------------------------------------------------------------

/// A payload as a frame. The length stands in four bytes; of a longer payload
/// they hold what is left of it.
pub open spec fn frame_of(payload: Seq<u8>) -> Seq<u8> {
    big_endian((payload.len() % 0x1_0000_0000) as nat, 4) + payload
}

/// A payload as a frame.
pub fn encode_frame(payload: &[u8]) -> (r: Vec<u8>)
    ensures
        r@ == frame_of(payload@),
{
    let n: u64 = payload.len() as u64 % 0x1_0000_0000;
    let mut out: Vec<u8> = to_big_endian(n, 4);
    let ghost head = out@;
    let mut i: usize = 0;
    proof {
        assert(out@ =~= head + payload@.take(0));
    }
    while i < payload.len()
        invariant
            i <= payload.len(),
            out@ == head + payload@.take(i as int),
        decreases payload.len() - i,
    {
        out.push(payload[i]);
        proof {
            assert(out@ =~= head + payload@.take(i + 1));
        }
        i = i + 1;
    }
    proof {
        assert(payload@.take(payload@.len() as int) =~= payload@);
    }
    out
}

/// What can be read at the front of the bytes that came in.
#[derive(Debug, PartialEq)]
pub enum FrameRead {
    /// The frame is not there as a whole yet.
    Incomplete,
    /// The frame is longer than any that is read.
    TooLarge { len: usize },
    /// A payload; the frame takes `used` bytes.
    Payload { payload: Vec<u8>, used: usize },
}

/// What can be read at the front of the bytes that came in.
pub ghost enum FrameReadView {
    Incomplete,
    TooLarge { len: nat },
    Payload { payload: Seq<u8>, used: nat },
}

impl View for FrameRead {
    type V = FrameReadView;

    open spec fn view(&self) -> FrameReadView {
        match *self {
            FrameRead::Incomplete => FrameReadView::Incomplete,
            FrameRead::TooLarge { len } => FrameReadView::TooLarge { len: len as nat },
            FrameRead::Payload { payload, used } => FrameReadView::Payload {
                payload: payload@,
                used: used as nat,
            },
        }
    }
}

/// What can be read at the front of the bytes that came in.
pub open spec fn first_frame(bytes: Seq<u8>) -> FrameReadView {
    if bytes.len() < 4 {
        FrameReadView::Incomplete
    } else {
        let len = value_of(bytes.take(4));
        if len > MAX_FRAME_SIZE {
            FrameReadView::TooLarge { len }
        } else if bytes.len() < 4 + len {
            FrameReadView::Incomplete
        } else {
            FrameReadView::Payload { payload: bytes.subrange(4, 4 + len as int), used: 4 + len }
        }
    }
}

/// What can be read at the front of the bytes that came in.
pub fn read_frame(bytes: &Vec<u8>) -> (r: FrameRead)
    ensures
        r@ == first_frame(bytes@),
{
    if bytes.len() < 4 {
        return FrameRead::Incomplete;
    }
    let len: u64 = from_big_endian(bytes, 0, 4);
    proof {
        assert(bytes@.subrange(0, 4) =~= bytes@.take(4));
        value_bound(bytes@.take(4));
        byte_ranges();
    }
    let len: usize = len as usize;
    if len > MAX_FRAME_SIZE {
        return FrameRead::TooLarge { len };
    }
    if bytes.len() - 4 < len {
        return FrameRead::Incomplete;
    }
    let mut payload: Vec<u8> = Vec::new();
    let mut i: usize = 0;
    while i < len
        invariant
            i <= len,
            4 + len <= bytes.len(),
            payload@ == bytes@.subrange(4, 4 + i as int),
        decreases len - i,
    {
        payload.push(bytes[4 + i]);
        proof {
            assert(payload@ =~= bytes@.subrange(4, 4 + i as int + 1));
        }
        i = i + 1;
    }
    FrameRead::Payload { payload, used: 4 + len }
}

/// What was written as a frame is read back, whatever comes behind it.
pub proof fn frame_is_read_back(payload: Seq<u8>, rest: Seq<u8>)
    requires
        payload.len() <= MAX_FRAME_SIZE,
    ensures
        first_frame(frame_of(payload) + rest) == (FrameReadView::Payload {
            payload,
            used: frame_of(payload).len(),
        }),
{
    let bytes = frame_of(payload) + rest;
    let head = big_endian(payload.len(), 4);
    byte_ranges();
    big_endian_value(payload.len(), 4);
    assert(bytes.take(4) =~= head);
    assert(bytes.subrange(4, 4 + payload.len() as int) =~= payload);
}

/// A frame that is not there as a whole is not read, and what is read does not
/// depend on what comes behind it.
pub proof fn frame_prefix(bytes: Seq<u8>, rest: Seq<u8>)
    requires
        first_frame(bytes) is Payload,
    ensures
        first_frame(bytes + rest) == first_frame(bytes),
{
    assert((bytes + rest).take(4) =~= bytes.take(4));
    let len = value_of(bytes.take(4));
    assert((bytes + rest).subrange(4, 4 + len as int) =~= bytes.subrange(4, 4 + len as int));
}

// ---------------------------------------------------------------------
// Terminal output
// ---------------------------------------------------------------------

/// Whether a payload is the output of a terminal.
pub open spec fn is_pty(payload: Seq<u8>) -> bool {
    payload.len() > 0 && payload[0] == PTY_FRAME_MARKER
}

/// Whether a payload is the output of a terminal.
pub fn is_binary_frame(payload: &Vec<u8>) -> (r: bool)
    ensures
        r == is_pty(payload@),
{
    payload.len() > 0 && payload[0] == PTY_FRAME_MARKER
}

/// The output of the terminal of a prompt, as a payload.
pub open spec fn pty_payload(prompt_id: nat, data: Seq<u8>) -> Seq<u8> {
    seq![PTY_FRAME_MARKER] + big_endian(prompt_id, 8) + data
}

/// The output of the terminal of a prompt, as a payload.
pub fn encode_pty_frame(prompt_id: usize, data: &Vec<u8>) -> (r: Vec<u8>)
    ensures
        r@ == pty_payload(prompt_id as nat, data@),
{
    let mut out: Vec<u8> = vec![PTY_FRAME_MARKER];
    let mut id: Vec<u8> = to_big_endian(prompt_id as u64, 8);
    let ghost id0 = id@;
    out.append(&mut id);
    let mut i: usize = 0;
    let ghost head = out@;
    proof {
        assert(head =~= seq![PTY_FRAME_MARKER] + id0);
        assert(out@ =~= head + data@.take(0));
    }
    while i < data.len()
        invariant
            i <= data.len(),
            out@ == head + data@.take(i as int),
        decreases data.len() - i,
    {
        out.push(data[i]);
        proof {
            assert(out@ =~= head + data@.take(i + 1));
        }
        i = i + 1;
    }
    proof {
        assert(data@.take(data@.len() as int) =~= data@);
    }
    out
}

/// The prompt and the bytes of a payload that is the output of a terminal.
pub open spec fn pty_output(payload: Seq<u8>) -> Option<(nat, Seq<u8>)> {
    if !is_pty(payload) || payload.len() < 9 || value_of(payload.subrange(1, 9)) > usize::MAX {
        None
    } else {
        Some((value_of(payload.subrange(1, 9)), payload.skip(9)))
    }
}

/// The prompt and the bytes of a payload that is the output of a terminal.
pub fn decode_pty_frame(payload: &Vec<u8>) -> (r: Option<(usize, Vec<u8>)>)
    ensures
        (match r {
            Some((id, data)) => Some((id as nat, data@)),
            None => None,
        }) == pty_output(payload@),
{
    if !is_binary_frame(payload) || payload.len() < 9 {
        return None;
    }
    let id: u64 = from_big_endian(payload, 1, 9);
    if id > usize::MAX as u64 {
        return None;
    }
    let mut data: Vec<u8> = Vec::new();
    let mut i: usize = 9;
    while i < payload.len()
        invariant
            9 <= i <= payload.len(),
            data@ == payload@.subrange(9, i as int),
        decreases payload.len() - i,
    {
        data.push(payload[i]);
        proof {
            assert(data@ =~= payload@.subrange(9, i + 1));
        }
        i = i + 1;
    }
    proof {
        assert(data@ =~= payload@.skip(9));
    }
    Some((id as usize, data))
}

/// What a terminal put out is read back.
pub proof fn pty_output_is_read_back(prompt_id: usize, data: Seq<u8>)
    ensures
        is_pty(pty_payload(prompt_id as nat, data)),
        pty_output(pty_payload(prompt_id as nat, data)) == Some((prompt_id as nat, data)),
{
    let p = pty_payload(prompt_id as nat, data);
    byte_ranges();
    big_endian_value(prompt_id as nat, 8);
    assert(p.subrange(1, 9) =~= big_endian(prompt_id as nat, 8));
    assert(p.skip(9) =~= data);
}

/// A JSON object is never taken for the output of a terminal.
pub proof fn json_is_not_pty(payload: Seq<u8>)
    requires
        payload.len() > 0,
        payload[0] == 0x7b,
    ensures
        !is_pty(payload),
{
}

// ---------------------------------------------------------------------
// What comes in
// ---------------------------------------------------------------------

/// What stands at the front of the bytes that came in; a frame takes `used`
/// of them.
#[derive(Debug, PartialEq)]
pub enum Incoming {
    /// Not a whole frame yet.
    Incomplete,
    /// A frame that is not read.
    TooLarge { len: usize },
    /// Output of a terminal.
    Pty { prompt_id: usize, data: Vec<u8>, used: usize },
    /// A payload that is marked as output of a terminal, but is none.
    BadPty { used: usize },
    /// Anything else.
    Json { payload: Vec<u8>, used: usize },
}

/// Whether `r` is what stands at the front of `bytes`.
pub open spec fn is_incoming(r: Incoming, bytes: Seq<u8>) -> bool {
    match first_frame(bytes) {
        FrameReadView::Incomplete => r is Incomplete,
        FrameReadView::TooLarge { len } => r matches Incoming::TooLarge { len: l } && l == len,
        FrameReadView::Payload { payload, used } => if !is_pty(payload) {
            r matches Incoming::Json { payload: p, used: u } && p@ == payload && u == used
        } else {
            match pty_output(payload) {
                Some((id, data)) => r matches Incoming::Pty { prompt_id, data: d, used: u }
                    && prompt_id == id && d@ == data && u == used,
                None => r matches Incoming::BadPty { used: u } && u == used,
            }
        },
    }
}

/// What stands at the front of the bytes that came in.
pub fn next_incoming(bytes: &Vec<u8>) -> (r: Incoming)
    ensures
        is_incoming(r, bytes@),
{
    match read_frame(bytes) {
        FrameRead::Incomplete => Incoming::Incomplete,
        FrameRead::TooLarge { len } => Incoming::TooLarge { len },
        FrameRead::Payload { payload, used } => {
            if !is_binary_frame(&payload) {
                return Incoming::Json { payload, used };
            }
            match decode_pty_frame(&payload) {
                Some((prompt_id, data)) => Incoming::Pty { prompt_id, data, used },
                None => Incoming::BadPty { used },
            }
        },
    }
}

// ---------------------------------------------------------------------
// Places
// ---------------------------------------------------------------------

/// The place of a file of the daemon.
pub open spec fn daemon_file(data_dir: Option<Seq<char>>, name: Seq<char>) -> Seq<char> {
    joined_path(
        match data_dir {
            Some(d) => d,
            None => "/tmp/clhorde"@,
        },
        name,
    )
}

/// The place of a file of the daemon.
fn file_in(data_dir: &Option<String>, name: &str) -> (r: String)
    ensures
        r@ == daemon_file(text::text_option(*data_dir), name@),
{
    match data_dir {
        Some(d) => join_path(d.as_str(), name),
        None => join_path("/tmp/clhorde", name),
    }
}

/// The socket of the daemon.
pub fn daemon_socket_path(data_dir: &Option<String>) -> (r: String)
    ensures
        r@ == daemon_file(text::text_option(*data_dir), "daemon.sock"@),
{
    file_in(data_dir, "daemon.sock")
}

/// The file that holds the process id of the daemon.
pub fn daemon_pid_path(data_dir: &Option<String>) -> (r: String)
    ensures
        r@ == daemon_file(text::text_option(*data_dir), "daemon.pid"@),
{
    file_in(data_dir, "daemon.pid")
}

/// The control socket of the scheduler.
pub fn scheduler_socket_path(data_dir: &Option<String>) -> (r: String)
    ensures
        r@ == daemon_file(text::text_option(*data_dir), "scheduler.sock"@),
{
    file_in(data_dir, "scheduler.sock")
}

// ---------------------------------------------------------------------
// How frames are laid out
// ---------------------------------------------------------------------

/// The number that four bytes are, the highest first.
pub open spec fn four_bytes(b: Seq<u8>) -> int {
    b[0] * 16_777_216 + b[1] * 65_536 + b[2] * 256 + b[3]
}

/// Four bytes have the value of the number that they are.
proof fn four_bytes_are(b: Seq<u8>)
    requires
        b.len() == 4,
    ensures
        value_of(b) == four_bytes(b),
{
    reveal_with_fuel(value_of, 5);
    let c = b.drop_last();
    let d = c.drop_last();
    let e = d.drop_last();
    assert(e.drop_last() =~= Seq::<u8>::empty());
    assert(b.last() == b[3] && c.last() == b[2] && d.last() == b[1] && e.last() == b[0]);
}

/// A frame is the length of its payload in four bytes, the highest first, and
/// then the payload.
pub proof fn frames_carry_their_length(payload: Seq<u8>)
    requires
        payload.len() < 0x1_0000_0000,
    ensures
        frame_of(payload).len() == payload.len() + 4,
        four_bytes(frame_of(payload)) == payload.len(),
        frame_of(payload).skip(4) == payload,
{
    let head = big_endian(payload.len(), 4);
    byte_ranges();
    big_endian_value(payload.len(), 4);
    four_bytes_are(head);
    assert(frame_of(payload).skip(4) =~= payload);
}

/// A frame is refused exactly where its length is above the limit, and waited
/// for exactly where not all of it is there; otherwise its payload is read, and
/// no more than the frame is used up.
pub proof fn whole_frames_are_read(bytes: Seq<u8>)
    ensures
        bytes.len() < 4 ==> first_frame(bytes) is Incomplete,
        bytes.len() >= 4 ==> {
            let n = four_bytes(bytes);
            &&& first_frame(bytes) is TooLarge <==> n > 16_777_216
            &&& first_frame(bytes) is Incomplete <==> n <= 16_777_216 && bytes.len() < 4 + n
            &&& first_frame(bytes) matches FrameReadView::Payload { payload, used } ==> used == 4 + n
                && payload == bytes.subrange(4, 4 + n)
            &&& first_frame(bytes) matches FrameReadView::TooLarge { len } ==> len == n
        },
{
    if bytes.len() >= 4 {
        four_bytes_are(bytes.take(4));
        let t = bytes.take(4);
        assert(t[0] == bytes[0] && t[1] == bytes[1] && t[2] == bytes[2] && t[3] == bytes[3]);
    }
}

/// What comes in is told apart by its first byte: output of a terminal, with its
/// prompt, or a request or event.
pub proof fn payloads_are_told_apart(r: Incoming, payload: Seq<u8>, rest: Seq<u8>)
    requires
        payload.len() <= MAX_FRAME_SIZE,
        is_incoming(r, frame_of(payload) + rest),
    ensures
        r is Json <==> !(payload.len() > 0 && payload[0] == 1),
        r matches Incoming::Json { payload: p, used } ==> p@ == payload && used == payload.len() + 4,
        r matches Incoming::Pty { prompt_id, data, used } ==> used == payload.len() + 4
            && payload.len() >= 9 && data@ == payload.skip(9) && prompt_id == value_of(
            payload.subrange(1, 9),
        ),
        !(r is Incomplete) && !(r is TooLarge),
{
    frame_is_read_back(payload, rest);
    byte_ranges();
    big_endian_value(payload.len(), 4);
}

} // verus!

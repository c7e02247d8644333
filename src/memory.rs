//! Foreign memory as the rest of the library sees it: addresses, read
//! requests and their replies, and an in-process image that answers them.
use vstd::prelude::*;

verus! {

/// One probe-then-read of foreign memory.
///
/// `Bytes` asks for `width` bytes at `addr`; the reply is `None` when any of
/// them fails the readability probe. `Text` asks for the NUL-terminated byte
/// string at `addr`; the reply holds the bytes before the terminator.
#[derive(Clone, Copy, Debug, PartialEq, Eq, Structural)]
pub enum ReadRequest {
    Bytes { addr: u64, width: u64 },
    Text { addr: u64 },
}

/// What a source of foreign memory answers to each request.
pub type Memory = spec_fn(ReadRequest) -> Option<Seq<u8>>;

/// `base` moved by a signed byte offset, or `None` when the result leaves the
/// address space.
pub open spec fn offset_addr(base: u64, offset: i64) -> Option<u64> {
    let a = base as int + offset as int;
    if 0 <= a <= u64::MAX as int {
        Some(a as u64)
    } else {
        None
    }
}

pub fn offset_address(base: u64, offset: i64) -> (r: Option<u64>)
    ensures
        r == offset_addr(base, offset),
{
    let a: i128 = base as i128 + offset as i128;
    if 0 <= a && a <= u64::MAX as i128 {
        Some(a as u64)
    } else {
        None
    }
}

/// The `width` bytes at `addr`, when the memory answers with exactly that many.
pub open spec fn bytes_at(mem: Memory, addr: u64, width: u64) -> Option<Seq<u8>> {
    match mem(ReadRequest::Bytes { addr, width }) {
        Some(b) => if b.len() == width {
            Some(b)
        } else {
            None
        },
        None => None,
    }
}

/// Little-endian reading of four bytes.
pub open spec fn le_u32(b: Seq<u8>) -> u32 {
    (b[0] as u32) | ((b[1] as u32) << 8u32) | ((b[2] as u32) << 16u32) | ((b[3] as u32) << 24u32)
}

/// Little-endian reading of eight bytes.
pub open spec fn le_u64(b: Seq<u8>) -> u64 {
    (b[0] as u64) | ((b[1] as u64) << 8u64) | ((b[2] as u64) << 16u64) | ((b[3] as u64) << 24u64)
        | ((b[4] as u64) << 32u64) | ((b[5] as u64) << 40u64) | ((b[6] as u64) << 48u64) | ((
    b[7] as u64) << 56u64)
}

pub fn read_u32_le(b: &[u8]) -> (r: u32)
    requires
        b@.len() >= 4,
    ensures
        r == le_u32(b@),
{
    (b[0] as u32) | ((b[1] as u32) << 8u32) | ((b[2] as u32) << 16u32) | ((b[3] as u32) << 24u32)
}

pub fn read_u64_le(b: &[u8]) -> (r: u64)
    requires
        b@.len() >= 8,
    ensures
        r == le_u64(b@),
{
    (b[0] as u64) | ((b[1] as u64) << 8u64) | ((b[2] as u64) << 16u64) | ((b[3] as u64) << 24u64)
        | ((b[4] as u64) << 32u64) | ((b[5] as u64) << 40u64) | ((b[6] as u64) << 48u64) | ((
    b[7] as u64) << 56u64)
}

/// Byte `i` of a run of little-endian `f32` values can belong to a zero:
/// every bit is clear, but for the sign bit in the top byte of each value.
pub open spec fn zero_float_byte(b: Seq<u8>, i: int) -> bool {
    b[i] == 0 || (i % 4 == 3 && b[i] == 0x80)
}

/// Every `f32` in `b` compares equal to `0.0` (`+0.0` or `-0.0`).
pub open spec fn floats_all_zero(b: Seq<u8>) -> bool {
    forall|i: int| 0 <= i < b.len() ==> #[trigger] zero_float_byte(b, i)
}

pub fn all_zero_floats(b: &[u8]) -> (r: bool)
    ensures
        r == floats_all_zero(b@),
{
    let mut i: usize = 0;
    while i < b.len()
        invariant
            i <= b@.len(),
            forall|j: int| 0 <= j < i ==> #[trigger] zero_float_byte(b@, j),
        decreases b@.len() - i,
    {
        if !(b[i] == 0 || (i % 4 == 3 && b[i] == 0x80)) {
            assert(!zero_float_byte(b@, i as int));
            return false;
        }
        i += 1;
    }
    true
}

/// One readable stretch of a memory image: `bytes` lie at `base` onwards.
#[derive(Debug)]
pub struct Region {
    pub base: u64,
    pub bytes: Vec<u8>,
}

/// `width` bytes from `addr` lie inside the region.
pub open spec fn region_covers(r: Region, addr: u64, width: u64) -> bool {
    r.base <= addr && addr + width <= r.base + r.bytes@.len()
}

/// The bytes of `b` from `i` up to the first zero byte, when there is one.
pub open spec fn text_from(b: Seq<u8>, i: int) -> Option<Seq<u8>>
    decreases b.len() - i,
{
    if i < 0 || i >= b.len() {
        None
    } else if b[i] == 0 {
        Some(Seq::empty())
    } else {
        match text_from(b, i + 1) {
            Some(t) => Some(seq![b[i]] + t),
            None => None,
        }
    }
}

/// The answer of one region, `None` where it does not hold the request.
pub open spec fn region_read(r: Region, req: ReadRequest) -> Option<Seq<u8>> {
    match req {
        ReadRequest::Bytes { addr, width } => if region_covers(r, addr, width) {
            Some(r.bytes@.subrange(addr - r.base, addr - r.base + width))
        } else {
            None
        },
        ReadRequest::Text { addr } => if r.base <= addr < r.base + r.bytes@.len() {
            text_from(r.bytes@, addr - r.base)
        } else {
            None
        },
    }
}

/// The answer of the first region, in order, that holds the request.
pub open spec fn regions_read(rs: Seq<Region>, req: ReadRequest) -> Option<Seq<u8>>
    decreases rs.len(),
{
    if rs.len() == 0 {
        None
    } else {
        match region_read(rs[0], req) {
            Some(b) => Some(b),
            None => regions_read(rs.drop_first(), req),
        }
    }
}

/// A synthetic memory space: readable regions, everything else unreadable.
#[derive(Debug)]
pub struct MemoryImage {
    pub regions: Vec<Region>,
}

impl MemoryImage {
    /// The image as a source of foreign memory.
    pub open spec fn memory(self) -> Memory {
        |req: ReadRequest| regions_read(self.regions@, req)
    }

    pub fn new() -> (r: MemoryImage)
        ensures
            r.regions@.len() == 0,
    {
        MemoryImage { regions: Vec::new() }
    }

    /// Adds a readable region after those already there.
    pub fn map(&mut self, base: u64, bytes: Vec<u8>)
        ensures
            final(self).regions@ == old(self).regions@.push(Region { base, bytes }),
    {
        self.regions.push(Region { base, bytes });
    }

    /// Answers one request as the image's memory does.
    pub fn read(&self, req: ReadRequest) -> (r: Option<Vec<u8>>)
        ensures
            r matches Some(v) ==> self.memory()(req) == Some(v@),
            r is None ==> self.memory()(req) is None,
    {
        let mut i: usize = 0;
        assert(self.regions@.subrange(0, self.regions@.len() as int) =~= self.regions@);
        while i < self.regions.len()
            invariant
                i <= self.regions@.len(),
                regions_read(self.regions@, req) == regions_read(
                    self.regions@.subrange(i as int, self.regions@.len() as int),
                    req,
                ),
            decreases self.regions@.len() - i,
        {
            let rest = Ghost(self.regions@.subrange(i as int, self.regions@.len() as int));
            assert(rest@.drop_first() =~= self.regions@.subrange(
                i + 1,
                self.regions@.len() as int,
            ));
            assert(rest@[0] == self.regions@[i as int]);
            match region_answer(&self.regions[i], req) {
                Some(v) => {
                    return Some(v);
                },
                None => {},
            }
            i += 1;
        }
        None
    }
}

fn region_answer(r: &Region, req: ReadRequest) -> (res: Option<Vec<u8>>)
    ensures
        res matches Some(v) ==> region_read(*r, req) == Some(v@),
        res is None ==> region_read(*r, req) is None,
{
    let len = r.bytes.len();
    match req {
        ReadRequest::Bytes { addr, width } => {
            if addr < r.base {
                return None;
            }
            let off = addr - r.base;
            if off > len as u64 || width > len as u64 - off {
                return None;
            }
            let mut out: Vec<u8> = Vec::new();
            let mut j: u64 = 0;
            while j < width
                invariant
                    off + width <= len,
                    j <= width,
                    len == r.bytes@.len(),
                    out@ =~= r.bytes@.subrange(off as int, (off + j) as int),
                decreases width - j,
            {
                out.push(r.bytes[(off + j) as usize]);
                j += 1;
            }
            Some(out)
        },
        ReadRequest::Text { addr } => {
            if addr < r.base || addr - r.base >= len as u64 {
                return None;
            }
            let start = (addr - r.base) as usize;
            let mut out: Vec<u8> = Vec::new();
            let mut j: usize = start;
            while j < len
                invariant
                    start <= j <= len,
                    len == r.bytes@.len(),
                    r.base <= addr,
                    start as int == addr - r.base,
                    req == (ReadRequest::Text { addr }),
                    text_from(r.bytes@, start as int) == match text_from(r.bytes@, j as int) {
                        Some(t) => Some(out@ + t),
                        None => None::<Seq<u8>>,
                    },
                    j == len ==> text_from(r.bytes@, j as int) is None,
                decreases len - j,
            {
                if r.bytes[j] == 0 {
                    assert(text_from(r.bytes@, j as int) == Some(Seq::<u8>::empty()));
                    assert(out@ + Seq::<u8>::empty() =~= out@);
                    return Some(out);
                }
                let ghost before = out@;
                out.push(r.bytes[j]);
                assert(before + (seq![r.bytes@[j as int]] + text_from(r.bytes@, j + 1)->0)
                    =~= out@ + text_from(r.bytes@, j + 1)->0) by {
                    if text_from(r.bytes@, j + 1) is Some {
                        assert(before + (seq![r.bytes@[j as int]] + text_from(
                            r.bytes@,
                            j + 1,
                        )->0) =~= out@ + text_from(r.bytes@, j + 1)->0);
                    }
                }
                j += 1;
            }
            None
        },
    }
}

} // verus!

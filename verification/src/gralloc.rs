//! Graphics buffers: which formats the allocator takes, the geometry of a
//! shared-memory buffer, and the integers of the native handle the app's
//! mapper reads a buffer from.
use vstd::prelude::*;
use crate::services::{Answer, Payload};
use crate::text::{chars_of, is};

verus! {

/// The first handle integer: "AROB".
pub const HANDLE_MAGIC: i32 = 0x4152_4f42;

/// The library suffix of the app-side mapper.
pub fn mapper_suffix() -> (s: &'static str)
    ensures
        s@ == "aro"@,
{
    "aro"
}

/// What the app asks the allocator for.
pub struct BufferDesc {
    pub name: String,
    pub width: u32,
    pub height: u32,
    pub layer_count: u32,
    pub format: i32,
    pub usage: u64,
}

pub open spec fn bpp_spec(format: i32) -> Option<u32> {
    if format == 1 || format == 2 || format == 5 {
        Some(4)
    } else if format == 3 {
        Some(3)
    } else if format == 4 {
        Some(2)
    } else {
        None
    }
}

/// Bytes per pixel of the formats the allocator supports: RGBA_8888,
/// RGBX_8888, BGRA_8888, RGB_888 and RGB_565.
pub fn bytes_per_pixel(format: i32) -> (r: Option<u32>)
    ensures
        r == bpp_spec(format),
{
    if format == 1 || format == 2 || format == 5 {
        Some(4)
    } else if format == 3 {
        Some(3)
    } else if format == 4 {
        Some(2)
    } else {
        None
    }
}

pub open spec fn gbm_spec(format: i32) -> Option<u32> {
    if format == 1 {
        Some(0x34324241)
    } else if format == 2 {
        Some(0x34324258)
    } else if format == 3 {
        Some(0x34324752)
    } else if format == 4 {
        Some(0x36314752)
    } else if format == 5 {
        Some(0x34325241)
    } else {
        None
    }
}

/// The DRM fourcc a HAL pixel format is allocated as on a GBM device.
pub fn hal_format_to_gbm(format: i32) -> (r: Option<u32>)
    ensures
        r == gbm_spec(format),
{
    if format == 1 {
        Some(0x34324241)
    } else if format == 2 {
        Some(0x34324258)
    } else if format == 3 {
        Some(0x34324752)
    } else if format == 4 {
        Some(0x36314752)
    } else if format == 5 {
        Some(0x34325241)
    } else {
        None
    }
}

/// The allocator can make a buffer: a supported format, both sides
/// non-zero, one layer.
pub fn can_allocate(desc: &BufferDesc) -> (r: bool)
    ensures
        r == (bpp_spec(desc.format) is Some && desc.width > 0 && desc.height > 0 && desc.layer_count == 1),
{
    bytes_per_pixel(desc.format).is_some() && desc.width > 0 && desc.height > 0 && desc.layer_count == 1
}

/// `isSupported`: a supported format in one layer.
pub fn is_supported(desc: &BufferDesc) -> (r: bool)
    ensures
        r == (bpp_spec(desc.format) is Some && desc.layer_count == 1),
{
    bytes_per_pixel(desc.format).is_some() && desc.layer_count == 1
}

/// A shared-memory buffer's stride (pixels, a multiple of 64) and size
/// (bytes, a multiple of 4096) fit in 32 bits.
pub open spec fn memfd_fits(width: u32, height: u32, bpp: u32) -> bool {
    width + 63 <= u32::MAX && ((width + 63) / 64) * 64 * bpp * height + 4095 <= u32::MAX
}

/// The stride and size of a shared-memory buffer: rows padded to 64
/// pixels, the whole rounded up to 4 KiB pages.
pub fn memfd_geometry(width: u32, height: u32, bpp: u32) -> (r: (u32, u32))
    requires
        memfd_fits(width, height, bpp),
    ensures
        r.0 == ((width + 63) / 64) * 64,
        r.1 == ((r.0 * bpp * height + 4095) / 4096) * 4096,
        r.0 >= width,
        r.0 % 64 == 0,
        r.1 % 4096 == 0,
        r.1 >= r.0 * bpp * height,
{
    let w63 = width + 63;
    let stride = w63 & !63u32;
    assert(w63 & !63u32 == (w63 / 64) * 64) by (bit_vector);
    assert(stride == ((width + 63) / 64) * 64);
    assert(stride as int * bpp as int <= u64::MAX) by (nonlinear_arith)
        requires
            stride <= u32::MAX,
            bpp <= u32::MAX,
    ;
    let sb = stride as u64 * bpp as u64;
    assert(sb * height <= u32::MAX);
    let raw = sb * height as u64;
    let raw32 = raw as u32;
    let r4095 = raw32 + 4095;
    let size = r4095 & !4095u32;
    assert(r4095 & !4095u32 == (r4095 / 4096) * 4096) by (bit_vector);
    (stride, size)
}

/// A buffer the allocator made, without its file descriptor.
pub struct Buffer {
    pub id: u64,
    pub desc: BufferDesc,
    pub stride: u32,
    pub size: u32,
    pub is_gbm: bool,
    pub modifier: u64,
}

/// The native handle's integers, in the order the app's mapper reads them:
/// magic, width, height, stride, format, layers, usage (low, high), size,
/// id (low, high).
pub open spec fn handle_ints_spec(b: Buffer) -> Seq<i32> {
    seq![
        HANDLE_MAGIC,
        b.desc.width as i32,
        b.desc.height as i32,
        b.stride as i32,
        b.desc.format,
        b.desc.layer_count as i32,
        b.desc.usage as u32 as i32,
        (b.desc.usage >> 32u64) as u32 as i32,
        b.size as i32,
        b.id as u32 as i32,
        (b.id >> 32u64) as u32 as i32,
    ]
}

impl Buffer {
    pub fn handle_ints(&self) -> (r: [i32; 11])
        ensures
            r@ == handle_ints_spec(*self),
    {
        let r = [
            HANDLE_MAGIC,
            self.desc.width as i32,
            self.desc.height as i32,
            self.stride as i32,
            self.desc.format,
            self.desc.layer_count as i32,
            self.desc.usage as u32 as i32,
            (self.desc.usage >> 32u64) as u32 as i32,
            self.size as i32,
            self.id as u32 as i32,
            (self.id >> 32u64) as u32 as i32,
        ];
        proof {
            assert(r@ =~= handle_ints_spec(*self));
        }
        r
    }
}

/// A 64-bit value split into two handle integers reads back whole.
pub open spec fn join_halves(lo: i32, hi: i32) -> u64 {
    ((hi as u32 as u64) << 32u64) | (lo as u32 as u64)
}

/// The mapper recovers a buffer's usage and id from its handle integers.
pub proof fn law_handle_halves_rejoin(v: u64)
    ensures
        join_halves(v as u32 as i32, (v >> 32u64) as u32 as i32) == v,
{
    assert(((((v >> 32u64) as u32 as i32) as u32 as u64) << 32u64) | ((v as u32 as i32) as u32 as u64) == v) by (bit_vector);
}

/// A copy of a buffer description.
pub fn copy_desc(d: &BufferDesc) -> (r: BufferDesc)
    ensures
        r.name@ == d.name@,
        r.width == d.width,
        r.height == d.height,
        r.layer_count == d.layer_count,
        r.format == d.format,
        r.usage == d.usage,
{
    BufferDesc { name: d.name.clone(), width: d.width, height: d.height, layer_count: d.layer_count, format: d.format, usage: d.usage }
}

/// The size a GBM buffer object is recorded with: the size of its file
/// when that is known and positive (cut to 32 bits), else its rows
/// rounded up to 4 KiB pages.
pub open spec fn gbm_size_spec(file_size: Option<i64>, stride_bytes: u32, height: u32) -> u32 {
    match file_size {
        Some(s) if s > 0 => s as u32,
        _ => (((stride_bytes * height + 4095) / 4096) * 4096) as u32,
    }
}

/// A GBM buffer's size can be worked out in 32 bits.
pub open spec fn gbm_fits(file_size: Option<i64>, stride_bytes: u32, height: u32) -> bool {
    match file_size {
        Some(s) if s > 0 => true,
        _ => stride_bytes * height + 4095 <= u32::MAX,
    }
}

/// The record of a buffer object GBM made for `desc`: its stride in
/// pixels, its size and its format modifier.
pub fn gbm_info(desc: BufferDesc, id: u64, stride_bytes: u32, file_size: Option<i64>, modifier: u64) -> (b: Buffer)
    requires
        bpp_spec(desc.format) is Some,
        gbm_fits(file_size, stride_bytes, desc.height),
    ensures
        b.id == id,
        b.desc == desc,
        b.stride == stride_bytes / bpp_spec(desc.format)->0,
        b.size == gbm_size_spec(file_size, stride_bytes, desc.height),
        b.is_gbm,
        b.modifier == modifier,
{
    let bpp = match bytes_per_pixel(desc.format) {
        Some(b) => b,
        None => 1,
    };
    let size = match file_size {
        Some(s) if s > 0 => s as u32,
        _ => {
            let raw = stride_bytes * desc.height + 4095;
            let size = raw & !4095u32;
            assert(raw & !4095u32 == (raw / 4096) * 4096) by (bit_vector);
            size
        },
    };
    Buffer { id, desc, stride: stride_bytes / bpp, size, is_gbm: true, modifier }
}

/// The record of a shared-memory buffer for `desc`.
pub fn memfd_info(desc: BufferDesc, id: u64) -> (b: Buffer)
    requires
        bpp_spec(desc.format) is Some,
        memfd_fits(desc.width, desc.height, bpp_spec(desc.format)->0),
    ensures
        b.id == id,
        b.desc == desc,
        b.stride == ((desc.width + 63) / 64) * 64,
        b.size == ((b.stride * bpp_spec(desc.format)->0 * desc.height + 4095) / 4096) * 4096,
        !b.is_gbm,
        b.modifier == 0,
{
    let bpp = match bytes_per_pixel(desc.format) {
        Some(b) => b,
        None => 1,
    };
    let (stride, size) = memfd_geometry(desc.width, desc.height, bpp);
    Buffer { id, desc, stride, size, is_gbm: false, modifier: 0 }
}

/// The allocator's buffers, kept so the composer can map them, and the id
/// of the last one made.
pub struct Gralloc {
    pub buffers: Vec<Buffer>,
    pub next_id: u64,
}

/// Every buffer's id is at most the last id given out, and no two buffers
/// share an id.
pub open spec fn gralloc_ok(g: Gralloc) -> bool {
    &&& forall|k: int| 0 <= k < g.buffers@.len() ==> (#[trigger] g.buffers@[k]).id <= g.next_id
    &&& forall|i: int, j: int| 0 <= i < j < g.buffers@.len() ==> (#[trigger] g.buffers@[i]).id != (#[trigger] g.buffers@[j]).id
}

impl Gralloc {
    /// No buffers yet; the first gets id 1.
    pub fn new() -> (g: Gralloc)
        ensures
            g.buffers@.len() == 0,
            g.next_id == 0,
            gralloc_ok(g),
    {
        Gralloc { buffers: Vec::new(), next_id: 0 }
    }

    /// The id of a new buffer: the counter moves on and gives its new value,
    /// which no buffer kept has.
    pub fn take_id(&mut self) -> (id: u64)
        requires
            old(self).next_id < u64::MAX,
        ensures
            id == old(self).next_id + 1,
            final(self).next_id == id,
            final(self).buffers@ == old(self).buffers@,
            gralloc_ok(*old(self)) ==> gralloc_ok(*final(self)),
            gralloc_ok(*old(self)) ==> forall|k: int| 0 <= k < final(self).buffers@.len() ==> (#[trigger] final(self).buffers@[k]).id != id,
    {
        self.next_id = self.next_id + 1;
        self.next_id
    }

    /// Keeps `b`, a buffer with an id none of the kept ones has.
    pub fn record(&mut self, b: Buffer)
        requires
            forall|k: int| 0 <= k < old(self).buffers@.len() ==> (#[trigger] old(self).buffers@[k]).id != b.id,
        ensures
            final(self).buffers@ == old(self).buffers@.push(b),
            final(self).next_id == old(self).next_id,
            gralloc_ok(*old(self)) && b.id <= old(self).next_id ==> gralloc_ok(*final(self)),
    {
        self.buffers.push(b);
    }

    /// The kept buffer with id `id`.
    pub fn find(&self, id: u64) -> (r: Option<usize>)
        ensures
            match r {
                Some(k) => k < self.buffers@.len() && self.buffers@[k as int].id == id,
                None => forall|k: int| 0 <= k < self.buffers@.len() ==> (#[trigger] self.buffers@[k]).id != id,
            },
    {
        let mut k: usize = 0;
        while k < self.buffers.len()
            invariant
                k <= self.buffers@.len(),
                forall|j: int| 0 <= j < k ==> (#[trigger] self.buffers@[j]).id != id,
            decreases self.buffers.len() - k,
        {
            if self.buffers[k].id == id {
                return Some(k);
            }
            k = k + 1;
        }
        None
    }
}

/// The `android.hardware.graphics.allocator.IAllocator` binder service.
pub struct AllocatorService;

pub open spec fn allocator_answer(name: Seq<char>) -> Answer {
    if name == "getInterfaceVersion"@ {
        Answer::Int(3)
    } else if name == "getInterfaceHash"@ {
        Answer::Text("notfrozen")
    } else if name == "getIMapperLibrarySuffix"@ {
        Answer::Text("aro")
    } else if name == "isSupported"@ {
        Answer::Payload(Payload::BufferSupported)
    } else if name == "allocate2"@ {
        Answer::Payload(Payload::Allocation)
    } else if name == "isMultiViewSupported"@ {
        Answer::Bool(false)
    } else {
        Answer::Refused
    }
}

impl AllocatorService {
    /// How `IAllocator` answers `name`.
    pub fn answer(&self, name: &str) -> (a: Answer)
        ensures
            a == allocator_answer(name@),
    {
        let n = chars_of(name);
        let n = n.as_slice();
        if is(n, "getInterfaceVersion") {
            Answer::Int(3)
        } else if is(n, "getInterfaceHash") {
            Answer::Text("notfrozen")
        } else if is(n, "getIMapperLibrarySuffix") {
            Answer::Text("aro")
        } else if is(n, "isSupported") {
            Answer::Payload(Payload::BufferSupported)
        } else if is(n, "allocate2") {
            Answer::Payload(Payload::Allocation)
        } else if is(n, "isMultiViewSupported") {
            Answer::Bool(false)
        } else {
            Answer::Refused
        }
    }

    /// How many buffers `allocate2` makes for the count it was sent: none
    /// for a negative count.
    pub fn request_count(&self, count: i32) -> (n: u32)
        ensures
            n == if count < 0 { 0 } else { count as int },
    {
        if count < 0 { 0 } else { count as u32 }
    }

    /// The stride `allocate2` reports: the first buffer's, or 0 without
    /// buffers.
    pub fn reported_stride(&self, bufs: &Vec<Buffer>) -> (s: i32)
        ensures
            s == if bufs@.len() > 0 { bufs@[0].stride as i32 } else { 0i32 },
    {
        if bufs.len() > 0 { bufs[0].stride as i32 } else { 0 }
    }
}

} // verus!

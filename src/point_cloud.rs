//! Reading point positions out of the packed bytes of a point cloud.
use byteorder::{BigEndian, ByteOrder, LittleEndian};
use vstd::prelude::*;

verus! {

/// The encoding of one field of a point, as `sensor_msgs/PointField` numbers it.
#[derive(Debug, Clone, Copy, PartialEq, Eq, Structural)]
pub enum PointFieldDatatype {
    Int8,
    UInt8,
    Int16,
    UInt16,
    Int32,
    UInt32,
    Float32,
    Float64,
}

impl PointFieldDatatype {
    pub open spec fn spec_from_code(code: u64) -> Option<PointFieldDatatype> {
        if code == 1 {
            Some(PointFieldDatatype::Int8)
        } else if code == 2 {
            Some(PointFieldDatatype::UInt8)
        } else if code == 3 {
            Some(PointFieldDatatype::Int16)
        } else if code == 4 {
            Some(PointFieldDatatype::UInt16)
        } else if code == 5 {
            Some(PointFieldDatatype::Int32)
        } else if code == 6 {
            Some(PointFieldDatatype::UInt32)
        } else if code == 7 {
            Some(PointFieldDatatype::Float32)
        } else if code == 8 {
            Some(PointFieldDatatype::Float64)
        } else {
            None
        }
    }

    /// The datatype with the given `sensor_msgs/PointField` number.
    pub fn from_code(code: u64) -> (r: Option<PointFieldDatatype>)
        ensures
            r == Self::spec_from_code(code),
    {
        if code == 1 {
            Some(PointFieldDatatype::Int8)
        } else if code == 2 {
            Some(PointFieldDatatype::UInt8)
        } else if code == 3 {
            Some(PointFieldDatatype::Int16)
        } else if code == 4 {
            Some(PointFieldDatatype::UInt16)
        } else if code == 5 {
            Some(PointFieldDatatype::Int32)
        } else if code == 6 {
            Some(PointFieldDatatype::UInt32)
        } else if code == 7 {
            Some(PointFieldDatatype::Float32)
        } else if code == 8 {
            Some(PointFieldDatatype::Float64)
        } else {
            None
        }
    }

    /// How many bytes a value of this datatype takes.
    pub open spec fn spec_width(self) -> nat {
        match self {
            PointFieldDatatype::Int8 | PointFieldDatatype::UInt8 => 1,
            PointFieldDatatype::Int16 | PointFieldDatatype::UInt16 => 2,
            PointFieldDatatype::Int32 | PointFieldDatatype::UInt32 | PointFieldDatatype::Float32 => 4,
            PointFieldDatatype::Float64 => 8,
        }
    }
}

/// Where and how one field is laid out inside each point.
#[derive(Debug)]
pub struct PointField {
    pub name: String,
    pub offset: u32,
    pub datatype: PointFieldDatatype,
}

/// The abstract value of a `PointCloud2`.
pub struct PointCloudView {
    pub data: Seq<u8>,
    pub point_step: usize,
    pub is_bigendian: bool,
    pub fields: Seq<PointField>,
}

/// A cloud of points packed into bytes, `point_step` bytes per point.
#[derive(Debug)]
pub struct PointCloud2 {
    pub data: Vec<u8>,
    pub point_step: usize,
    pub is_bigendian: bool,
    pub fields: Vec<PointField>,
}

impl View for PointCloud2 {
    type V = PointCloudView;

    open spec fn view(&self) -> PointCloudView {
        PointCloudView { data: self.data@, point_step: self.point_step, is_bigendian: self.is_bigendian, fields: self.fields@ }
    }
}

/// One field value read from a point; floating-point values are kept as their bits.
#[derive(Debug, Clone, Copy, PartialEq, Eq, Structural)]
pub enum FieldReading {
    Int8(i8),
    UInt8(u8),
    Int16(i16),
    UInt16(u16),
    Int32(i32),
    UInt32(u32),
    Float32Bits(u32),
    Float64Bits(u64),
    /// The point ends before the field does.
    Missing,
}

/// One point: its `x`, `y` and `z` readings.
#[derive(Debug, Clone, Copy, PartialEq, Eq, Structural)]
pub struct Position3D {
    pub x: FieldReading,
    pub y: FieldReading,
    pub z: FieldReading,
}

/// The unsigned number that bytes encode, most significant byte first.
pub open spec fn be_value(s: Seq<u8>) -> nat
    decreases s.len(),
{
    if s.len() == 0 {
        0
    } else {
        (be_value(s.drop_last()) * 256 + s.last()) as nat
    }
}

/// The unsigned number that bytes encode, least significant byte first.
pub open spec fn le_value(s: Seq<u8>) -> nat
    decreases s.len(),
{
    if s.len() == 0 {
        0
    } else {
        (s[0] + 256 * le_value(s.drop_first())) as nat
    }
}

/// The unsigned number in the first `n` bytes of `s`, in the given byte order.
pub open spec fn word(s: Seq<u8>, n: nat, big_endian: bool) -> nat {
    if big_endian {
        be_value(s.take(n as int))
    } else {
        le_value(s.take(n as int))
    }
}

/// The two's-complement reading of an unsigned number of `bits` bits.
pub open spec fn signed(w: nat, bits: nat) -> int {
    if w < pow2(bits) / 2 {
        w as int
    } else {
        w - pow2(bits)
    }
}

pub open spec fn pow2(bits: nat) -> nat {
    if bits == 8 {
        256
    } else if bits == 16 {
        65536
    } else {
        4294967296
    }
}

/// The value of a field of datatype `dt` that starts at the first byte of `s`.
pub open spec fn reading_of(s: Seq<u8>, dt: PointFieldDatatype, big_endian: bool) -> FieldReading {
    if s.len() < dt.spec_width() {
        FieldReading::Missing
    } else {
        match dt {
            PointFieldDatatype::UInt8 => FieldReading::UInt8(s[0]),
            PointFieldDatatype::Int8 => FieldReading::Int8(signed(s[0] as nat, 8) as i8),
            PointFieldDatatype::UInt16 => FieldReading::UInt16(word(s, 2, big_endian) as u16),
            PointFieldDatatype::Int16 => FieldReading::Int16(signed(word(s, 2, big_endian), 16) as i16),
            PointFieldDatatype::UInt32 => FieldReading::UInt32(word(s, 4, big_endian) as u32),
            PointFieldDatatype::Int32 => FieldReading::Int32(signed(word(s, 4, big_endian), 32) as i32),
            PointFieldDatatype::Float32 => FieldReading::Float32Bits(word(s, 4, big_endian) as u32),
            PointFieldDatatype::Float64 => FieldReading::Float64Bits(word(s, 8, big_endian) as u64),
        }
    }
}

/// Relies on byteorder's `BigEndian::read_u16`: the first two bytes, most significant first.
#[verifier::external_body]
fn read_u16_be(buf: &[u8]) -> (r: u16)
    requires
        buf@.len() >= 2,
    ensures
        r as nat == be_value(buf@.take(2)),
{
    BigEndian::read_u16(buf)
}

/// Relies on byteorder's `LittleEndian::read_u16`: the first two bytes, least significant first.
#[verifier::external_body]
fn read_u16_le(buf: &[u8]) -> (r: u16)
    requires
        buf@.len() >= 2,
    ensures
        r as nat == le_value(buf@.take(2)),
{
    LittleEndian::read_u16(buf)
}

/// Relies on byteorder's `BigEndian::read_u32`: the first four bytes, most significant first.
#[verifier::external_body]
fn read_u32_be(buf: &[u8]) -> (r: u32)
    requires
        buf@.len() >= 4,
    ensures
        r as nat == be_value(buf@.take(4)),
{
    BigEndian::read_u32(buf)
}

/// Relies on byteorder's `LittleEndian::read_u32`: the first four bytes, least significant first.
#[verifier::external_body]
fn read_u32_le(buf: &[u8]) -> (r: u32)
    requires
        buf@.len() >= 4,
    ensures
        r as nat == le_value(buf@.take(4)),
{
    LittleEndian::read_u32(buf)
}

/// Relies on byteorder's `BigEndian::read_u64`: the first eight bytes, most significant first.
#[verifier::external_body]
fn read_u64_be(buf: &[u8]) -> (r: u64)
    requires
        buf@.len() >= 8,
    ensures
        r as nat == be_value(buf@.take(8)),
{
    BigEndian::read_u64(buf)
}

/// Relies on byteorder's `LittleEndian::read_u64`: the first eight bytes, least significant first.
#[verifier::external_body]
fn read_u64_le(buf: &[u8]) -> (r: u64)
    requires
        buf@.len() >= 8,
    ensures
        r as nat == le_value(buf@.take(8)),
{
    LittleEndian::read_u64(buf)
}

fn read_word16(buf: &[u8], big_endian: bool) -> (r: u16)
    requires
        buf@.len() >= 2,
    ensures
        r as nat == word(buf@, 2, big_endian),
{
    if big_endian {
        read_u16_be(buf)
    } else {
        read_u16_le(buf)
    }
}

fn read_word32(buf: &[u8], big_endian: bool) -> (r: u32)
    requires
        buf@.len() >= 4,
    ensures
        r as nat == word(buf@, 4, big_endian),
{
    if big_endian {
        read_u32_be(buf)
    } else {
        read_u32_le(buf)
    }
}

fn read_word64(buf: &[u8], big_endian: bool) -> (r: u64)
    requires
        buf@.len() >= 8,
    ensures
        r as nat == word(buf@, 8, big_endian),
{
    if big_endian {
        read_u64_be(buf)
    } else {
        read_u64_le(buf)
    }
}

/// Reads a field of datatype `datatype` from the start of `data`.
pub fn access_point_field(data: &[u8], datatype: PointFieldDatatype, is_big_endian: bool) -> (r: FieldReading)
    ensures
        r == reading_of(data@, datatype, is_big_endian),
{
    let n = data.len();
    match datatype {
        PointFieldDatatype::UInt8 => if n < 1 { FieldReading::Missing } else { FieldReading::UInt8(data[0]) },
        PointFieldDatatype::Int8 => {
            if n < 1 {
                FieldReading::Missing
            } else if data[0] < 128 {
                FieldReading::Int8(data[0] as i8)
            } else {
                FieldReading::Int8((data[0] as i16 - 256) as i8)
            }
        },
        PointFieldDatatype::UInt16 => if n < 2 { FieldReading::Missing } else { FieldReading::UInt16(read_word16(data, is_big_endian)) },
        PointFieldDatatype::Int16 => {
            if n < 2 {
                FieldReading::Missing
            } else {
                let w = read_word16(data, is_big_endian);
                if w < 32768 {
                    FieldReading::Int16(w as i16)
                } else {
                    FieldReading::Int16((w as i32 - 65536) as i16)
                }
            }
        },
        PointFieldDatatype::UInt32 => if n < 4 { FieldReading::Missing } else { FieldReading::UInt32(read_word32(data, is_big_endian)) },
        PointFieldDatatype::Int32 => {
            if n < 4 {
                FieldReading::Missing
            } else {
                let w = read_word32(data, is_big_endian);
                if w < 2147483648 {
                    FieldReading::Int32(w as i32)
                } else {
                    FieldReading::Int32((w as i64 - 4294967296) as i32)
                }
            }
        },
        PointFieldDatatype::Float32 => if n < 4 { FieldReading::Missing } else { FieldReading::Float32Bits(read_word32(data, is_big_endian)) },
        PointFieldDatatype::Float64 => if n < 8 { FieldReading::Missing } else { FieldReading::Float64Bits(read_word64(data, is_big_endian)) },
    }
}

/// The last field named `name`, as offset and datatype.
pub open spec fn accessor_of(fields: Seq<PointField>, name: Seq<char>) -> Option<(usize, PointFieldDatatype)>
    decreases fields.len(),
{
    if fields.len() == 0 {
        None
    } else if fields.last().name@ == name {
        Some((fields.last().offset as usize, fields.last().datatype))
    } else {
        accessor_of(fields.drop_last(), name)
    }
}

/// Reads the positions of the points of a cloud, one point per `step` bytes.
pub struct Position3DIter<'a> {
    data: &'a [u8],
    step: usize,
    next_point: usize,
    is_big_endian: bool,
    x_accessor: (usize, PointFieldDatatype),
    y_accessor: (usize, PointFieldDatatype),
    z_accessor: (usize, PointFieldDatatype),
}

/// The reading of one accessor in the point that starts at byte `start`.
/// A field that starts past the end of the point reads as missing.
pub open spec fn read_at(data: Seq<u8>, start: int, step: int, acc: (usize, PointFieldDatatype), big: bool) -> FieldReading {
    if acc.0 > step {
        FieldReading::Missing
    } else {
        reading_of(data.subrange(start + acc.0, start + step), acc.1, big)
    }
}

impl<'a> Position3DIter<'a> {
    /// How many whole points the bytes hold.
    pub closed spec fn point_count(&self) -> nat {
        (self.data@.len() / (self.step as nat)) as nat
    }

    /// How many points have been read.
    pub closed spec fn consumed(&self) -> nat {
        self.next_point as nat
    }

    /// The position of point `i`.
    pub closed spec fn point_at(&self, i: int) -> Position3D {
        let start = i * self.step;
        Position3D {
            x: read_at(self.data@, start, self.step as int, self.x_accessor, self.is_big_endian),
            y: read_at(self.data@, start, self.step as int, self.y_accessor, self.is_big_endian),
            z: read_at(self.data@, start, self.step as int, self.z_accessor, self.is_big_endian),
        }
    }

    pub closed spec fn wf(&self) -> bool {
        &&& self.step > 0
        &&& self.next_point <= self.point_count()
    }

    /// The reader for a cloud with the given layout, or `None` when `x`, `y` or
    /// `z` is missing or a point takes no bytes. A field that starts past the
    /// end of a point reads as missing.
    pub fn try_new(data: &'a [u8], step: usize, is_big_endian: bool, fields: &Vec<PointField>) -> (r: Option<Self>)
        ensures
            r is Some <==> layout_ok(step, fields@),
            r is Some ==> {
                let it = r->Some_0;
                &&& it.wf()
                &&& it.consumed() == 0
                &&& it.point_count() == data@.len() / (step as nat)
                &&& forall|i: int| 0 <= i < it.point_count() ==> #[trigger] it.point_at(i) == (Position3D {
                    x: read_at(data@, i * step, step as int, accessor_of(fields@, seq!['x'])->Some_0, is_big_endian),
                    y: read_at(data@, i * step, step as int, accessor_of(fields@, seq!['y'])->Some_0, is_big_endian),
                    z: read_at(data@, i * step, step as int, accessor_of(fields@, seq!['z'])->Some_0, is_big_endian),
                })
            },
    {
        let mut x_accessor: Option<(usize, PointFieldDatatype)> = None;
        let mut y_accessor: Option<(usize, PointFieldDatatype)> = None;
        let mut z_accessor: Option<(usize, PointFieldDatatype)> = None;
        let kx = "x";
        let ky = "y";
        let kz = "z";
        proof {
            reveal_strlit("x");
            reveal_strlit("y");
            reveal_strlit("z");
        }
        assert(kx@ =~= seq!['x']);
        assert(ky@ =~= seq!['y']);
        assert(kz@ =~= seq!['z']);
        let mut i: usize = 0;
        while i < fields.len()
            invariant
                0 <= i <= fields@.len(),
                kx@ == seq!['x'],
                ky@ == seq!['y'],
                kz@ == seq!['z'],
                x_accessor == accessor_of(fields@.take(i as int), seq!['x']),
                y_accessor == accessor_of(fields@.take(i as int), seq!['y']),
                z_accessor == accessor_of(fields@.take(i as int), seq!['z']),
            decreases fields@.len() - i,
        {
            assert(fields@.take(i + 1).drop_last() =~= fields@.take(i as int));
            let f = &fields[i];
            let name = f.name.as_str();
            if crate::names::str_eq(name, kx) {
                x_accessor = Some((f.offset as usize, f.datatype));
            }
            if crate::names::str_eq(name, ky) {
                y_accessor = Some((f.offset as usize, f.datatype));
            }
            if crate::names::str_eq(name, kz) {
                z_accessor = Some((f.offset as usize, f.datatype));
            }
            i = i + 1;
        }
        assert(fields@.take(fields@.len() as int) =~= fields@);
        if step == 0 {
            return None;
        }
        match (x_accessor, y_accessor, z_accessor) {
            (Some(x), Some(y), Some(z)) => {
                Some(Position3DIter { data, step, next_point: 0, is_big_endian, x_accessor: x, y_accessor: y, z_accessor: z })
            },
            _ => None,
        }
    }

    /// Reads the next point, or `None` once every whole point has been read.
    pub fn next(&mut self) -> (r: Option<Position3D>)
        requires
            old(self).wf(),
        ensures
            final(self).wf(),
            final(self).point_count() == old(self).point_count(),
            forall|i: int| #[trigger] final(self).point_at(i) == old(self).point_at(i),
            old(self).consumed() < old(self).point_count() ==> r == Some(old(self).point_at(old(self).consumed() as int))
                && final(self).consumed() == old(self).consumed() + 1,
            old(self).consumed() >= old(self).point_count() ==> r is None && final(self).consumed() == old(self).consumed(),
    {
        let step = self.step;
        if self.next_point >= self.data.len() / step {
            return None;
        }
        let k = self.next_point;
        proof {
            assert(k < self.data@.len() / (step as nat));
            assert(k * step + step <= self.data@.len()) by (nonlinear_arith)
                requires k < self.data@.len() / (step as nat), step > 0;
        }
        let start = k * step;
        let end = start + step;
        let x = self.read(start, end, self.x_accessor);
        let y = self.read(start, end, self.y_accessor);
        let z = self.read(start, end, self.z_accessor);
        self.next_point = k + 1;
        Some(Position3D { x, y, z })
    }

    fn read(&self, start: usize, end: usize, acc: (usize, PointFieldDatatype)) -> (r: FieldReading)
        requires
            self.wf(),
            start + self.step == end,
            end <= self.data@.len(),
        ensures
            r == read_at(self.data@, start as int, self.step as int, acc, self.is_big_endian),
    {
        if acc.0 > self.step {
            return FieldReading::Missing;
        }
        let from = start + acc.0;
        let bytes = slice_range(self.data, from, end);
        access_point_field(bytes, acc.1, self.is_big_endian)
    }

    /// How many points are left to read.
    pub fn remaining(&self) -> (r: usize)
        requires
            self.wf(),
        ensures
            r == self.point_count() - self.consumed(),
    {
        self.data.len() / self.step - self.next_point
    }

    /// Reads every remaining point.
    pub fn collect_all(self) -> (r: Vec<Position3D>)
        requires
            self.wf(),
        ensures
            r@.len() == self.point_count() - self.consumed(),
            forall|i: int| 0 <= i < r@.len() ==> #[trigger] r@[i] == self.point_at(self.consumed() + i),
    {
        let ghost orig = self;
        let mut it = self;
        let mut out: Vec<Position3D> = Vec::new();
        while it.remaining() > 0
            invariant
                it.wf(),
                it.point_count() == orig.point_count(),
                forall|i: int| #[trigger] it.point_at(i) == orig.point_at(i),
                orig.consumed() <= it.consumed(),
                out@.len() == it.consumed() - orig.consumed(),
                forall|i: int| 0 <= i < out@.len() ==> #[trigger] out@[i] == orig.point_at(orig.consumed() + i),
            decreases orig.point_count() - it.consumed(),
        {
            match it.next() {
                Some(p) => out.push(p),
                None => {},
            }
        }
        out
    }
}

/// The bytes `from..to` of `data`.
fn slice_range(data: &[u8], from: usize, to: usize) -> (r: &[u8])
    requires
        from <= to <= data@.len(),
    ensures
        r@ == data@.subrange(from as int, to as int),
{
    vstd::slice::slice_subrange(data, from, to)
}

/// Whether a layout lets points be read: a point takes some bytes and has
/// fields named `x`, `y` and `z`.
pub open spec fn layout_ok(step: usize, fields: Seq<PointField>) -> bool {
    &&& step > 0
    &&& accessor_of(fields, seq!['x']) is Some
    &&& accessor_of(fields, seq!['y']) is Some
    &&& accessor_of(fields, seq!['z']) is Some
}

/// Position `i` of a cloud whose layout is readable.
pub open spec fn cloud_point(c: PointCloudView, i: int) -> Position3D {
    Position3D {
        x: read_at(c.data, i * c.point_step, c.point_step as int, accessor_of(c.fields, seq!['x'])->Some_0, c.is_bigendian),
        y: read_at(c.data, i * c.point_step, c.point_step as int, accessor_of(c.fields, seq!['y'])->Some_0, c.is_bigendian),
        z: read_at(c.data, i * c.point_step, c.point_step as int, accessor_of(c.fields, seq!['z'])->Some_0, c.is_bigendian),
    }
}

/// The positions of every whole point of a cloud, or `None` when its layout is not readable.
pub open spec fn cloud_points(c: PointCloudView) -> Option<Seq<Position3D>> {
    if layout_ok(c.point_step, c.fields) {
        Some(Seq::new((c.data.len() / (c.point_step as nat)) as nat, |i: int| cloud_point(c, i)))
    } else {
        None
    }
}

/// The positions of every whole point of a cloud.
pub fn positions(cloud: &PointCloud2) -> (r: Option<Vec<Position3D>>)
    ensures
        match r {
            Some(v) => cloud_points(cloud@) == Some(v@),
            None => cloud_points(cloud@) is None,
        },
{
    match Position3DIter::try_new(cloud.data.as_slice(), cloud.point_step, cloud.is_bigendian, &cloud.fields) {
        Some(iter) => {
            let v = iter.collect_all();
            assert(v@ =~= cloud_points(cloud@)->Some_0);
            Some(v)
        },
        None => None,
    }
}

} // verus!

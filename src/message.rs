//! Dynamically typed messages, their metadata, and the packets made from them.
use vstd::prelude::*;
use vstd::string::StringExecFns;

use crate::point_cloud::{PointCloud2, PointCloudView, PointField, PointFieldDatatype, Position3D};

verus! {

/// The value of one field of a message, as the message-bus client decoded it.
#[derive(Debug)]
pub enum FieldValue {
    /// A single text value.
    Text(String),
    /// A text-typed field that holds more than one value (an array or a sequence).
    TextList(Vec<String>),
    /// Raw bytes (a `uint8[]` field).
    Bytes(Vec<u8>),
    Unsigned(u64),
    Signed(i64),
    Boolean(bool),
    /// An array or sequence of nested messages.
    Messages(Vec<MessageView>),
    /// A value of any other kind.
    Other,
}

/// One named field of a message.
#[derive(Debug)]
pub struct MessageField {
    pub name: String,
    pub value: FieldValue,
}

/// A message of a type only known at run time: its fields in definition order.
#[derive(Debug)]
pub struct MessageView {
    pub fields: Vec<MessageField>,
}

/// The value of the first field named `name`.
pub open spec fn field_lookup(fields: Seq<MessageField>, name: Seq<char>) -> Option<FieldValue>
    decreases fields.len(),
{
    if fields.len() == 0 {
        None
    } else if fields[0].name@ == name {
        Some(fields[0].value)
    } else {
        field_lookup(fields.drop_first(), name)
    }
}

/// The text of every single-valued text field, joined in field order.
pub open spec fn text_of_fields(fields: Seq<MessageField>) -> Seq<char>
    decreases fields.len(),
{
    if fields.len() == 0 {
        Seq::empty()
    } else {
        let last: Seq<char> = match fields.last().value {
            FieldValue::Text(s) => s@,
            _ => Seq::empty(),
        };
        text_of_fields(fields.drop_last()) + last
    }
}

/// The point field that a nested message describes.
pub open spec fn point_field_of(m: MessageView) -> Option<PointField> {
    match (
        field_lookup(m.fields@, seq!['n', 'a', 'm', 'e']),
        field_lookup(m.fields@, seq!['o', 'f', 'f', 's', 'e', 't']),
        field_lookup(m.fields@, seq!['d', 'a', 't', 'a', 't', 'y', 'p', 'e']),
    ) {
        (Some(FieldValue::Text(n)), Some(FieldValue::Unsigned(o)), Some(FieldValue::Unsigned(d))) => {
            if o <= u32::MAX && PointFieldDatatype::spec_from_code(d) is Some {
                Some(PointField { name: n, offset: o as u32, datatype: PointFieldDatatype::spec_from_code(d)->Some_0 })
            } else {
                None
            }
        },
        _ => None,
    }
}

/// The point fields that a list of nested messages describes, if each describes one.
pub open spec fn point_fields_of(ms: Seq<MessageView>) -> Option<Seq<PointField>>
    decreases ms.len(),
{
    if ms.len() == 0 {
        Some(Seq::empty())
    } else {
        match (point_fields_of(ms.drop_last()), point_field_of(ms.last())) {
            (Some(fs), Some(f)) => Some(fs.push(f)),
            _ => None,
        }
    }
}

impl MessageView {
    /// The text of the field `name`, if it holds a single text value.
    pub open spec fn string_field(&self, name: Seq<char>) -> Option<String> {
        match field_lookup(self.fields@, name) {
            Some(FieldValue::Text(s)) => Some(s),
            _ => None,
        }
    }

    /// The point cloud that this message holds, read field by field.
    pub open spec fn point_cloud_view(&self) -> Option<PointCloudView> {
        match (
            field_lookup(self.fields@, seq!['d', 'a', 't', 'a']),
            field_lookup(self.fields@, seq!['p', 'o', 'i', 'n', 't', '_', 's', 't', 'e', 'p']),
            field_lookup(self.fields@, seq!['i', 's', '_', 'b', 'i', 'g', 'e', 'n', 'd', 'i', 'a', 'n']),
            field_lookup(self.fields@, seq!['f', 'i', 'e', 'l', 'd', 's']),
        ) {
            (Some(FieldValue::Bytes(d)), Some(FieldValue::Unsigned(s)), Some(FieldValue::Boolean(b)), Some(FieldValue::Messages(ms))) => {
                if s <= usize::MAX && point_fields_of(ms@) is Some {
                    Some(PointCloudView { data: d@, point_step: s as usize, is_bigendian: b, fields: point_fields_of(ms@)->Some_0 })
                } else {
                    None
                }
            },
            _ => None,
        }
    }

    /// The value of the first field named `name`.
    pub fn get(&self, name: &str) -> (r: Option<&FieldValue>)
        ensures
            match r {
                Some(v) => field_lookup(self.fields@, name@) == Some(*v),
                None => field_lookup(self.fields@, name@) is None,
            },
    {
        let k = String::from_str(name);
        let mut i: usize = 0;
        assert(self.fields@.subrange(0, self.fields@.len() as int) =~= self.fields@);
        while i < self.fields.len()
            invariant
                0 <= i <= self.fields@.len(),
                k@ == name@,
                field_lookup(self.fields@, name@) == field_lookup(self.fields@.subrange(i as int, self.fields@.len() as int), name@),
            decreases self.fields@.len() - i,
        {
            let ghost rest = self.fields@.subrange(i as int, self.fields@.len() as int);
            assert(rest.drop_first() =~= self.fields@.subrange(i + 1, self.fields@.len() as int));
            if self.fields[i].name == k {
                return Some(&self.fields[i].value);
            }
            i = i + 1;
        }
        None
    }

    /// The text of the field `name`, if it holds a single text value.
    pub fn get_string(&self, name: &str) -> (r: Option<String>)
        ensures
            r == self.string_field(name@),
    {
        match self.get(name) {
            Some(FieldValue::Text(s)) => Some(s.clone()),
            _ => None,
        }
    }

    /// The text of every single-valued text field, joined in field order.
    pub fn all_text(&self) -> (r: String)
        ensures
            r@ == text_of_fields(self.fields@),
    {
        let mut acc = String::new();
        let mut i: usize = 0;
        while i < self.fields.len()
            invariant
                0 <= i <= self.fields@.len(),
                acc@ == text_of_fields(self.fields@.take(i as int)),
            decreases self.fields@.len() - i,
        {
            assert(self.fields@.take(i + 1).drop_last() =~= self.fields@.take(i as int));
            match &self.fields[i].value {
                FieldValue::Text(s) => acc.append(s.as_str()),
                _ => {
                    assert(acc@ + Seq::<char>::empty() =~= acc@);
                },
            }
            i = i + 1;
        }
        assert(self.fields@.take(self.fields@.len() as int) =~= self.fields@);
        acc
    }

    /// The point cloud that this message holds, read field by field.
    pub fn point_cloud(&self) -> (r: Option<PointCloud2>)
        ensures
            match r {
                Some(c) => self.point_cloud_view() == Some(c@),
                None => self.point_cloud_view() is None,
            },
    {
        let k_data = "data";
        let k_step = "point_step";
        let k_big = "is_bigendian";
        let k_fields = "fields";
        proof {
            reveal_strlit("data");
            reveal_strlit("point_step");
            reveal_strlit("is_bigendian");
            reveal_strlit("fields");
        }
        assert(k_data@ =~= seq!['d', 'a', 't', 'a']);
        assert(k_step@ =~= seq!['p', 'o', 'i', 'n', 't', '_', 's', 't', 'e', 'p']);
        assert(k_big@ =~= seq!['i', 's', '_', 'b', 'i', 'g', 'e', 'n', 'd', 'i', 'a', 'n']);
        assert(k_fields@ =~= seq!['f', 'i', 'e', 'l', 'd', 's']);
        let data = match self.get(k_data) {
            Some(FieldValue::Bytes(d)) => d,
            _ => return None,
        };
        let step = match self.get(k_step) {
            Some(FieldValue::Unsigned(s)) => *s,
            _ => return None,
        };
        let big = match self.get(k_big) {
            Some(FieldValue::Boolean(b)) => *b,
            _ => return None,
        };
        let ms = match self.get(k_fields) {
            Some(FieldValue::Messages(ms)) => ms,
            _ => return None,
        };
        if step > usize::MAX as u64 {
            return None;
        }
        match point_fields_from(ms) {
            Some(fields) => Some(PointCloud2 { data: copy_bytes(data), point_step: step as usize, is_bigendian: big, fields }),
            None => None,
        }
    }
}

fn copy_bytes(v: &Vec<u8>) -> (r: Vec<u8>)
    ensures
        r@ == v@,
{
    let mut out: Vec<u8> = Vec::new();
    let mut i: usize = 0;
    while i < v.len()
        invariant
            0 <= i <= v@.len(),
            out@ == v@.take(i as int),
        decreases v@.len() - i,
    {
        out.push(v[i]);
        i = i + 1;
        assert(out@ =~= v@.take(i as int));
    }
    assert(v@.take(v@.len() as int) =~= v@);
    out
}

fn point_field_from(m: &MessageView) -> (r: Option<PointField>)
    ensures
        r == point_field_of(*m),
{
    let k_name = "name";
    let k_offset = "offset";
    let k_datatype = "datatype";
    proof {
        reveal_strlit("name");
        reveal_strlit("offset");
        reveal_strlit("datatype");
    }
    assert(k_name@ =~= seq!['n', 'a', 'm', 'e']);
    assert(k_offset@ =~= seq!['o', 'f', 'f', 's', 'e', 't']);
    assert(k_datatype@ =~= seq!['d', 'a', 't', 'a', 't', 'y', 'p', 'e']);
    let name = match m.get(k_name) {
        Some(FieldValue::Text(n)) => n,
        _ => return None,
    };
    let offset = match m.get(k_offset) {
        Some(FieldValue::Unsigned(o)) => *o,
        _ => return None,
    };
    let code = match m.get(k_datatype) {
        Some(FieldValue::Unsigned(d)) => *d,
        _ => return None,
    };
    if offset > u32::MAX as u64 {
        return None;
    }
    match PointFieldDatatype::from_code(code) {
        Some(datatype) => Some(PointField { name: name.clone(), offset: offset as u32, datatype }),
        None => None,
    }
}

fn point_fields_from(ms: &Vec<MessageView>) -> (r: Option<Vec<PointField>>)
    ensures
        match r {
            Some(v) => point_fields_of(ms@) == Some(v@),
            None => point_fields_of(ms@) is None,
        },
{
    let mut out: Vec<PointField> = Vec::new();
    let mut i: usize = 0;
    while i < ms.len()
        invariant
            0 <= i <= ms@.len(),
            point_fields_of(ms@.take(i as int)) == Some(out@),
        decreases ms@.len() - i,
    {
        assert(ms@.take(i + 1).drop_last() =~= ms@.take(i as int));
        match point_field_from(&ms[i]) {
            Some(f) => out.push(f),
            None => {
                proof {
                    lemma_point_fields_prefix(ms@, i as int + 1);
                }
                return None;
            },
        }
        i = i + 1;
    }
    assert(ms@.take(ms@.len() as int) =~= ms@);
    Some(out)
}

/// A list whose prefix describes no point fields describes none either.
proof fn lemma_point_fields_prefix(ms: Seq<MessageView>, n: int)
    requires
        0 <= n <= ms.len(),
        point_fields_of(ms.take(n)) is None,
    ensures
        point_fields_of(ms) is None,
    decreases ms.len() - n,
{
    if n < ms.len() {
        assert(ms.take(n + 1).drop_last() =~= ms.take(n));
        lemma_point_fields_prefix(ms, n + 1);
    } else {
        assert(ms.take(n) =~= ms);
    }
}

/// What a converter produced for one message.
#[derive(Debug)]
pub enum Components {
    TextDocument(String),
    Points3D(Vec<Position3D>),
}

/// When and in which coordinate frame a message was recorded.
#[derive(Debug)]
pub struct Header {
    /// Nanoseconds since the Unix epoch.
    pub time_nanos: i64,
    pub frame_id: Option<String>,
}

/// A point in time as a message header stores it.
#[derive(Debug, Clone, Copy, PartialEq, Eq, Structural)]
pub struct Time {
    pub sec: i32,
    pub nanosec: u32,
}

/// The metadata field of a message.
#[derive(Debug)]
pub struct StdHeader {
    pub stamp: Time,
    pub frame_id: String,
}

impl Header {
    /// The header of a packet made from a message with metadata `h`, received
    /// at `now_nanos`: a zero stamp stands for "now", an empty frame for none.
    pub fn from_message(h: StdHeader, now_nanos: i64) -> (r: Header)
        ensures
            r.time_nanos == if h.stamp.sec == 0 && h.stamp.nanosec == 0 {
                now_nanos as int
            } else {
                h.stamp.sec as int * 1_000_000_000 + h.stamp.nanosec as int
            },
            r.frame_id == if h.frame_id@.len() == 0 {
                None::<String>
            } else {
                Some(h.frame_id)
            },
    {
        let time_nanos = if h.stamp.sec == 0 && h.stamp.nanosec == 0 {
            now_nanos
        } else {
            h.stamp.sec as i64 * 1_000_000_000 + h.stamp.nanosec as i64
        };
        let empty = String::new();
        proof {
            if h.frame_id@.len() == 0 {
                assert(h.frame_id@ =~= empty@);
            }
        }
        let frame_id = if h.frame_id == empty {
            None
        } else {
            Some(h.frame_id)
        };
        Header { time_nanos, frame_id }
    }
}

/// The routable unit of converted data.
#[derive(Debug)]
pub struct LogPacket {
    pub components: Components,
    pub header: Option<Header>,
}

impl LogPacket {
    /// A packet holding a text document and no header.
    pub open spec fn spec_text(t: String) -> LogPacket {
        LogPacket { components: Components::TextDocument(t), header: None }
    }

    pub fn new(components: Components) -> (r: Self)
        ensures
            r == (LogPacket { components, header: None }),
    {
        LogPacket { components, header: None }
    }

    pub fn text(t: String) -> (r: Self)
        ensures
            r == Self::spec_text(t),
    {
        LogPacket { components: Components::TextDocument(t), header: None }
    }

    pub fn with_header(self, header: Header) -> (r: Self)
        ensures
            r == (LogPacket { components: self.components, header: Some(header) }),
    {
        LogPacket { components: self.components, header: Some(header) }
    }
}

} // verus!

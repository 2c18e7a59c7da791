//! Converters: settings, configuration, and the conversion of one message into one packet.
use vstd::prelude::*;
use vstd::string::StringExecFns;

use crate::message::{text_of_fields, Components, LogPacket, MessageView};
use crate::point_cloud::cloud_points;
use crate::names::{archetype_prefix, type_path, ROSTypeString, RerunName, TargetView};

verus! {

/// One value of a converter's free-form settings.
#[derive(Debug)]
pub enum SettingValue {
    Text(String),
    Integer(i64),
    Boolean(bool),
    /// A value of another kind (a float, a date, a list or a table).
    Other,
}

impl SettingValue {
    pub fn duplicate(&self) -> (r: Self)
        ensures
            r == *self,
    {
        match self {
            SettingValue::Text(s) => SettingValue::Text(s.clone()),
            SettingValue::Integer(i) => SettingValue::Integer(*i),
            SettingValue::Boolean(b) => SettingValue::Boolean(*b),
            SettingValue::Other => SettingValue::Other,
        }
    }
}

/// The value stored under `key`: the first entry with that key.
pub open spec fn setting_lookup(entries: Seq<(String, SettingValue)>, key: Seq<char>) -> Option<SettingValue>
    decreases entries.len(),
{
    if entries.len() == 0 {
        None
    } else if entries[0].0@ == key {
        Some(entries[0].1)
    } else {
        setting_lookup(entries.drop_first(), key)
    }
}

/// User-supplied options of one converter, as key/value pairs.
#[derive(Debug)]
pub struct ConverterSettings {
    pub entries: Vec<(String, SettingValue)>,
}

impl ConverterSettings {
    pub fn new() -> (r: Self)
        ensures
            r.entries@.len() == 0,
    {
        ConverterSettings { entries: Vec::new() }
    }

    /// Adds a setting; a key already present keeps its first value.
    pub fn with(self, key: &str, value: SettingValue) -> (r: Self)
        ensures
            r.entries@ == self.entries@.push((r.entries@.last().0, value)),
            r.entries@.last().0@ == key@,
    {
        let mut entries = self.entries;
        entries.push((String::from_str(key), value));
        ConverterSettings { entries }
    }

    pub fn is_empty(&self) -> (r: bool)
        ensures
            r == (self.entries@.len() == 0),
    {
        self.entries.len() == 0
    }

    /// The value stored under `key`.
    pub fn get(&self, key: &str) -> (r: Option<SettingValue>)
        ensures
            r == setting_lookup(self.entries@, key@),
    {
        let k = String::from_str(key);
        let mut i: usize = 0;
        assert(self.entries@.subrange(0, self.entries@.len() as int) =~= self.entries@);
        while i < self.entries.len()
            invariant
                0 <= i <= self.entries@.len(),
                k@ == key@,
                setting_lookup(self.entries@, key@) == setting_lookup(self.entries@.subrange(i as int, self.entries@.len() as int), key@),
            decreases self.entries@.len() - i,
        {
            let ghost rest = self.entries@.subrange(i as int, self.entries@.len() as int);
            assert(rest.drop_first() =~= self.entries@.subrange(i + 1, self.entries@.len() as int));
            if self.entries[i].0 == k {
                return Some(self.entries[i].1.duplicate());
            }
            i = i + 1;
        }
        None
    }
}

/// Why a converter could not be resolved, configured or run.
#[derive(Debug)]
pub enum ConverterError {
    /// No converter turns the message type (`None`: any type) into the target.
    UnsupportedConversion { name: RerunName, ros_type: Option<String> },
    /// A setting was rejected: target, message type, reason.
    InvalidConfig(RerunName, String, String),
    /// The message could not be read into the shape the converter expects.
    Deserialization(String),
    /// One message could not be converted: target, message type, reason.
    Conversion(RerunName, String, String),
}

/// `rerun.archetypes.TextDocument`.
pub open spec fn text_document_name() -> Seq<char> {
    archetype_prefix() + seq!['T', 'e', 'x', 't', 'D', 'o', 'c', 'u', 'm', 'e', 'n', 't']
}

/// `rerun.archetypes.Points3D`.
pub open spec fn points3d_name() -> Seq<char> {
    archetype_prefix() + seq!['P', 'o', 'i', 'n', 't', 's', '3', 'D']
}

/// `std_msgs` / `String`.
pub open spec fn std_string_type() -> (Seq<char>, Seq<char>) {
    (seq!['s', 't', 'd', '_', 'm', 's', 'g', 's'], seq!['S', 't', 'r', 'i', 'n', 'g'])
}

/// `sensor_msgs` / `PointCloud2`.
pub open spec fn point_cloud_type() -> (Seq<char>, Seq<char>) {
    (
        seq!['s', 'e', 'n', 's', 'o', 'r', '_', 'm', 's', 'g', 's'],
        seq!['P', 'o', 'i', 'n', 't', 'C', 'l', 'o', 'u', 'd', '2'],
    )
}

/// The text that stands for "any message type" in error reports.
pub open spec fn any_type_text() -> Seq<char> {
    seq!['<', 'A', 'N', 'Y', '>']
}

fn text_document_target() -> (r: RerunName)
    ensures
        r@ == TargetView::RerunArchetype(text_document_name()),
{
    let s = "rerun.archetypes.TextDocument";
    proof {
        reveal_strlit("rerun.archetypes.TextDocument");
    }
    assert(s@ =~= text_document_name());
    RerunName::RerunArchetype(String::from_str(s))
}

fn points3d_target() -> (r: RerunName)
    ensures
        r@ == TargetView::RerunArchetype(points3d_name()),
{
    let s = "rerun.archetypes.Points3D";
    proof {
        reveal_strlit("rerun.archetypes.Points3D");
    }
    assert(s@ =~= points3d_name());
    RerunName::RerunArchetype(String::from_str(s))
}

fn std_string_type_string() -> (r: ROSTypeString<'static>)
    ensures
        r@ == std_string_type(),
{
    let p = "std_msgs";
    let n = "String";
    proof {
        reveal_strlit("std_msgs");
        reveal_strlit("String");
    }
    assert(p@ =~= std_string_type().0);
    assert(n@ =~= std_string_type().1);
    ROSTypeString::new(p, n)
}

fn point_cloud_type_string() -> (r: ROSTypeString<'static>)
    ensures
        r@ == point_cloud_type(),
{
    let p = "sensor_msgs";
    let n = "PointCloud2";
    proof {
        reveal_strlit("sensor_msgs");
        reveal_strlit("PointCloud2");
    }
    assert(p@ =~= point_cloud_type().0);
    assert(n@ =~= point_cloud_type().1);
    ROSTypeString::new(p, n)
}

fn any_type_string() -> (r: String)
    ensures
        r@ == any_type_text(),
{
    let s = "<ANY>";
    proof {
        reveal_strlit("<ANY>");
    }
    assert(s@ =~= any_type_text());
    String::from_str(s)
}

/// Options of the text-document converters.
#[derive(Debug)]
pub struct TextDocumentConfig {
    /// The field to take the text from; `None` takes every text field.
    pub field: Option<String>,
}

/// Whether a configuration step left an error of kind `InvalidConfig` for `target`.
pub open spec fn is_invalid_config_for(e: ConverterError, target: TargetView) -> bool {
    e is InvalidConfig && e->InvalidConfig_0@ == target
}

impl TextDocumentConfig {
    pub fn new() -> (r: Self)
        ensures
            r.field is None,
    {
        TextDocumentConfig { field: None }
    }

    pub fn duplicate(&self) -> (r: Self)
        ensures
            r == *self,
    {
        match &self.field {
            Some(f) => TextDocumentConfig { field: Some(f.clone()) },
            None => TextDocumentConfig { field: None },
        }
    }

    /// Reads the `field` setting: it must be text when present.
    pub fn parse(&mut self, config: &ConverterSettings, rerun_name: RerunName, ros_type: String) -> (r: Result<(), ConverterError>)
        ensures
            match setting_lookup(config.entries@, seq!['f', 'i', 'e', 'l', 'd']) {
                None => r is Ok && *final(self) == *old(self),
                Some(SettingValue::Text(s)) => r is Ok && final(self).field == Some(s),
                Some(_) => r is Err && *final(self) == *old(self) && is_invalid_config_for(r->Err_0, rerun_name@)
                    && r->Err_0->InvalidConfig_1 == ros_type,
            },
    {
        let key = "field";
        proof {
            reveal_strlit("field");
        }
        assert(key@ =~= seq!['f', 'i', 'e', 'l', 'd']);
        match config.get(key) {
            None => Ok(()),
            Some(SettingValue::Text(s)) => {
                self.field = Some(s);
                Ok(())
            },
            Some(_) => Err(ConverterError::InvalidConfig(rerun_name, ros_type, String::from_str("'field' must be a string"))),
        }
    }
}

/// Options of the point-cloud converter.
#[derive(Debug)]
pub struct PointCloudConfig {
    pub color: Option<String>,
}

impl PointCloudConfig {
    pub fn new() -> (r: Self)
        ensures
            r.color is None,
    {
        PointCloudConfig { color: None }
    }

    /// Reads the `color` setting: it must be text when present.
    pub fn parse(&mut self, config: &ConverterSettings, rerun_name: RerunName, ros_type: String) -> (r: Result<(), ConverterError>)
        ensures
            match setting_lookup(config.entries@, seq!['c', 'o', 'l', 'o', 'r']) {
                None => r is Ok && *final(self) == *old(self),
                Some(SettingValue::Text(s)) => r is Ok && final(self).color == Some(s),
                Some(_) => r is Err && *final(self) == *old(self) && is_invalid_config_for(r->Err_0, rerun_name@)
                    && r->Err_0->InvalidConfig_1 == ros_type,
            },
    {
        let key = "color";
        proof {
            reveal_strlit("color");
        }
        assert(key@ =~= seq!['c', 'o', 'l', 'o', 'r']);
        match config.get(key) {
            None => Ok(()),
            Some(SettingValue::Text(s)) => {
                self.color = Some(s);
                Ok(())
            },
            Some(_) => Err(ConverterError::InvalidConfig(rerun_name, ros_type, String::from_str("'color' must be a string"))),
        }
    }
}

/// Turns `std_msgs/String` messages into text documents.
#[derive(Debug)]
pub struct StdStringToTextDocument {}

/// Turns a message of any type into a text document of its text fields.
#[derive(Debug)]
pub struct AnyToTextDocument {
    pub config: TextDocumentConfig,
}

/// Turns `sensor_msgs/PointCloud2` messages into 3D points.
#[derive(Debug)]
pub struct SensorPointCloud2ToPoints3D {}

/// A converter: one message in, one log packet out.
///
/// Registry entries are unconfigured prototypes; a converter handed out by the
/// registry is a copy that its user configures once before use.
#[derive(Debug)]
pub enum Converter {
    StdStringToTextDocument(StdStringToTextDocument),
    AnyToTextDocument(AnyToTextDocument),
    SensorPointCloud2ToPoints3D(SensorPointCloud2ToPoints3D),
}

/// The target a converter declares.
pub open spec fn converter_target(c: Converter) -> TargetView {
    match c {
        Converter::StdStringToTextDocument(_) => TargetView::RerunArchetype(text_document_name()),
        Converter::AnyToTextDocument(_) => TargetView::RerunArchetype(text_document_name()),
        Converter::SensorPointCloud2ToPoints3D(_) => TargetView::RerunArchetype(points3d_name()),
    }
}

/// The message type a converter accepts; `None` for one that accepts any type.
pub open spec fn converter_source(c: Converter) -> Option<(Seq<char>, Seq<char>)> {
    match c {
        Converter::StdStringToTextDocument(_) => Some(std_string_type()),
        Converter::AnyToTextDocument(_) => None,
        Converter::SensorPointCloud2ToPoints3D(_) => Some(point_cloud_type()),
    }
}

/// The converter as configured with `config`, or `None` where the settings are rejected.
pub open spec fn configured(c: Converter, config: ConverterSettings) -> Option<Converter> {
    match c {
        Converter::AnyToTextDocument(_) => match setting_lookup(config.entries@, seq!['f', 'i', 'e', 'l', 'd']) {
            None => Some(Converter::AnyToTextDocument(AnyToTextDocument { config: TextDocumentConfig { field: None } })),
            Some(SettingValue::Text(s)) => Some(Converter::AnyToTextDocument(AnyToTextDocument { config: TextDocumentConfig { field: Some(s) } })),
            Some(_) => None,
        },
        _ => if config.entries@.len() == 0 { Some(c) } else { None },
    }
}

/// The accepted message type as text, `<ANY>` for a converter that accepts any.
pub open spec fn source_text_of(c: Converter) -> Seq<char> {
    match converter_source(c) {
        Some(t) => type_path(t.0, t.1),
        None => any_type_text(),
    }
}

/// Whether `p` is the packet that converting `msg` gives.
pub open spec fn converted_to(c: Converter, msg: MessageView, p: LogPacket) -> bool {
    match c {
        Converter::StdStringToTextDocument(_) => match msg.string_field(seq!['d', 'a', 't', 'a']) {
            Some(t) => p == LogPacket::spec_text(t),
            None => false,
        },
        Converter::AnyToTextDocument(a) => match a.config.field {
            Some(f) => match msg.string_field(f@) {
                Some(t) => p == LogPacket::spec_text(t),
                None => false,
            },
            None => p.components is TextDocument && p.components->TextDocument_0@ == text_of_fields(msg.fields@)
                && p.header is None,
        },
        Converter::SensorPointCloud2ToPoints3D(_) => match msg.point_cloud_view() {
            Some(cloud) => match cloud_points(cloud) {
                Some(ps) => p.components is Points3D && p.components->Points3D_0@ == ps && p.header is None,
                None => false,
            },
            None => false,
        },
    }
}

/// Whether converting `msg` succeeds.
pub open spec fn converts(c: Converter, msg: MessageView) -> bool {
    match c {
        Converter::StdStringToTextDocument(_) => msg.string_field(seq!['d', 'a', 't', 'a']) is Some,
        Converter::AnyToTextDocument(a) => match a.config.field {
            Some(f) => msg.string_field(f@) is Some,
            None => true,
        },
        Converter::SensorPointCloud2ToPoints3D(_) => msg.point_cloud_view() is Some
            && cloud_points(msg.point_cloud_view()->Some_0) is Some,
    }
}

impl Converter {
    pub fn duplicate(&self) -> (r: Self)
        ensures
            r == *self,
    {
        match self {
            Converter::StdStringToTextDocument(_) => Converter::StdStringToTextDocument(StdStringToTextDocument {}),
            Converter::AnyToTextDocument(a) => Converter::AnyToTextDocument(AnyToTextDocument { config: a.config.duplicate() }),
            Converter::SensorPointCloud2ToPoints3D(_) => Converter::SensorPointCloud2ToPoints3D(SensorPointCloud2ToPoints3D {}),
        }
    }

    /// The target this converter produces.
    pub fn rerun_name(&self) -> (r: RerunName)
        ensures
            r@ == converter_target(*self),
    {
        match self {
            Converter::SensorPointCloud2ToPoints3D(_) => points3d_target(),
            _ => text_document_target(),
        }
    }

    /// The message type this converter accepts; `None` when it accepts any.
    pub fn ros_type(&self) -> (r: Option<ROSTypeString<'static>>)
        ensures
            match r {
                Some(t) => converter_source(*self) == Some(t@),
                None => converter_source(*self) is None,
            },
    {
        match self {
            Converter::StdStringToTextDocument(_) => Some(std_string_type_string()),
            Converter::AnyToTextDocument(_) => None,
            Converter::SensorPointCloud2ToPoints3D(_) => Some(point_cloud_type_string()),
        }
    }

    /// The accepted message type as text, `<ANY>` for a converter that accepts any.
    fn source_text(&self) -> (r: String)
        ensures
            match converter_source(*self) {
                Some(t) => r@ == type_path(t.0, t.1),
                None => r@ == any_type_text(),
            },
    {
        match self.ros_type() {
            Some(t) => t.path(),
            None => any_type_string(),
        }
    }

    /// Configures the converter once, before first use.
    pub fn set_config(&mut self, config: ConverterSettings) -> (r: Result<(), ConverterError>)
        ensures
            match configured(*old(self), config) {
                Some(c) => r is Ok && *final(self) == c,
                None => r is Err && *final(self) == *old(self)
                    && is_invalid_config_for(r->Err_0, converter_target(*old(self)))
                    && r->Err_0->InvalidConfig_1@ == source_text_of(*old(self)),
            },
    {
        match self {
            Converter::AnyToTextDocument(a) => {
                let name = text_document_target();
                let t = any_type_string();
                let mut fresh = TextDocumentConfig::new();
                let res = fresh.parse(&config, name, t);
                if res.is_ok() {
                    a.config = fresh;
                }
                res
            },
            _ => {
                if config.is_empty() {
                    Ok(())
                } else {
                    let name = self.rerun_name();
                    let t = self.source_text();
                    Err(ConverterError::InvalidConfig(name, t, String::from_str("this converter does not accept any configuration")))
                }
            },
        }
    }

    /// Converts one message of the text-document kind.
    ///
    /// `std_msgs/String` messages give the text of their `data` field; the
    /// converter for any type gives the chosen field's text, or every text field
    /// joined in field order.
    pub fn convert_view(&self, msg: &MessageView) -> (r: Result<LogPacket, ConverterError>)
        ensures
            r is Ok <==> converts(*self, *msg),
            r is Ok ==> converted_to(*self, *msg, r->Ok_0),
            match *self {
                Converter::StdStringToTextDocument(_) => match msg.string_field(seq!['d', 'a', 't', 'a']) {
                    Some(t) => r == Ok::<LogPacket, ConverterError>(LogPacket::spec_text(t)),
                    None => r is Err && r->Err_0 is Conversion && r->Err_0->Conversion_0@ == converter_target(*self)
                        && r->Err_0->Conversion_1@ == source_text_of(*self),
                },
                Converter::AnyToTextDocument(a) => match a.config.field {
                    Some(f) => match msg.string_field(f@) {
                        Some(t) => r == Ok::<LogPacket, ConverterError>(LogPacket::spec_text(t)),
                        None => r is Err && r->Err_0 is Conversion && r->Err_0->Conversion_0@ == converter_target(*self)
                            && r->Err_0->Conversion_1@ == source_text_of(*self),
                    },
                    None => r is Ok && r->Ok_0.components is TextDocument
                        && r->Ok_0.components->TextDocument_0@ == text_of_fields(msg.fields@)
                        && r->Ok_0.header is None,
                },
                Converter::SensorPointCloud2ToPoints3D(_) => match msg.point_cloud_view() {
                    Some(c) => match cloud_points(c) {
                        Some(ps) => r is Ok && r->Ok_0.components is Points3D
                            && r->Ok_0.components->Points3D_0@ == ps && r->Ok_0.header is None,
                        None => r is Err && r->Err_0 is Conversion && r->Err_0->Conversion_0@ == converter_target(*self)
                            && r->Err_0->Conversion_1@ == source_text_of(*self),
                    },
                    None => r is Err && r->Err_0 is Deserialization,
                },
            },
    {
        match self {
            Converter::StdStringToTextDocument(_) => {
                let key = "data";
                proof {
                    reveal_strlit("data");
                }
                assert(key@ =~= seq!['d', 'a', 't', 'a']);
                match msg.get_string(key) {
                    Some(t) => Ok(LogPacket::text(t)),
                    None => Err(ConverterError::Conversion(self.rerun_name(), self.source_text(), String::from_str("Missing 'data' field"))),
                }
            },
            Converter::AnyToTextDocument(a) => match &a.config.field {
                Some(f) => match msg.get_string(f.as_str()) {
                    Some(t) => Ok(LogPacket::text(t)),
                    None => Err(ConverterError::Conversion(self.rerun_name(), self.source_text(), String::from_str("missing text field"))),
                },
                None => Ok(LogPacket::text(msg.all_text())),
            },
            Converter::SensorPointCloud2ToPoints3D(_) => match msg.point_cloud() {
                Some(cloud) => match crate::point_cloud::positions(&cloud) {
                    Some(ps) => Ok(LogPacket { components: Components::Points3D(ps), header: None }),
                    None => Err(ConverterError::Conversion(self.rerun_name(), self.source_text(), String::from_str("failed to create Position3D iterator"))),
                },
                None => Err(ConverterError::Deserialization(String::from_str("not a sensor_msgs/PointCloud2 message"))),
            },
        }
    }
}

} // verus!

use ros_rerun::converter::{
    AnyToTextDocument, Converter, ConverterError, ConverterSettings, PointCloudConfig, SensorPointCloud2ToPoints3D,
    SettingValue, StdStringToTextDocument, TextDocumentConfig,
};
use ros_rerun::message::{Components, FieldValue, Header, MessageField, MessageView, StdHeader, Time};
use ros_rerun::names::RerunName;
use ros_rerun::point_cloud::{access_point_field, positions, FieldReading, PointCloud2, PointField, PointFieldDatatype};

fn field(name: &str, value: FieldValue) -> MessageField {
    MessageField { name: name.to_string(), value }
}

fn text(t: &str) -> FieldValue {
    FieldValue::Text(t.to_string())
}

fn packet_text(c: &Converter, msg: &MessageView) -> String {
    match c.convert_view(msg).expect("converts").components {
        Components::TextDocument(t) => t,
        other => panic!("unexpected {:?}", other),
    }
}

#[test]
fn std_string_takes_the_data_field() {
    let c = Converter::StdStringToTextDocument(StdStringToTextDocument {});
    let msg = MessageView { fields: vec![field("data", text("hello"))] };
    assert_eq!(packet_text(&c, &msg), "hello");
    let missing = MessageView { fields: vec![field("other", text("hello"))] };
    match c.convert_view(&missing) {
        Err(ConverterError::Conversion(name, ty, _)) => {
            assert_eq!(name.describe(), "rerun.archetypes.TextDocument");
            assert_eq!(ty, "std_msgs/msg/String");
        }
        other => panic!("unexpected {:?}", other),
    }
}

#[test]
fn any_to_text_joins_text_fields() {
    let c = Converter::AnyToTextDocument(AnyToTextDocument { config: TextDocumentConfig::new() });
    let msg = MessageView {
        fields: vec![
            field("a", text("ab")),
            field("n", FieldValue::Unsigned(7)),
            field("l", FieldValue::TextList(vec!["zz".to_string()])),
            field("b", text("cd")),
        ],
    };
    assert_eq!(packet_text(&c, &msg), "abcd");
    let empty = MessageView { fields: vec![] };
    assert_eq!(packet_text(&c, &empty), "");
}

#[test]
fn any_to_text_with_a_chosen_field() {
    let mut c = Converter::AnyToTextDocument(AnyToTextDocument { config: TextDocumentConfig::new() });
    c.set_config(ConverterSettings::new().with("field", SettingValue::Text("b".into()))).expect("accepted");
    let msg = MessageView { fields: vec![field("a", text("ab")), field("b", text("cd"))] };
    assert_eq!(packet_text(&c, &msg), "cd");
    let without = MessageView { fields: vec![field("a", text("ab"))] };
    assert!(c.convert_view(&without).is_err());
}

#[test]
fn converters_without_options_reject_settings() {
    let mut c = Converter::SensorPointCloud2ToPoints3D(SensorPointCloud2ToPoints3D {});
    assert!(c.set_config(ConverterSettings::new()).is_ok());
    let r = c.set_config(ConverterSettings::new().with("color", SettingValue::Text("red".into())));
    match r {
        Err(ConverterError::InvalidConfig(name, ty, _)) => {
            assert_eq!(name.describe(), "rerun.archetypes.Points3D");
            assert_eq!(ty, "sensor_msgs/msg/PointCloud2");
        }
        other => panic!("unexpected {:?}", other),
    }
}

#[test]
fn converter_declarations() {
    let c = Converter::StdStringToTextDocument(StdStringToTextDocument {});
    let t = c.ros_type().expect("typed");
    assert_eq!(t.path(), "std_msgs/msg/String");
    assert!(Converter::AnyToTextDocument(AnyToTextDocument { config: TextDocumentConfig::new() }).ros_type().is_none());
    assert_eq!(c.rerun_name().describe(), "rerun.archetypes.TextDocument");
}

#[test]
fn point_cloud_config_reads_color() {
    let mut cfg = PointCloudConfig::new();
    let name = RerunName::RerunArchetype("rerun.archetypes.Points3D".into());
    cfg.parse(&ConverterSettings::new().with("color", SettingValue::Text("red".into())), name, "x".into()).expect("ok");
    assert_eq!(cfg.color.as_deref(), Some("red"));
    let name = RerunName::RerunArchetype("rerun.archetypes.Points3D".into());
    let bad = cfg.parse(&ConverterSettings::new().with("color", SettingValue::Integer(1)), name, "x".into());
    assert!(bad.is_err());
}

#[test]
fn reads_fields_in_both_byte_orders() {
    assert_eq!(access_point_field(&[0x01, 0x02], PointFieldDatatype::UInt16, true), FieldReading::UInt16(0x0102));
    assert_eq!(access_point_field(&[0x01, 0x02], PointFieldDatatype::UInt16, false), FieldReading::UInt16(0x0201));
    assert_eq!(access_point_field(&[0xff, 0xfe], PointFieldDatatype::Int16, true), FieldReading::Int16(-2));
    assert_eq!(access_point_field(&[0xfe], PointFieldDatatype::Int8, false), FieldReading::Int8(-2));
    assert_eq!(access_point_field(&[0xfe], PointFieldDatatype::UInt8, false), FieldReading::UInt8(254));
    assert_eq!(
        access_point_field(&[0, 0, 0x80, 0x3f], PointFieldDatatype::Float32, false),
        FieldReading::Float32Bits(1.0f32.to_bits())
    );
    assert_eq!(
        access_point_field(&1.5f64.to_be_bytes(), PointFieldDatatype::Float64, true),
        FieldReading::Float64Bits(1.5f64.to_bits())
    );
    assert_eq!(access_point_field(&[1, 2, 3], PointFieldDatatype::Int32, true), FieldReading::Missing);
    assert_eq!(access_point_field(&[0xff, 0xff, 0xff, 0xff], PointFieldDatatype::Int32, false), FieldReading::Int32(-1));
    assert_eq!(access_point_field(&[1, 2, 3, 4, 5], PointFieldDatatype::UInt32, true), FieldReading::UInt32(0x01020304));
    assert_eq!(access_point_field(&[1, 2, 3, 4], PointFieldDatatype::UInt32, false), FieldReading::UInt32(0x04030201));
    assert_eq!(
        access_point_field(&2.5f64.to_le_bytes(), PointFieldDatatype::Float64, false),
        FieldReading::Float64Bits(2.5f64.to_bits())
    );
    assert_eq!(access_point_field(&[0x80, 0, 0, 0], PointFieldDatatype::Int32, true), FieldReading::Int32(i32::MIN));
    assert_eq!(access_point_field(&[], PointFieldDatatype::UInt8, true), FieldReading::Missing);
}

fn xyz_fields() -> Vec<PointField> {
    vec![
        PointField { name: "x".into(), offset: 0, datatype: PointFieldDatatype::Float32 },
        PointField { name: "y".into(), offset: 4, datatype: PointFieldDatatype::Float32 },
        PointField { name: "z".into(), offset: 8, datatype: PointFieldDatatype::Float32 },
    ]
}

#[test]
fn positions_of_a_cloud() {
    let mut data = Vec::new();
    for v in [1.0f32, 2.0, 3.0, 4.0, 5.0, 6.0] {
        data.extend_from_slice(&v.to_le_bytes());
    }
    data.push(9);
    let cloud = PointCloud2 { data, point_step: 12, is_bigendian: false, fields: xyz_fields() };
    let ps = positions(&cloud).expect("readable");
    assert_eq!(ps.len(), 2);
    assert_eq!(ps[1].x, FieldReading::Float32Bits(4.0f32.to_bits()));
    assert_eq!(ps[1].z, FieldReading::Float32Bits(6.0f32.to_bits()));
    let no_z = PointCloud2 { data: vec![0; 12], point_step: 12, is_bigendian: false, fields: xyz_fields().into_iter().take(2).collect() };
    assert!(positions(&no_z).is_none());
    let zero_step = PointCloud2 { data: vec![0; 12], point_step: 0, is_bigendian: false, fields: xyz_fields() };
    assert!(positions(&zero_step).is_none());
}

fn point_field_msg(name: &str, offset: u64, code: u64) -> MessageView {
    MessageView {
        fields: vec![
            field("name", text(name)),
            field("offset", FieldValue::Unsigned(offset)),
            field("datatype", FieldValue::Unsigned(code)),
            field("count", FieldValue::Unsigned(1)),
        ],
    }
}

#[test]
fn point_cloud_message_converts() {
    let c = Converter::SensorPointCloud2ToPoints3D(SensorPointCloud2ToPoints3D {});
    let msg = MessageView {
        fields: vec![
            field("height", FieldValue::Unsigned(1)),
            field("fields", FieldValue::Messages(vec![point_field_msg("x", 0, 2), point_field_msg("y", 1, 2), point_field_msg("z", 2, 2)])),
            field("is_bigendian", FieldValue::Boolean(false)),
            field("point_step", FieldValue::Unsigned(3)),
            field("data", FieldValue::Bytes(vec![1, 2, 3, 4, 5, 6])),
        ],
    };
    match c.convert_view(&msg).expect("converts").components {
        Components::Points3D(ps) => {
            assert_eq!(ps.len(), 2);
            assert_eq!(ps[0].y, FieldReading::UInt8(2));
            assert_eq!(ps[1].z, FieldReading::UInt8(6));
        }
        other => panic!("unexpected {:?}", other),
    }
    let broken = MessageView { fields: vec![field("data", FieldValue::Bytes(vec![]))] };
    assert!(matches!(c.convert_view(&broken), Err(ConverterError::Deserialization(_))));
}

#[test]
fn header_from_message_metadata() {
    let h = Header::from_message(StdHeader { stamp: Time { sec: 2, nanosec: 5 }, frame_id: "map".into() }, 77);
    assert_eq!(h.time_nanos, 2_000_000_005);
    assert_eq!(h.frame_id.as_deref(), Some("map"));
    let h = Header::from_message(StdHeader { stamp: Time { sec: 0, nanosec: 0 }, frame_id: String::new() }, 77);
    assert_eq!(h.time_nanos, 77);
    assert!(h.frame_id.is_none());
}

#[test]
fn field_past_the_point_reads_missing() {
    let fields = vec![
        PointField { name: "x".into(), offset: 8, datatype: PointFieldDatatype::UInt8 },
        PointField { name: "y".into(), offset: 1, datatype: PointFieldDatatype::UInt8 },
        PointField { name: "z".into(), offset: 3, datatype: PointFieldDatatype::UInt16 },
    ];
    let cloud = PointCloud2 { data: vec![1, 2, 3, 4, 5, 6, 7, 8], point_step: 4, is_bigendian: true, fields };
    let ps = positions(&cloud).expect("x, y and z are declared");
    assert_eq!(ps.len(), 2);
    assert_eq!(ps[0].x, FieldReading::Missing);
    assert_eq!(ps[0].y, FieldReading::UInt8(2));
    assert_eq!(ps[0].z, FieldReading::Missing);
    assert_eq!(ps[1].y, FieldReading::UInt8(6));
}

#[test]
fn rejected_settings_leave_the_converter_unchanged() {
    let mut c = Converter::AnyToTextDocument(AnyToTextDocument { config: TextDocumentConfig { field: Some("a".into()) } });
    let r = c.set_config(ConverterSettings::new().with("field", SettingValue::Boolean(true)));
    match r {
        Err(ConverterError::InvalidConfig(_, ty, _)) => assert_eq!(ty, "<ANY>"),
        other => panic!("unexpected {:?}", other),
    }
    match c {
        Converter::AnyToTextDocument(a) => assert_eq!(a.config.field.as_deref(), Some("a")),
        other => panic!("unexpected {:?}", other),
    }
}

#[test]
fn point_cloud_without_z_names_target_and_type() {
    let c = Converter::SensorPointCloud2ToPoints3D(SensorPointCloud2ToPoints3D {});
    let msg = MessageView {
        fields: vec![
            field("fields", FieldValue::Messages(vec![point_field_msg("x", 0, 2), point_field_msg("y", 1, 2)])),
            field("is_bigendian", FieldValue::Boolean(false)),
            field("point_step", FieldValue::Unsigned(2)),
            field("data", FieldValue::Bytes(vec![1, 2])),
        ],
    };
    match c.convert_view(&msg) {
        Err(ConverterError::Conversion(name, ty, _)) => {
            assert_eq!(name.describe(), "rerun.archetypes.Points3D");
            assert_eq!(ty, "sensor_msgs/msg/PointCloud2");
        }
        other => panic!("unexpected {:?}", other),
    }
}

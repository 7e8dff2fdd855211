use backend_sensor_monitor::connection::{
    decode_message, step, Action, ConnectionState, FrameEvent, IngestError,
};
use backend_sensor_monitor::json::{parse_document, JsonValue};
use backend_sensor_monitor::number::{read_decimal, Decimal};
use backend_sensor_monitor::sensors::{classify_value, SensorType};
use backend_sensor_monitor::store::{collection_name, database_name};

fn dec(negative: bool, mantissa: u128, exponent: i64) -> Decimal {
    Decimal { negative, mantissa, exponent }
}

const LIGHT: &str = "{\"SensorName\":\"LightSensor\",\"Timestamp\":1677023344081,\"Light\":\"17\",\"payload\":\"\"}";

#[test]
fn scenario_light_reading() {
    match decode_message(LIGHT) {
        Ok(SensorType::LightSensor(l)) => {
            assert_eq!(l.light, dec(false, 17, 0));
            assert_eq!(l.base.sensor_name, "LightSensor");
            assert_eq!(l.base.timestamp, 1677023344081);
            assert_eq!(l.base.payload, "");
        }
        other => panic!("unexpected {:?}", other),
    }
}

#[test]
fn scenario_proximity_reading() {
    let json = "{\"SensorName\":\"Proximity\",\"Timestamp\":1677259406733,\"IsNear\":\"true\",\"Value\":\"0\",\"MaxRange\":\"5\",\"payload\":\"Movil\"}";
    match decode_message(json) {
        Ok(SensorType::ProximitySensor(p)) => {
            assert!(p.is_near);
            assert_eq!(p.value, dec(false, 0, 0));
            assert_eq!(p.max_range, dec(false, 5, 0));
            assert_eq!(p.base.payload, "Movil");
        }
        other => panic!("unexpected {:?}", other),
    }
}

#[test]
fn scenario_not_json_keeps_connection_open() {
    let (state, action) = step(ConnectionState::Open, &FrameEvent::Text("not json".to_string()));
    assert_eq!(state, ConnectionState::Open);
    assert_eq!(
        action,
        Action::Report(IngestError::PayloadParseError { raw: "not json".to_string() })
    );
}

#[test]
fn scenario_unknown_object_keeps_connection_open() {
    let (state, action) = step(ConnectionState::Open, &FrameEvent::Text("{\"foo\":\"bar\"}".to_string()));
    assert_eq!(state, ConnectionState::Open);
    assert_eq!(
        action,
        Action::Report(IngestError::UnrecognizedSensorPayload { raw: "{\"foo\":\"bar\"}".to_string() })
    );
}

#[test]
fn native_and_text_encodings_agree() {
    let pairs = [
        (
            "{\"SensorName\":\"L\",\"Timestamp\":1,\"Light\":17.5,\"payload\":\"\"}",
            "{\"SensorName\":\"L\",\"Timestamp\":\"1\",\"Light\":\"17.5\",\"payload\":\"\"}",
        ),
        (
            "{\"SensorName\":\"A\",\"Timestamp\":2,\"x\":-3.25,\"y\":8,\"z\":0.5,\"payload\":\"p\"}",
            "{\"SensorName\":\"A\",\"Timestamp\":\"2\",\"x\":\"-3.25\",\"y\":\"8\",\"z\":\"0.5\",\"payload\":\"p\"}",
        ),
        (
            "{\"SensorName\":\"O\",\"Timestamp\":3,\"azimuth\":189.5,\"pitch\":336,\"roll\":1,\"payload\":\"\"}",
            "{\"SensorName\":\"O\",\"Timestamp\":\"3\",\"azimuth\":\"189.5\",\"pitch\":\"336\",\"roll\":\"1\",\"payload\":\"\"}",
        ),
        (
            "{\"SensorName\":\"P\",\"Timestamp\":4,\"IsNear\":false,\"Value\":0,\"MaxRange\":5,\"payload\":\"\"}",
            "{\"SensorName\":\"P\",\"Timestamp\":\"4\",\"IsNear\":\"false\",\"Value\":\"0\",\"MaxRange\":\"5\",\"payload\":\"\"}",
        ),
    ];
    for (native, text) in pairs.iter() {
        let a = decode_message(native).unwrap();
        let b = decode_message(text).unwrap();
        assert_eq!(a, b);
    }
}

#[test]
fn earlier_variant_wins_when_two_match() {
    let json = "{\"SensorName\":\"S\",\"Timestamp\":5,\"Light\":\"1\",\"x\":1,\"y\":2,\"z\":3,\"payload\":\"\"}";
    assert!(matches!(decode_message(json), Ok(SensorType::LightSensor(_))));
    let json = "{\"SensorName\":\"S\",\"Timestamp\":5,\"Light\":\"dark\",\"x\":1,\"y\":2,\"z\":3,\"payload\":\"\"}";
    assert!(matches!(decode_message(json), Ok(SensorType::AccelerometerSensor(_))));
}

#[test]
fn missing_field_is_not_a_partial_match() {
    let json = "{\"SensorName\":\"LightSensor\",\"Timestamp\":1677023344081,\"Light\":\"17\"}";
    assert!(matches!(
        decode_message(json),
        Err(IngestError::UnrecognizedSensorPayload { .. })
    ));
    let v = parse_document("{\"SensorName\":\"A\",\"Timestamp\":2,\"x\":1,\"y\":2,\"payload\":\"\"}").unwrap();
    assert_eq!(classify_value(&v), None);
}

#[test]
fn extra_fields_are_ignored() {
    let json = "{\"SensorName\":\"L\",\"Timestamp\":1,\"Light\":2,\"payload\":\"\",\"extra\":[1,2]}";
    assert!(matches!(decode_message(json), Ok(SensorType::LightSensor(_))));
}

#[test]
fn timestamp_may_come_as_text() {
    let text = "{\"SensorName\":\"LightSensor\",\"Timestamp\":\"1677023344081\",\"Light\":17,\"payload\":\"\"}";
    assert_eq!(decode_message(text).unwrap(), decode_message(LIGHT).unwrap());
    let json = "{\"SensorName\":\"L\",\"Timestamp\":1.5,\"Light\":2,\"payload\":\"\"}";
    assert!(decode_message(json).is_err());
    let json = "{\"SensorName\":\"L\",\"Timestamp\":\"-1\",\"Light\":2,\"payload\":\"\"}";
    assert!(decode_message(json).is_err());
    let json = "{\"SensorName\":\"L\",\"Timestamp\":\"18446744073709551616\",\"Light\":2,\"payload\":\"\"}";
    assert!(decode_message(json).is_err());
}

#[test]
fn geolocation_fields_take_no_text() {
    let native = "{\"position\":{\"timestamp\":1,\"mocked\":true,\"provider\":\"gps\",\"coords\":{\"speed\":0,\"heading\":0,\"altitude\":1,\"accuracy\":1,\"longitude\":1,\"altitudeAccuracy\":1,\"latitude\":1}},\"payload\":\"\"}";
    assert!(matches!(decode_message(native), Ok(SensorType::GeolocationSensor(_))));
    let text_time = native.replace("\"timestamp\":1", "\"timestamp\":\"1\"");
    assert!(decode_message(&text_time).is_err());
    let text_speed = native.replace("\"speed\":0", "\"speed\":\"0\"");
    assert!(decode_message(&text_speed).is_err());
}

#[test]
fn loop_counts_records_and_errors() {
    let frames = vec![
        FrameEvent::Text(LIGHT.to_string()),
        FrameEvent::Text("garbage".to_string()),
        FrameEvent::Binary,
        FrameEvent::Ping,
        FrameEvent::Text("{\"foo\":1}".to_string()),
        FrameEvent::Text(LIGHT.to_string()),
        FrameEvent::Pong,
    ];
    let mut state = ConnectionState::Open;
    let (mut stored, mut reported, mut skipped) = (0, 0, 0);
    for f in frames.iter() {
        let (next, action) = step(state, f);
        state = next;
        match action {
            Action::Store(_) => stored += 1,
            Action::Report(_) => reported += 1,
            Action::Skip => skipped += 1,
            Action::Finish => panic!("finished early"),
        }
    }
    assert_eq!((stored, reported, skipped), (2, 2, 3));
    assert_eq!(state, ConnectionState::Open);
    let (state, action) = step(state, &FrameEvent::Close);
    assert_eq!((state, action), (ConnectionState::Closed, Action::Finish));
    let (state, action) = step(state, &FrameEvent::Text(LIGHT.to_string()));
    assert_eq!((state, action), (ConnectionState::Closed, Action::Finish));
    let (state, _) = step(ConnectionState::Open, &FrameEvent::Disconnected);
    assert_eq!(state, ConnectionState::Closed);
}

#[test]
fn routing_follows_variant() {
    assert_eq!(database_name(), "sensors");
    let light = decode_message(LIGHT).unwrap();
    assert_eq!(collection_name(&light), "light_sensor_data");
    let other = decode_message("{\"SensorName\":\"X\",\"Timestamp\":9,\"Light\":0,\"payload\":\"zz\"}").unwrap();
    assert_eq!(collection_name(&other), "light_sensor_data");
    let acc = decode_message("{\"SensorName\":\"A\",\"Timestamp\":2,\"x\":1,\"y\":2,\"z\":3,\"payload\":\"\"}").unwrap();
    assert_eq!(collection_name(&acc), "accelerometer_sensor_data");
    let geo = decode_message("{\"position\":{\"timestamp\":1,\"mocked\":true,\"provider\":\"gps\",\"coords\":{\"speed\":0,\"heading\":0,\"altitude\":1,\"accuracy\":1,\"longitude\":1,\"altitudeAccuracy\":1,\"latitude\":1}},\"payload\":\"\"}").unwrap();
    assert_eq!(collection_name(&geo), "geolocation_sensor_data");
    let ori = decode_message("{\"SensorName\":\"O\",\"Timestamp\":3,\"azimuth\":1,\"pitch\":2,\"roll\":3,\"payload\":\"\"}").unwrap();
    assert_eq!(collection_name(&ori), "orientation_sensor_data");
    let pro = decode_message("{\"SensorName\":\"P\",\"Timestamp\":4,\"IsNear\":1,\"Value\":0,\"MaxRange\":5,\"payload\":\"\"}").unwrap();
    assert_eq!(collection_name(&pro), "proximity_sensor_data");
}

#[test]
fn decimal_readings() {
    assert_eq!(read_decimal("17"), Some(dec(false, 17, 0)));
    assert_eq!(read_decimal("17.0"), Some(dec(false, 17, 0)));
    assert_eq!(read_decimal("1700"), Some(dec(false, 17, 2)));
    assert_eq!(read_decimal("-3.25"), Some(dec(true, 325, -2)));
    assert_eq!(read_decimal("+.5"), Some(dec(false, 5, -1)));
    assert_eq!(read_decimal("5."), Some(dec(false, 5, 0)));
    assert_eq!(read_decimal("2.5E-3"), Some(dec(false, 25, -4)));
    assert_eq!(read_decimal("1e+2"), Some(dec(false, 1, 2)));
    assert_eq!(read_decimal("-0.000"), Some(dec(false, 0, 0)));
    assert_eq!(read_decimal("18446744073709551616"), Some(dec(false, 18446744073709551616, 0)));
    assert_eq!(
        read_decimal("0.12345678901234567890123"),
        Some(dec(false, 12345678901234567890123, -23))
    );
    assert_eq!(
        read_decimal("340282366920938463463374607431768211455"),
        Some(dec(false, u128::MAX, 0))
    );
    assert_eq!(read_decimal("340282366920938463463374607431768211456"), None);
    assert_eq!(read_decimal("1000000000000000000000000000000000000000e-3"), None);
    assert_eq!(read_decimal("100000000000000000000000000000000000000"), Some(dec(false, 1, 38)));
    assert_eq!(read_decimal("1e1000000001"), None);
    assert_eq!(read_decimal(""), None);
    assert_eq!(read_decimal("."), None);
    assert_eq!(read_decimal("1e"), None);
    assert_eq!(read_decimal(" 1"), None);
    assert_eq!(read_decimal("1.2.3"), None);
    assert_eq!(read_decimal("abc"), None);
}

#[test]
fn lenient_flags() {
    let base = |flag: &str| {
        format!(
            "{{\"SensorName\":\"P\",\"Timestamp\":4,\"IsNear\":{},\"Value\":0,\"MaxRange\":5,\"payload\":\"\"}}",
            flag
        )
    };
    let near = |flag: &str| match decode_message(&base(flag)) {
        Ok(SensorType::ProximitySensor(p)) => Some(p.is_near),
        _ => None,
    };
    assert_eq!(near("true"), Some(true));
    assert_eq!(near("\"TRUE\""), Some(true));
    assert_eq!(near("\"False\""), Some(false));
    assert_eq!(near("1"), Some(true));
    assert_eq!(near("0.0"), Some(false));
    assert_eq!(near("\"1\""), Some(true));
    assert_eq!(near("\"0\""), Some(false));
    assert_eq!(near("2"), None);
    assert_eq!(near("\"yes\""), None);
    assert_eq!(near("null"), None);
}

#[test]
fn parsed_tree_holds_the_document() {
    let v = parse_document("{\"a\":[true,null,\"s\",-1.5]}").unwrap();
    let fields = match &v {
        JsonValue::Object(fields) => fields,
        _ => panic!("not an object"),
    };
    assert_eq!(fields.len(), 1);
    assert_eq!(fields[0].0, "a");
    let items = match &fields[0].1 {
        JsonValue::Array(items) => items,
        _ => panic!("not an array"),
    };
    assert_eq!(items.len(), 4);
    assert!(matches!(items[0], JsonValue::Bool(true)));
    assert!(matches!(items[1], JsonValue::Null));
    assert!(matches!(&items[2], JsonValue::Str(s) if s == "s"));
    assert!(matches!(&items[3], JsonValue::Number(t) if t == "-1.5"));
    assert!(parse_document("{").is_none());
}

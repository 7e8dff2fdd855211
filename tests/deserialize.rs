use backend_sensor_monitor::connection::{decode_message, IngestError};
use backend_sensor_monitor::json::parse_document;
use backend_sensor_monitor::sensors::{
    decode_accelerometer, decode_geolocation, decode_light, decode_orientation, decode_proximity,
    SensorType,
};

#[test]
fn deserialize_light_sensor() -> Result<(), IngestError> {
    let json = "{\"SensorName\":\"LightSensor\",\"Timestamp\":1677023344081,\"Light\":\"17\",\"payload\":\"\"}";

    assert!(decode_light(&parse_document(json).unwrap()).is_some());

    let s = decode_message(json)?;

    assert!(matches!(s, SensorType::LightSensor(_)));

    Ok(())
}

#[test]
fn deserialize_accelerometer_sensor() -> Result<(), IngestError> {
    let json = "{\"SensorName\":\"Accelerometer\",\"Timestamp\":1677025378441,\"x\":\"-3.0370447635650635\",\"y\":\"8.360552787780762\",\"z\":\"4.320336818695068\",\"payload\":\"\"}";

    assert!(decode_accelerometer(&parse_document(json).unwrap()).is_some());

    let s = decode_message(json)?;

    assert!(matches!(s, SensorType::AccelerometerSensor(_)));

    Ok(())
}

#[test]
fn deserialize_geolocation_sensor() -> Result<(), IngestError> {
    let json = "{\"position\":{\"timestamp\":1677259207375,\"mocked\":false,\"provider\":\"fused\",\"coords\":{\"speed\":0,\"heading\":0,\"altitude\":525.5,\"accuracy\":16.850000381469727,\"longitude\":-3.7842402,\"altitudeAccuracy\":2.4427359104156494,\"latitude\":37.7816604}},\"payload\":\"Movil\"}";

    assert!(decode_geolocation(&parse_document(json).unwrap()).is_some());

    let s = decode_message(json)?;

    assert!(matches!(s, SensorType::GeolocationSensor(_)));

    Ok(())
}

#[test]
fn deserialize_orientation_sensor() -> Result<(), IngestError> {
    let json = "{\"SensorName\":\"Orientation\",\"Timestamp\":1677259355607,\"azimuth\":\"189.4746856689453\",\"pitch\":\"336.5517883300781\",\"roll\":\"359.8556823730469\",\"payload\":\"Movil\"}";

    assert!(decode_orientation(&parse_document(json).unwrap()).is_some());

    let s = decode_message(json)?;

    assert!(matches!(s, SensorType::OrientationSensor(_)));

    Ok(())
}

#[test]
fn deserialize_proximity_sensor() -> Result<(), IngestError> {
    let json = "{\"SensorName\":\"Proximity\",\"Timestamp\":1677259406733,\"IsNear\":\"true\",\"Value\":\"0\",\"MaxRange\":\"5\",\"payload\":\"Movil\"}";

    assert!(decode_proximity(&parse_document(json).unwrap()).is_some());

    let s = decode_message(json)?;

    assert!(matches!(s, SensorType::ProximitySensor(_)));

    Ok(())
}

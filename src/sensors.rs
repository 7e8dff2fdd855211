//! The sensor records and their classification from an untagged JSON object.
use vstd::prelude::*;
use crate::json::{JsonValue, member, get_member};
use crate::number::Decimal;
use crate::fields::{
    lenient_reading_field, exact_reading_field, count_field, text_field, exact_flag_field,
    lenient_flag_field, lenient_count_field, read_lenient_count_field, read_lenient_reading_field, read_exact_reading_field, read_count_field,
    read_text_field, read_exact_flag_field, read_lenient_flag_field,
};

verus! {

/// What every sensor but the geolocation one reports beside its readings.
#[derive(Clone, Debug, PartialEq)]
pub struct SensorBase {
    pub sensor_name: String,
    pub timestamp: u64,
    pub payload: String,
}

#[derive(Clone, Debug, PartialEq)]
pub struct Accelerometer {
    pub x: Decimal,
    pub y: Decimal,
    pub z: Decimal,
    pub base: SensorBase,
}

#[derive(Clone, Debug, PartialEq)]
pub struct Light {
    pub light: Decimal,
    pub base: SensorBase,
}

#[derive(Clone, Debug, PartialEq)]
pub struct Geolocation {
    pub payload: String,
    pub position: GeolocationPosition,
}

#[derive(Clone, Debug, PartialEq)]
pub struct GeolocationPosition {
    pub timestamp: u64,
    pub provider: String,
    pub mocked: bool,
    pub coords: GeolocationPositionCoords,
}

#[derive(Clone, Debug, PartialEq)]
pub struct GeolocationPositionCoords {
    pub accuracy: Decimal,
    pub altitude: Decimal,
    pub altitude_accuracy: Decimal,
    pub heading: Decimal,
    pub latitude: Decimal,
    pub longitude: Decimal,
    pub speed: Decimal,
}

#[derive(Clone, Debug, PartialEq)]
pub struct Orientation {
    pub azimuth: Decimal,
    pub pitch: Decimal,
    pub roll: Decimal,
    pub base: SensorBase,
}

#[derive(Clone, Debug, PartialEq)]
pub struct Proximity {
    pub is_near: bool,
    pub max_range: Decimal,
    pub value: Decimal,
    pub base: SensorBase,
}

/// A classified sensor message. The variants stand in the order in which
/// classification tries them.
#[derive(Clone, Debug, PartialEq)]
pub enum SensorType {
    LightSensor(Light),
    AccelerometerSensor(Accelerometer),
    GeolocationSensor(Geolocation),
    OrientationSensor(Orientation),
    ProximitySensor(Proximity),
}

pub open spec fn base_of(v: JsonValue) -> Option<SensorBase> {
    let name = text_field(v, "SensorName"@);
    let time = lenient_count_field(v, "Timestamp"@);
    let payload = text_field(v, "payload"@);
    if name is Some && time is Some && payload is Some {
        Some(SensorBase { sensor_name: name->0, timestamp: time->0, payload: payload->0 })
    } else {
        None
    }
}

/// `v` read as this variant's record, when each of its fields decodes.
pub open spec fn light_of(v: JsonValue) -> Option<Light> {
    let light = lenient_reading_field(v, "Light"@);
    let base = base_of(v);
    if light is Some && base is Some {
        Some(Light { light: light->0, base: base->0 })
    } else {
        None
    }
}

/// `v` read as this variant's record, when each of its fields decodes.
pub open spec fn accelerometer_of(v: JsonValue) -> Option<Accelerometer> {
    let x = lenient_reading_field(v, "x"@);
    let y = lenient_reading_field(v, "y"@);
    let z = lenient_reading_field(v, "z"@);
    let base = base_of(v);
    if x is Some && y is Some && z is Some && base is Some {
        Some(Accelerometer { x: x->0, y: y->0, z: z->0, base: base->0 })
    } else {
        None
    }
}

pub open spec fn coords_of(c: JsonValue) -> Option<GeolocationPositionCoords> {
    let accuracy = exact_reading_field(c, "accuracy"@);
    let altitude = exact_reading_field(c, "altitude"@);
    let altitude_accuracy = exact_reading_field(c, "altitudeAccuracy"@);
    let heading = exact_reading_field(c, "heading"@);
    let latitude = exact_reading_field(c, "latitude"@);
    let longitude = exact_reading_field(c, "longitude"@);
    let speed = exact_reading_field(c, "speed"@);
    if accuracy is Some && altitude is Some && altitude_accuracy is Some && heading is Some
        && latitude is Some && longitude is Some && speed is Some {
        Some(
            GeolocationPositionCoords {
                accuracy: accuracy->0,
                altitude: altitude->0,
                altitude_accuracy: altitude_accuracy->0,
                heading: heading->0,
                latitude: latitude->0,
                longitude: longitude->0,
                speed: speed->0,
            },
        )
    } else {
        None
    }
}

pub open spec fn position_of(p: JsonValue) -> Option<GeolocationPosition> {
    let timestamp = count_field(p, "timestamp"@);
    let provider = text_field(p, "provider"@);
    let mocked = exact_flag_field(p, "mocked"@);
    let coords = match member(p, "coords"@) {
        Some(c) => coords_of(c),
        None => None,
    };
    if timestamp is Some && provider is Some && mocked is Some && coords is Some {
        Some(
            GeolocationPosition {
                timestamp: timestamp->0,
                provider: provider->0,
                mocked: mocked->0,
                coords: coords->0,
            },
        )
    } else {
        None
    }
}

/// `v` read as this variant's record, when each of its fields decodes.
pub open spec fn geolocation_of(v: JsonValue) -> Option<Geolocation> {
    let payload = text_field(v, "payload"@);
    let position = match member(v, "position"@) {
        Some(p) => position_of(p),
        None => None,
    };
    if payload is Some && position is Some {
        Some(Geolocation { payload: payload->0, position: position->0 })
    } else {
        None
    }
}

/// `v` read as this variant's record, when each of its fields decodes.
pub open spec fn orientation_of(v: JsonValue) -> Option<Orientation> {
    let azimuth = lenient_reading_field(v, "azimuth"@);
    let pitch = lenient_reading_field(v, "pitch"@);
    let roll = lenient_reading_field(v, "roll"@);
    let base = base_of(v);
    if azimuth is Some && pitch is Some && roll is Some && base is Some {
        Some(Orientation { azimuth: azimuth->0, pitch: pitch->0, roll: roll->0, base: base->0 })
    } else {
        None
    }
}

/// `v` read as this variant's record, when each of its fields decodes.
pub open spec fn proximity_of(v: JsonValue) -> Option<Proximity> {
    let is_near = lenient_flag_field(v, "IsNear"@);
    let max_range = lenient_reading_field(v, "MaxRange"@);
    let value = lenient_reading_field(v, "Value"@);
    let base = base_of(v);
    if is_near is Some && max_range is Some && value is Some && base is Some {
        Some(
            Proximity {
                is_near: is_near->0,
                max_range: max_range->0,
                value: value->0,
                base: base->0,
            },
        )
    } else {
        None
    }
}

/// `v` decoded as the variant at position `i` of the classification order.
pub open spec fn variant_of(i: int, v: JsonValue) -> Option<SensorType> {
    if i == 0 {
        match light_of(v) {
            Some(x) => Some(SensorType::LightSensor(x)),
            None => None,
        }
    } else if i == 1 {
        match accelerometer_of(v) {
            Some(x) => Some(SensorType::AccelerometerSensor(x)),
            None => None,
        }
    } else if i == 2 {
        match geolocation_of(v) {
            Some(x) => Some(SensorType::GeolocationSensor(x)),
            None => None,
        }
    } else if i == 3 {
        match orientation_of(v) {
            Some(x) => Some(SensorType::OrientationSensor(x)),
            None => None,
        }
    } else if i == 4 {
        match proximity_of(v) {
            Some(x) => Some(SensorType::ProximitySensor(x)),
            None => None,
        }
    } else {
        None
    }
}

/// The position of a record's variant in the classification order.
pub open spec fn variant_index(s: SensorType) -> int {
    match s {
        SensorType::LightSensor(_) => 0,
        SensorType::AccelerometerSensor(_) => 1,
        SensorType::GeolocationSensor(_) => 2,
        SensorType::OrientationSensor(_) => 3,
        SensorType::ProximitySensor(_) => 4,
    }
}

/// The first variant, in order, as which `v` decodes.
pub open spec fn classify(v: JsonValue) -> Option<SensorType> {
    if variant_of(0, v) is Some {
        variant_of(0, v)
    } else if variant_of(1, v) is Some {
        variant_of(1, v)
    } else if variant_of(2, v) is Some {
        variant_of(2, v)
    } else if variant_of(3, v) is Some {
        variant_of(3, v)
    } else {
        variant_of(4, v)
    }
}

fn decode_base(v: &JsonValue) -> (r: Option<SensorBase>)
    ensures
        r == base_of(*v),
{
    let name = read_text_field(v, "SensorName");
    let time = read_lenient_count_field(v, "Timestamp");
    let payload = read_text_field(v, "payload");
    match (name, time, payload) {
        (Some(sensor_name), Some(timestamp), Some(payload)) => Some(
            SensorBase { sensor_name, timestamp, payload },
        ),
        _ => None,
    }
}

/// Decodes `v` as this variant's record (see `light_of`).
pub fn decode_light(v: &JsonValue) -> (r: Option<Light>)
    ensures
        r == light_of(*v),
{
    let light = read_lenient_reading_field(v, "Light");
    let base = decode_base(v);
    match (light, base) {
        (Some(light), Some(base)) => Some(Light { light, base }),
        _ => None,
    }
}

/// Decodes `v` as this variant's record (see `accelerometer_of`).
pub fn decode_accelerometer(v: &JsonValue) -> (r: Option<Accelerometer>)
    ensures
        r == accelerometer_of(*v),
{
    let x = read_lenient_reading_field(v, "x");
    let y = read_lenient_reading_field(v, "y");
    let z = read_lenient_reading_field(v, "z");
    let base = decode_base(v);
    match (x, y, z, base) {
        (Some(x), Some(y), Some(z), Some(base)) => Some(Accelerometer { x, y, z, base }),
        _ => None,
    }
}

fn decode_coords(c: &JsonValue) -> (r: Option<GeolocationPositionCoords>)
    ensures
        r == coords_of(*c),
{
    let accuracy = read_exact_reading_field(c, "accuracy");
    let altitude = read_exact_reading_field(c, "altitude");
    let altitude_accuracy = read_exact_reading_field(c, "altitudeAccuracy");
    let heading = read_exact_reading_field(c, "heading");
    let latitude = read_exact_reading_field(c, "latitude");
    let longitude = read_exact_reading_field(c, "longitude");
    let speed = read_exact_reading_field(c, "speed");
    if accuracy.is_some() && altitude.is_some() && altitude_accuracy.is_some()
        && heading.is_some() && latitude.is_some() && longitude.is_some() && speed.is_some() {
        Some(
            GeolocationPositionCoords {
                accuracy: accuracy.unwrap(),
                altitude: altitude.unwrap(),
                altitude_accuracy: altitude_accuracy.unwrap(),
                heading: heading.unwrap(),
                latitude: latitude.unwrap(),
                longitude: longitude.unwrap(),
                speed: speed.unwrap(),
            },
        )
    } else {
        None
    }
}

fn decode_position(p: &JsonValue) -> (r: Option<GeolocationPosition>)
    ensures
        r == position_of(*p),
{
    let timestamp = read_count_field(p, "timestamp");
    let provider = read_text_field(p, "provider");
    let mocked = read_exact_flag_field(p, "mocked");
    let coords = match get_member(p, "coords") {
        Some(c) => decode_coords(c),
        None => None,
    };
    match (timestamp, provider, mocked, coords) {
        (Some(timestamp), Some(provider), Some(mocked), Some(coords)) => Some(
            GeolocationPosition { timestamp, provider, mocked, coords },
        ),
        _ => None,
    }
}

/// Decodes `v` as this variant's record (see `geolocation_of`).
pub fn decode_geolocation(v: &JsonValue) -> (r: Option<Geolocation>)
    ensures
        r == geolocation_of(*v),
{
    let payload = read_text_field(v, "payload");
    let position = match get_member(v, "position") {
        Some(p) => decode_position(p),
        None => None,
    };
    match (payload, position) {
        (Some(payload), Some(position)) => Some(Geolocation { payload, position }),
        _ => None,
    }
}

/// Decodes `v` as this variant's record (see `orientation_of`).
pub fn decode_orientation(v: &JsonValue) -> (r: Option<Orientation>)
    ensures
        r == orientation_of(*v),
{
    let azimuth = read_lenient_reading_field(v, "azimuth");
    let pitch = read_lenient_reading_field(v, "pitch");
    let roll = read_lenient_reading_field(v, "roll");
    let base = decode_base(v);
    match (azimuth, pitch, roll, base) {
        (Some(azimuth), Some(pitch), Some(roll), Some(base)) => Some(
            Orientation { azimuth, pitch, roll, base },
        ),
        _ => None,
    }
}

/// Decodes `v` as this variant's record (see `proximity_of`).
pub fn decode_proximity(v: &JsonValue) -> (r: Option<Proximity>)
    ensures
        r == proximity_of(*v),
{
    let is_near = read_lenient_flag_field(v, "IsNear");
    let max_range = read_lenient_reading_field(v, "MaxRange");
    let value = read_lenient_reading_field(v, "Value");
    let base = decode_base(v);
    match (is_near, max_range, value, base) {
        (Some(is_near), Some(max_range), Some(value), Some(base)) => Some(
            Proximity { is_near, max_range, value, base },
        ),
        _ => None,
    }
}

/// Classifies a JSON value: the first variant, in the order of `SensorType`,
/// as which all of its required fields decode.
pub fn classify_value(v: &JsonValue) -> (r: Option<SensorType>)
    ensures
        r == classify(*v),
{
    if let Some(x) = decode_light(v) {
        return Some(SensorType::LightSensor(x));
    }
    if let Some(x) = decode_accelerometer(v) {
        return Some(SensorType::AccelerometerSensor(x));
    }
    if let Some(x) = decode_geolocation(v) {
        return Some(SensorType::GeolocationSensor(x));
    }
    if let Some(x) = decode_orientation(v) {
        return Some(SensorType::OrientationSensor(x));
    }
    match decode_proximity(v) {
        Some(x) => Some(SensorType::ProximitySensor(x)),
        None => None,
    }
}

} // verus!

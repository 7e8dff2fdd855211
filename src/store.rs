//! Where each classified record is persisted.
use vstd::prelude::*;
use crate::sensors::{SensorType, variant_index};

verus! {

/// The database that holds every sensor collection.
pub open spec fn database() -> Seq<char> {
    "sensors"@
}

/// The collection that a record of `s`'s variant is written to.
pub open spec fn destination(s: SensorType) -> Seq<char> {
    match s {
        SensorType::LightSensor(_) => "light_sensor_data"@,
        SensorType::AccelerometerSensor(_) => "accelerometer_sensor_data"@,
        SensorType::GeolocationSensor(_) => "geolocation_sensor_data"@,
        SensorType::OrientationSensor(_) => "orientation_sensor_data"@,
        SensorType::ProximitySensor(_) => "proximity_sensor_data"@,
    }
}

/// The name of the database that holds the sensor collections.
pub fn database_name() -> (r: &'static str)
    ensures
        r@ == database(),
{
    "sensors"
}

/// The name of the collection that `sensor` is written to.
pub fn collection_name(sensor: &SensorType) -> (r: &'static str)
    ensures
        r@ == destination(*sensor),
{
    match sensor {
        SensorType::LightSensor(_) => "light_sensor_data",
        SensorType::AccelerometerSensor(_) => "accelerometer_sensor_data",
        SensorType::GeolocationSensor(_) => "geolocation_sensor_data",
        SensorType::OrientationSensor(_) => "orientation_sensor_data",
        SensorType::ProximitySensor(_) => "proximity_sensor_data",
    }
}

/// Routing depends on the variant alone: two records go to the same
/// collection exactly when they are of the same variant.
pub proof fn lemma_route_by_variant(a: SensorType, b: SensorType)
    ensures
        (destination(a) == destination(b)) == (variant_index(a) == variant_index(b)),
{
    reveal_strlit("light_sensor_data");
    reveal_strlit("accelerometer_sensor_data");
    reveal_strlit("geolocation_sensor_data");
    reveal_strlit("orientation_sensor_data");
    reveal_strlit("proximity_sensor_data");
    if variant_index(a) != variant_index(b) {
        assert(destination(a)[0] != destination(b)[0]);
    }
}

#[verifier::external_type_specification]
#[verifier::external_body]
pub struct ExClient(mongodb::Client);

#[verifier::external_type_specification]
#[verifier::external_body]
pub struct ExDatabase(mongodb::Database);

#[verifier::external_type_specification]
#[verifier::external_body]
#[verifier::reject_recursive_types(T)]
pub struct ExCollection<T>(mongodb::Collection<T>);

/// Relies on mongodb::Client::database: a handle on the named database, made
/// without I/O.
pub assume_specification[ mongodb::Client::database ](client: &mongodb::Client, name: &str) -> mongodb::Database;

/// Relies on mongodb::Database::collection: a handle on the named collection,
/// made without I/O.
pub assume_specification<T>[ mongodb::Database::collection::<T> ](
    db: &mongodb::Database,
    name: &str,
) -> mongodb::Collection<T>;

/// Relies on mongodb::Client's Clone: another handle on the same connection
/// pool.
pub assume_specification[ <mongodb::Client as Clone>::clone ](client: &mongodb::Client) -> mongodb::Client;

/// A client of the sensor database. Clones share the driver's connection
/// pool, which owns the safety of concurrent writes.
#[derive(Clone)]
pub struct DbClient {
    client: mongodb::Client,
}

impl DbClient {
    /// Wraps a connected driver client.
    pub fn from_client(client: mongodb::Client) -> Self {
        DbClient { client }
    }

    /// The collection that `sensor` is written to, in the sensor database.
    pub fn get_collection_for_sensor<T>(&self, sensor: &SensorType) -> mongodb::Collection<T> {
        self.client.database(database_name()).collection::<T>(collection_name(sensor))
    }
}

} // verus!

//! The records the service hands to the user interface.
use vstd::prelude::*;

use crate::models::{ConnectionState, ServerConfig};

verus! {

#[derive(Clone, Debug, PartialEq, Eq)]
pub struct ConnectionStatus {
    pub state: ConnectionState,
    pub message: String,
}

#[derive(Clone, Debug, PartialEq, Eq)]
pub struct HealthResponse {
    pub status: String,
    pub version: String,
    pub config_dir: String,
    pub server_configured: bool,
    pub connection: ConnectionStatus,
}

#[derive(Clone, Debug, PartialEq, Eq)]
pub struct ConnectionTestResponse {
    pub ok: bool,
    pub state: ConnectionState,
    pub message: String,
    pub instance_name: Option<String>,
    pub workspace_id: Option<String>,
    pub workspace_name: Option<String>,
    pub workspace_count: u32,
    pub datastream_count: u32,
    pub permissions_ok: bool,
}

#[derive(Clone, Debug, PartialEq, Eq)]
pub struct ServerUrlValidationResponse {
    pub ok: bool,
    pub message: String,
    pub instance_name: Option<String>,
}

#[derive(Clone, Debug, PartialEq, Eq)]
pub struct ActionResponse {
    pub ok: bool,
    pub message: String,
}

#[derive(Clone, Debug, PartialEq, Eq, Default)]
pub struct DatastreamSummary {
    pub id: String,
    pub name: String,
    pub thing_id: String,
    pub thing_name: String,
    pub observed_property_name: String,
    pub processing_level_definition: String,
    pub unit_name: String,
    pub unit_symbol: String,
    pub sampled_medium: String,
    pub sensor_name: String,
    pub result_type: String,
}

/// The value of a [`DatastreamSummary`].
pub struct DatastreamSummaryView {
    pub id: Seq<char>,
    pub name: Seq<char>,
    pub thing_id: Seq<char>,
    pub thing_name: Seq<char>,
    pub observed_property_name: Seq<char>,
    pub processing_level_definition: Seq<char>,
    pub unit_name: Seq<char>,
    pub unit_symbol: Seq<char>,
    pub sampled_medium: Seq<char>,
    pub sensor_name: Seq<char>,
    pub result_type: Seq<char>,
}

impl View for DatastreamSummary {
    type V = DatastreamSummaryView;

    open spec fn view(&self) -> DatastreamSummaryView {
        DatastreamSummaryView {
            id: self.id@,
            name: self.name@,
            thing_id: self.thing_id@,
            thing_name: self.thing_name@,
            observed_property_name: self.observed_property_name@,
            processing_level_definition: self.processing_level_definition@,
            unit_name: self.unit_name@,
            unit_symbol: self.unit_symbol@,
            sampled_medium: self.sampled_medium@,
            sensor_name: self.sensor_name@,
            result_type: self.result_type@,
        }
    }
}

#[derive(Clone, Debug, PartialEq, Eq, Default)]
pub struct DatastreamThingLocationDetail {
    pub latitude: String,
    pub longitude: String,
    pub elevation_m: String,
    pub elevation_datum: String,
    pub admin_area_1: String,
    pub admin_area_2: String,
    pub country: String,
}

#[derive(Clone, Debug, PartialEq, Eq, Default)]
pub struct DatastreamThingDetail {
    pub id: String,
    pub name: String,
    pub description: String,
    pub sampling_feature_code: String,
    pub site_type: String,
    pub sampling_feature_type: String,
    pub is_private: bool,
    pub location: DatastreamThingLocationDetail,
}

#[derive(Clone, Debug, PartialEq, Eq, Default)]
pub struct DatastreamObservedPropertyDetail {
    pub id: String,
    pub name: String,
    pub definition: String,
    pub description: String,
    pub property_type: String,
    pub code: String,
}

#[derive(Clone, Debug, PartialEq, Eq, Default)]
pub struct DatastreamUnitDetail {
    pub id: String,
    pub name: String,
    pub symbol: String,
    pub definition: String,
    pub unit_type: String,
}

#[derive(Clone, Debug, PartialEq, Eq, Default)]
pub struct DatastreamSensorDetail {
    pub id: String,
    pub name: String,
    pub description: String,
    pub manufacturer: String,
    pub model: String,
    pub method_type: String,
    pub method_code: String,
    pub method_link: String,
    pub encoding_type: String,
    pub model_link: String,
}

#[derive(Clone, Debug, PartialEq, Eq, Default)]
pub struct DatastreamProcessingLevelDetail {
    pub id: String,
    pub code: String,
    pub definition: String,
    pub explanation: String,
}

#[derive(Clone, Debug, PartialEq, Eq, Default)]
pub struct DatastreamDetail {
    pub id: String,
    pub name: String,
    pub description: String,
    pub sampled_medium: String,
    pub result_type: String,
    pub observation_type: String,
    pub no_data_value: String,
    pub aggregation_statistic: String,
    pub intended_time_spacing: String,
    pub intended_time_spacing_unit: String,
    pub time_aggregation_interval: String,
    pub time_aggregation_interval_unit: String,
    pub phenomenon_begin_time: String,
    pub phenomenon_end_time: String,
    pub value_count: String,
    pub is_private: bool,
    pub is_visible: bool,
    pub thing: DatastreamThingDetail,
    pub observed_property: DatastreamObservedPropertyDetail,
    pub unit: DatastreamUnitDetail,
    pub sensor: DatastreamSensorDetail,
    pub processing_level: DatastreamProcessingLevelDetail,
}

#[derive(Clone, Debug, PartialEq, Eq)]
pub struct CsvPreviewResponse {
    pub raw_lines: Vec<String>,
    pub parsed_rows: Vec<Vec<String>>,
    pub detected_header_row: Option<u32>,
    pub detected_data_start_row: Option<u32>,
    pub detected_delimiter: String,
    pub total_lines: usize,
    pub encoding: String,
}

/// Where a queued observation goes: the server, the job and the datastream.
#[derive(Debug, PartialEq, Eq)]
pub struct ObservationContext {
    pub server: ServerConfig,
    pub job_id: String,
    pub datastream_id: String,
    pub datastream_name: String,
}

} // verus!

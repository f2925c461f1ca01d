//! Tests for request parameter parsing.

use terracotta::stats::requests::{
    GetStatsFeedParams, GetStatsHistoryParams, MeasurementType,
};

#[test]
fn measurement_names_parse() {
    assert_eq!(MeasurementType::from_str("times"), Ok(MeasurementType::Times));
    assert_eq!(MeasurementType::from_str("connections"), Ok(MeasurementType::Connections));
    assert_eq!(MeasurementType::from_str("memory"), Ok(MeasurementType::Memory));
}

#[test]
fn measurement_parsing_ignores_case() {
    assert_eq!(MeasurementType::from_str("TIMES"), Ok(MeasurementType::Times));
    assert_eq!(MeasurementType::from_str("Memory"), Ok(MeasurementType::Memory));
    assert_eq!(MeasurementType::from_str("CoNnEcTiOnS"), Ok(MeasurementType::Connections));
}

#[test]
fn unknown_measurements_are_rejected() {
    assert_eq!(MeasurementType::from_str("time"), Err(()));
    assert_eq!(MeasurementType::from_str(""), Err(()));
    assert_eq!(MeasurementType::from_str("timesx"), Err(()));
}

#[test]
fn history_params_default_to_everything() {
    let params = GetStatsHistoryParams::default();
    assert_eq!(params.buffer, None);
    assert_eq!(params.from, None);
    assert_eq!(params.limit, None);
}

#[test]
fn feed_params_default_to_all_measurements() {
    let params = GetStatsFeedParams::default();
    assert_eq!(params.scope, None);
}

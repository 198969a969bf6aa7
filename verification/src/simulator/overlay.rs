//! The enrichment overlay: identity fields that telemetry left empty, or
//! filled with a placeholder, are taken from the stored flight plan.

use crate::simulator::{FlightData, FlightDataView, StoredFlightPlan, StoredFlightPlanView};
use crate::text::{blank, first_chars, is_blank, same_text, take_chars};
use vstd::prelude::*;

verus! {

/// Whether a callsign is missing: blank, or the placeholder.
pub open spec fn callsign_missing(callsign: Seq<char>) -> bool {
    blank(callsign) || callsign == "UNKNOWN"@
}

/// Whether an aircraft type is missing: blank, or the placeholder.
pub open spec fn aircraft_missing(aircraft: Seq<char>) -> bool {
    blank(aircraft) || aircraft == "UNKN"@
}

/// `live` where it is present or the plan has nothing to give, else what the
/// plan gives.
pub open spec fn filled(live: Seq<char>, missing: bool, planned: Option<Seq<char>>) -> Seq<char> {
    match planned {
        Some(value) if missing => value,
        _ => live,
    }
}

/// The first four characters of a planned aircraft type.
pub open spec fn planned_aircraft(planned: Option<Seq<char>>) -> Option<Seq<char>> {
    match planned {
        Some(value) => Some(first_chars(value, 4)),
        None => None,
    }
}

/// The snapshot after the overlay: without a plan it is unchanged; with one,
/// each missing identity field takes the plan's value where the plan has one.
pub open spec fn enriched(data: FlightDataView, plan: Option<StoredFlightPlanView>)
    -> FlightDataView {
    match plan {
        None => data,
        Some(p) => FlightDataView {
            callsign: filled(data.callsign, callsign_missing(data.callsign), p.callsign),
            aircraft_icao: filled(
                data.aircraft_icao,
                aircraft_missing(data.aircraft_icao),
                planned_aircraft(p.aircraft_icao),
            ),
            departure_icao: filled(
                data.departure_icao,
                blank(data.departure_icao),
                p.departure_icao,
            ),
            arrival_icao: filled(data.arrival_icao, blank(data.arrival_icao), p.arrival_icao),
            ..data
        },
    }
}

/// A plan, if any, as the texts it holds.
pub open spec fn plan_view(plan: Option<&StoredFlightPlan>) -> Option<StoredFlightPlanView> {
    match plan {
        Some(p) => Some(p@),
        None => None,
    }
}

/// Fills the missing identity fields of a snapshot from a flight plan.
pub fn enrich(data: FlightData, plan: Option<&StoredFlightPlan>) -> (out: FlightData)
    ensures
        out@ == enriched(data@, plan_view(plan)),
{
    let mut data = data;
    if let Some(plan) = plan {
        if is_blank(data.departure_icao.as_str()) {
            if let Some(v) = &plan.departure_icao {
                data.departure_icao = v.clone();
            }
        }
        if is_blank(data.arrival_icao.as_str()) {
            if let Some(v) = &plan.arrival_icao {
                data.arrival_icao = v.clone();
            }
        }
        if is_blank(data.callsign.as_str()) || same_text(data.callsign.as_str(), "UNKNOWN") {
            if let Some(v) = &plan.callsign {
                data.callsign = v.clone();
            }
        }
        if is_blank(data.aircraft_icao.as_str()) || same_text(data.aircraft_icao.as_str(), "UNKN") {
            if let Some(v) = &plan.aircraft_icao {
                data.aircraft_icao = take_chars(v.as_str(), 4);
            }
        }
    }
    data
}

/// The overlay touches nothing but the four identity fields, and without a
/// plan it touches nothing.
pub proof fn lemma_overlay_keeps_measurements(
    data: FlightDataView,
    plan: Option<StoredFlightPlanView>,
)
    ensures
        enriched(data, plan).measurements == data.measurements,
        enriched(data, plan).on_ground == data.on_ground,
        enriched(data, plan).timestamp == data.timestamp,
        enriched(data, None) == data,
{
}

/// The overlay never overwrites live data, field by field: an identity field
/// that is not missing is the same after the overlay, whatever the plan.
pub proof fn lemma_overlay_keeps_live_field(
    data: FlightDataView,
    plan: Option<StoredFlightPlanView>,
)
    ensures
        !callsign_missing(data.callsign) ==> enriched(data, plan).callsign == data.callsign,
        !aircraft_missing(data.aircraft_icao) ==> enriched(data, plan).aircraft_icao
            == data.aircraft_icao,
        !blank(data.departure_icao) ==> enriched(data, plan).departure_icao == data.departure_icao,
        !blank(data.arrival_icao) ==> enriched(data, plan).arrival_icao == data.arrival_icao,
{
}

/// The overlay never overwrites live data: a snapshot whose callsign,
/// aircraft type, departure and arrival are all present is unchanged by the
/// overlay, whatever the plan.
pub proof fn lemma_overlay_keeps_live_data(
    data: FlightDataView,
    plan: Option<StoredFlightPlanView>,
)
    requires
        !callsign_missing(data.callsign),
        !aircraft_missing(data.aircraft_icao),
        !blank(data.departure_icao),
        !blank(data.arrival_icao),
    ensures
        enriched(data, plan) == data,
{
}

/// The overlay fills what is missing, field by field: a missing identity
/// field for which the plan has a value takes that value, the aircraft type
/// its first four characters; one for which the plan has none stays.
pub proof fn lemma_overlay_fills_missing_field(data: FlightDataView, plan: StoredFlightPlanView)
    ensures
        callsign_missing(data.callsign) && plan.callsign is Some ==> enriched(
            data,
            Some(plan),
        ).callsign == plan.callsign->0,
        aircraft_missing(data.aircraft_icao) && plan.aircraft_icao is Some ==> enriched(
            data,
            Some(plan),
        ).aircraft_icao == first_chars(plan.aircraft_icao->0, 4),
        blank(data.departure_icao) && plan.departure_icao is Some ==> enriched(
            data,
            Some(plan),
        ).departure_icao == plan.departure_icao->0,
        blank(data.arrival_icao) && plan.arrival_icao is Some ==> enriched(
            data,
            Some(plan),
        ).arrival_icao == plan.arrival_icao->0,
        plan.callsign is None ==> enriched(data, Some(plan)).callsign == data.callsign,
        plan.aircraft_icao is None ==> enriched(data, Some(plan)).aircraft_icao
            == data.aircraft_icao,
        plan.departure_icao is None ==> enriched(data, Some(plan)).departure_icao
            == data.departure_icao,
        plan.arrival_icao is None ==> enriched(data, Some(plan)).arrival_icao == data.arrival_icao,
{
}

/// The overlay yields exactly the supplied values: for a snapshot whose four
/// identity fields are all missing and a plan that supplies all four, with an
/// aircraft type of at most four characters, the fields are the plan's after
/// the overlay. A longer aircraft type is cut to four characters, as the
/// law above says.
pub proof fn lemma_overlay_yields_supplied_values(
    data: FlightDataView,
    plan: StoredFlightPlanView,
    callsign: Seq<char>,
    aircraft: Seq<char>,
    departure: Seq<char>,
    arrival: Seq<char>,
)
    requires
        callsign_missing(data.callsign),
        aircraft_missing(data.aircraft_icao),
        blank(data.departure_icao),
        blank(data.arrival_icao),
        plan.callsign == Some(callsign),
        plan.aircraft_icao == Some(aircraft),
        plan.departure_icao == Some(departure),
        plan.arrival_icao == Some(arrival),
        aircraft.len() <= 4,
    ensures
        enriched(data, Some(plan)) == (FlightDataView {
            callsign,
            aircraft_icao: aircraft,
            departure_icao: departure,
            arrival_icao: arrival,
            ..data
        }),
{
}

/// Applying the overlay twice with the same plan is applying it once.
pub proof fn lemma_overlay_is_idempotent(data: FlightDataView, plan: Option<StoredFlightPlanView>)
    ensures
        enriched(enriched(data, plan), plan) == enriched(data, plan),
{
    match plan {
        Some(p) => {
            match p.aircraft_icao {
                Some(a) => {
                    assert(first_chars(first_chars(a, 4), 4) =~= first_chars(a, 4));
                },
                None => {},
            }
        },
        None => {},
    }
}


/// The overlay keeps aircraft types short: a snapshot whose aircraft type
/// has at most four characters has one of at most four after the overlay.
pub proof fn lemma_overlay_keeps_aircraft_short(
    data: FlightDataView,
    plan: Option<StoredFlightPlanView>,
)
    requires
        data.aircraft_icao.len() <= 4,
    ensures
        enriched(data, plan).aircraft_icao.len() <= 4,
{
}


} // verus!

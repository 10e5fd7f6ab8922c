//! Translation of a decoded event into a point-shaped record for the
//! time-series sink: one measurement name, one `meter` tag, and one
//! integer field whose name is fixed by the event variant.

use vstd::prelude::*;
use vstd::string::StringExecFns;
use crate::types::Message;
use crate::types::MessageV;

verus! {

/// The record sent to the sink for one event.
#[derive(Debug, PartialEq)]
pub struct MeteringPoint {
    pub measurement: String,
    pub meter: String,
    pub field_name: String,
    pub field_value: i64,
}

/// Mathematical image of a [`MeteringPoint`].
#[verifier::ext_equal]
pub struct MeteringPointV {
    pub measurement: Seq<char>,
    pub meter: Seq<char>,
    pub field_name: Seq<char>,
    pub field_value: i64,
}

impl View for MeteringPoint {
    type V = MeteringPointV;

    open spec fn view(&self) -> MeteringPointV {
        MeteringPointV {
            measurement: self.measurement@,
            meter: self.meter@,
            field_name: self.field_name@,
            field_value: self.field_value,
        }
    }
}

/// The point an event maps to: the meter tag is the event's meter MAC
/// identifier, and the single field carries the demand or the price.
pub open spec fn spec_to_point(m: MessageV) -> MeteringPointV {
    match m {
        MessageV::InstantaneousDemand(v) => MeteringPointV {
            measurement: "instantaneous_demand"@,
            meter: v.meter_mac_id,
            field_name: "demand"@,
            field_value: v.demand as i64,
        },
        MessageV::PriceCluster(v) => MeteringPointV {
            measurement: "price_cluster"@,
            meter: v.meter_mac_id,
            field_name: "price"@,
            field_value: v.price as i64,
        },
    }
}

/// Builds the sink record for one event, deterministically and without
/// loss beyond widening the value to a signed 64-bit integer.
pub fn to_point(m: &Message) -> (r: MeteringPoint)
    ensures
        r@ == spec_to_point(m@),
{
    match m {
        Message::InstantaneousDemand(v) => MeteringPoint {
            measurement: String::from_str("instantaneous_demand"),
            meter: v.meter_mac_id.clone(),
            field_name: String::from_str("demand"),
            field_value: v.demand as i64,
        },
        Message::PriceCluster(v) => MeteringPoint {
            measurement: String::from_str("price_cluster"),
            meter: v.meter_mac_id.clone(),
            field_name: String::from_str("price"),
            field_value: v.price as i64,
        },
    }
}

} // verus!

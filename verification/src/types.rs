//! The typed events of the device protocol.
//!
//! Each fragment tag names one variant of a closed set. Numeric fields
//! are decoded from `0x`-prefixed hexadecimal text into unsigned 32-bit
//! integers; MAC identifiers and the rate label keep their literal text;
//! the one boolean field is `true` exactly for the text `Y`.

use vstd::prelude::*;

verus! {

/// Properties shared by every device event.
#[derive(Debug, PartialEq)]
pub struct Base {
    pub device_mac_id: String,
    pub meter_mac_id: String,
    pub time_stamp: u32,
}

/// Mathematical image of a [`Base`].
#[verifier::ext_equal]
pub struct BaseV {
    pub device_mac_id: Seq<char>,
    pub meter_mac_id: Seq<char>,
    pub time_stamp: u32,
}

impl View for Base {
    type V = BaseV;

    open spec fn view(&self) -> BaseV {
        BaseV {
            device_mac_id: self.device_mac_id@,
            meter_mac_id: self.meter_mac_id@,
            time_stamp: self.time_stamp,
        }
    }
}

/// Current power draw reported by the meter, in raw device units.
#[derive(Debug, PartialEq)]
pub struct InstantaneousDemand {
    pub device_mac_id: String,
    pub meter_mac_id: String,
    pub time_stamp: u32,
    pub demand: u32,
    pub multiplier: u32,
    pub divisor: u32,
    pub digits_right: u32,
    pub digits_left: u32,
    pub suppress_leading_zero: bool,
}

/// Mathematical image of an [`InstantaneousDemand`].
#[verifier::ext_equal]
pub struct InstantaneousDemandV {
    pub device_mac_id: Seq<char>,
    pub meter_mac_id: Seq<char>,
    pub time_stamp: u32,
    pub demand: u32,
    pub multiplier: u32,
    pub divisor: u32,
    pub digits_right: u32,
    pub digits_left: u32,
    pub suppress_leading_zero: bool,
}

impl View for InstantaneousDemand {
    type V = InstantaneousDemandV;

    open spec fn view(&self) -> InstantaneousDemandV {
        InstantaneousDemandV {
            device_mac_id: self.device_mac_id@,
            meter_mac_id: self.meter_mac_id@,
            time_stamp: self.time_stamp,
            demand: self.demand,
            multiplier: self.multiplier,
            divisor: self.divisor,
            digits_right: self.digits_right,
            digits_left: self.digits_left,
            suppress_leading_zero: self.suppress_leading_zero,
        }
    }
}

/// Current price tier reported by the meter.
#[derive(Debug, PartialEq)]
pub struct PriceCluster {
    pub device_mac_id: String,
    pub meter_mac_id: String,
    pub time_stamp: u32,
    pub price: u32,
    pub currency: u32,
    pub trailing_digits: u32,
    pub start_time: u32,
    pub duration: u32,
    pub rate_label: String,
}

/// Mathematical image of a [`PriceCluster`].
#[verifier::ext_equal]
pub struct PriceClusterV {
    pub device_mac_id: Seq<char>,
    pub meter_mac_id: Seq<char>,
    pub time_stamp: u32,
    pub price: u32,
    pub currency: u32,
    pub trailing_digits: u32,
    pub start_time: u32,
    pub duration: u32,
    pub rate_label: Seq<char>,
}

impl View for PriceCluster {
    type V = PriceClusterV;

    open spec fn view(&self) -> PriceClusterV {
        PriceClusterV {
            device_mac_id: self.device_mac_id@,
            meter_mac_id: self.meter_mac_id@,
            time_stamp: self.time_stamp,
            price: self.price,
            currency: self.currency,
            trailing_digits: self.trailing_digits,
            start_time: self.start_time,
            duration: self.duration,
            rate_label: self.rate_label@,
        }
    }
}

/// One decoded device event: the closed set of known fragment tags.
#[derive(Debug, PartialEq)]
pub enum Message {
    InstantaneousDemand(InstantaneousDemand),
    PriceCluster(PriceCluster),
}

/// Mathematical image of a [`Message`].
#[verifier::ext_equal]
pub enum MessageV {
    InstantaneousDemand(InstantaneousDemandV),
    PriceCluster(PriceClusterV),
}

impl View for Message {
    type V = MessageV;

    open spec fn view(&self) -> MessageV {
        match self {
            Message::InstantaneousDemand(v) => MessageV::InstantaneousDemand(v@),
            Message::PriceCluster(v) => MessageV::PriceCluster(v@),
        }
    }
}

/// The images of a sequence of messages.
pub open spec fn messages_view(ms: Seq<Message>) -> Seq<MessageV> {
    ms.map_values(|m: Message| m@)
}

} // verus!

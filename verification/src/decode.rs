//! Decoding a raw batch into typed events.
//!
//! A batch decodes all-or-nothing: the bytes must be UTF-8, the text must
//! parse into fragments, every fragment tag must be known, and every
//! required field must be present and well-formed; otherwise the whole
//! batch fails with an error naming what went wrong, and no events are
//! returned.

use vstd::prelude::*;
use vstd::string::StringExecFns;
use vstd::utf8::decode_utf8;
use vstd::utf8::valid_utf8;
use crate::hex::from_hex_chars;
use crate::hex::spec_from_hex;
use crate::hex::spec_from_hex_bool;
use crate::parse::fields_view;
use crate::parse::parse_batch;
use crate::parse::spec_parse_batch;
use crate::parse::RawElementV;
use crate::parse::RawField;
use crate::parse::RawFieldV;
use crate::text::chars_eq_str;
use crate::text::chars_to_string;
use crate::text::str_to_chars;
use crate::types::messages_view;
use crate::types::InstantaneousDemand;
use crate::types::InstantaneousDemandV;
use crate::types::Message;
use crate::types::MessageV;
use crate::types::PriceCluster;
use crate::types::PriceClusterV;

verus! {

/// Why a batch failed to decode. Any failure drops the whole batch.
#[derive(Debug)]
pub enum DecodeError {
    /// The batch bytes are not valid UTF-8.
    Encoding,
    /// The text is not a sequence of well-formed fragments.
    Syntax,
    /// A fragment carries a tag outside the known set.
    UnknownVariant(String),
    /// A field's text is not a well-formed hexadecimal value.
    Field(String),
    /// A required field is absent from its fragment.
    MissingField(String),
}

/// Mathematical image of a [`DecodeError`].
#[verifier::ext_equal]
pub enum DecodeErrorV {
    Encoding,
    Syntax,
    UnknownVariant(Seq<char>),
    Field(Seq<char>),
    MissingField(Seq<char>),
}

impl View for DecodeError {
    type V = DecodeErrorV;

    open spec fn view(&self) -> DecodeErrorV {
        match self {
            DecodeError::Encoding => DecodeErrorV::Encoding,
            DecodeError::Syntax => DecodeErrorV::Syntax,
            DecodeError::UnknownVariant(t) => DecodeErrorV::UnknownVariant(t@),
            DecodeError::Field(n) => DecodeErrorV::Field(n@),
            DecodeError::MissingField(n) => DecodeErrorV::MissingField(n@),
        }
    }
}

/// The text of the first field named `name` at or after position `i`.
pub open spec fn spec_lookup_at(fs: Seq<RawFieldV>, name: Seq<char>, i: int) -> Option<Seq<char>>
    decreases fs.len() - i,
    when 0 <= i <= fs.len()
{
    if i == fs.len() {
        None
    } else if fs[i].name == name {
        Some(fs[i].value)
    } else {
        spec_lookup_at(fs, name, i + 1)
    }
}

/// The text of the first field named `name`, when one exists.
pub open spec fn spec_lookup(fs: Seq<RawFieldV>, name: Seq<char>) -> Option<Seq<char>> {
    spec_lookup_at(fs, name, 0)
}

/// A verbatim string field: its text, or the missing-field error.
pub open spec fn spec_str_field(fs: Seq<RawFieldV>, name: Seq<char>) -> Result<
    Seq<char>,
    DecodeErrorV,
> {
    match spec_lookup(fs, name) {
        None => Err(DecodeErrorV::MissingField(name)),
        Some(v) => Ok(v),
    }
}

/// A hex-integer field: its decoded value, the field error on malformed
/// text, or the missing-field error.
pub open spec fn spec_u32_field(fs: Seq<RawFieldV>, name: Seq<char>) -> Result<
    u32,
    DecodeErrorV,
> {
    match spec_lookup(fs, name) {
        None => Err(DecodeErrorV::MissingField(name)),
        Some(v) => match spec_from_hex(v) {
            None => Err(DecodeErrorV::Field(name)),
            Some(x) => Ok(x),
        },
    }
}

/// A boolean field: `true` exactly for the text `Y`, or the
/// missing-field error.
pub open spec fn spec_bool_field(fs: Seq<RawFieldV>, name: Seq<char>) -> Result<
    bool,
    DecodeErrorV,
> {
    match spec_lookup(fs, name) {
        None => Err(DecodeErrorV::MissingField(name)),
        Some(v) => Ok(spec_from_hex_bool(v)),
    }
}

/// Decodes the fields of an `InstantaneousDemand` fragment, reporting
/// the first missing or malformed field in declaration order.
pub open spec fn spec_decode_demand(fs: Seq<RawFieldV>) -> Result<
    InstantaneousDemandV,
    DecodeErrorV,
> {
    let device_mac_id = spec_str_field(fs, "DeviceMacId"@);
    let meter_mac_id = spec_str_field(fs, "MeterMacId"@);
    let time_stamp = spec_u32_field(fs, "TimeStamp"@);
    let demand = spec_u32_field(fs, "Demand"@);
    let multiplier = spec_u32_field(fs, "Multiplier"@);
    let divisor = spec_u32_field(fs, "Divisor"@);
    let digits_right = spec_u32_field(fs, "DigitsRight"@);
    let digits_left = spec_u32_field(fs, "DigitsLeft"@);
    let suppress_leading_zero = spec_bool_field(fs, "SuppressLeadingZero"@);
    if device_mac_id is Err {
        Err(device_mac_id->Err_0)
    } else if meter_mac_id is Err {
        Err(meter_mac_id->Err_0)
    } else if time_stamp is Err {
        Err(time_stamp->Err_0)
    } else if demand is Err {
        Err(demand->Err_0)
    } else if multiplier is Err {
        Err(multiplier->Err_0)
    } else if divisor is Err {
        Err(divisor->Err_0)
    } else if digits_right is Err {
        Err(digits_right->Err_0)
    } else if digits_left is Err {
        Err(digits_left->Err_0)
    } else if suppress_leading_zero is Err {
        Err(suppress_leading_zero->Err_0)
    } else {
        Ok(
            InstantaneousDemandV {
                device_mac_id: device_mac_id->Ok_0,
                meter_mac_id: meter_mac_id->Ok_0,
                time_stamp: time_stamp->Ok_0,
                demand: demand->Ok_0,
                multiplier: multiplier->Ok_0,
                divisor: divisor->Ok_0,
                digits_right: digits_right->Ok_0,
                digits_left: digits_left->Ok_0,
                suppress_leading_zero: suppress_leading_zero->Ok_0,
            },
        )
    }
}

/// Decodes the fields of a `PriceCluster` fragment, reporting the first
/// missing or malformed field in declaration order.
pub open spec fn spec_decode_price(fs: Seq<RawFieldV>) -> Result<PriceClusterV, DecodeErrorV> {
    let device_mac_id = spec_str_field(fs, "DeviceMacId"@);
    let meter_mac_id = spec_str_field(fs, "MeterMacId"@);
    let time_stamp = spec_u32_field(fs, "TimeStamp"@);
    let price = spec_u32_field(fs, "Price"@);
    let currency = spec_u32_field(fs, "Currency"@);
    let trailing_digits = spec_u32_field(fs, "TrailingDigits"@);
    let start_time = spec_u32_field(fs, "StartTime"@);
    let duration = spec_u32_field(fs, "Duration"@);
    let rate_label = spec_str_field(fs, "RateLabel"@);
    if device_mac_id is Err {
        Err(device_mac_id->Err_0)
    } else if meter_mac_id is Err {
        Err(meter_mac_id->Err_0)
    } else if time_stamp is Err {
        Err(time_stamp->Err_0)
    } else if price is Err {
        Err(price->Err_0)
    } else if currency is Err {
        Err(currency->Err_0)
    } else if trailing_digits is Err {
        Err(trailing_digits->Err_0)
    } else if start_time is Err {
        Err(start_time->Err_0)
    } else if duration is Err {
        Err(duration->Err_0)
    } else if rate_label is Err {
        Err(rate_label->Err_0)
    } else {
        Ok(
            PriceClusterV {
                device_mac_id: device_mac_id->Ok_0,
                meter_mac_id: meter_mac_id->Ok_0,
                time_stamp: time_stamp->Ok_0,
                price: price->Ok_0,
                currency: currency->Ok_0,
                trailing_digits: trailing_digits->Ok_0,
                start_time: start_time->Ok_0,
                duration: duration->Ok_0,
                rate_label: rate_label->Ok_0,
            },
        )
    }
}

/// Decodes one fragment by its tag; an unrecognized tag is an error.
pub open spec fn spec_decode_element(e: RawElementV) -> Result<MessageV, DecodeErrorV> {
    if e.tag == "InstantaneousDemand"@ {
        match spec_decode_demand(e.fields) {
            Ok(v) => Ok(MessageV::InstantaneousDemand(v)),
            Err(x) => Err(x),
        }
    } else if e.tag == "PriceCluster"@ {
        match spec_decode_price(e.fields) {
            Ok(v) => Ok(MessageV::PriceCluster(v)),
            Err(x) => Err(x),
        }
    } else {
        Err(DecodeErrorV::UnknownVariant(e.tag))
    }
}

/// Decodes the fragments from position `i` on, in order; the first
/// failure fails the whole sequence.
pub open spec fn spec_decode_elements(es: Seq<RawElementV>, i: int) -> Result<
    Seq<MessageV>,
    DecodeErrorV,
>
    decreases es.len() - i,
    when 0 <= i <= es.len()
{
    if i == es.len() {
        Ok(Seq::<MessageV>::empty())
    } else {
        match spec_decode_element(es[i]) {
            Err(e) => Err(e),
            Ok(m) => match spec_decode_elements(es, i + 1) {
                Err(e) => Err(e),
                Ok(ms) => Ok(seq![m] + ms),
            },
        }
    }
}

/// What decoding a batch of text yields: the events of its fragments in
/// text order, or the first error.
pub open spec fn spec_decode_text(t: Seq<char>) -> Result<Seq<MessageV>, DecodeErrorV> {
    match spec_parse_batch(t) {
        None => Err(DecodeErrorV::Syntax),
        Some(es) => spec_decode_elements(es, 0),
    }
}

/// What decoding a batch of bytes yields: the bytes must be UTF-8, and
/// the text they encode decodes as [`spec_decode_text`].
pub open spec fn spec_decode_bytes(b: Seq<u8>) -> Result<Seq<MessageV>, DecodeErrorV> {
    if !valid_utf8(b) {
        Err(DecodeErrorV::Encoding)
    } else {
        spec_decode_text(decode_utf8(b))
    }
}

proof fn lemma_decode_err_from(es: Seq<RawElementV>, j: int, i: int)
    requires
        0 <= j <= i < es.len(),
        spec_decode_element(es[i]) is Err,
    ensures
        spec_decode_elements(es, j) is Err,
    decreases i - j,
{
    if j < i {
        lemma_decode_err_from(es, j + 1, i);
    }
}

/// Law: decoding is all-or-nothing. When any fragment of a parsed batch
/// fails to decode, the whole batch decodes to an error and yields no
/// events, never a partial list.
pub proof fn lemma_all_or_nothing(t: Seq<char>, i: int)
    requires
        spec_parse_batch(t) is Some,
        0 <= i < spec_parse_batch(t)->Some_0.len(),
        spec_decode_element(spec_parse_batch(t)->Some_0[i]) is Err,
    ensures
        spec_decode_text(t) is Err,
{
    lemma_decode_err_from(spec_parse_batch(t)->Some_0, 0, i);
}

/// Relies on `str::from_utf8`: yields the text a byte sequence encodes
/// exactly when the bytes are valid UTF-8.
#[verifier::external_body]
fn utf8_to_str(b: &[u8]) -> (r: Option<&str>)
    ensures
        r is Some <==> valid_utf8(b@),
        r matches Some(s) ==> s@ == decode_utf8(b@),
{
    core::str::from_utf8(b).ok()
}

/// Executable mirror of [`spec_lookup`]: the value of the first field
/// with the given name, copied out.
fn lookup_at(fs: &Vec<RawField>, name: &str, i: usize) -> (r: Option<Vec<char>>)
    requires
        i <= fs@.len(),
    ensures
        match r {
            Some(v) => spec_lookup_at(fields_view(fs@), name@, i as int) == Some(v@),
            None => spec_lookup_at(fields_view(fs@), name@, i as int) is None,
        },
    decreases fs@.len() - i,
{
    if i == fs.len() {
        None
    } else if chars_eq_str(&fs[i].name, name) {
        let v = crate::text::copy_range(&fs[i].value, 0, fs[i].value.len());
        proof {
            assert(fs[i as int].value@.subrange(0, fs[i as int].value@.len() as int) =~= fs[
                i as int
            ].value@);
        }
        Some(v)
    } else {
        lookup_at(fs, name, i + 1)
    }
}

/// Executable mirror of [`spec_str_field`].
fn get_str_field(fs: &Vec<RawField>, name: &str) -> (r: Result<String, DecodeError>)
    ensures
        match r {
            Ok(v) => spec_str_field(fields_view(fs@), name@) == Ok::<Seq<char>, DecodeErrorV>(v@),
            Err(e) => spec_str_field(fields_view(fs@), name@) == Err::<Seq<char>, DecodeErrorV>(
                e@,
            ),
        },
{
    match lookup_at(fs, name, 0) {
        None => Err(DecodeError::MissingField(String::from_str(name))),
        Some(v) => {
            let s = chars_to_string(&v, 0, v.len());
            proof {
                assert(v@.subrange(0, v@.len() as int) =~= v@);
            }
            Ok(s)
        },
    }
}

/// Executable mirror of [`spec_u32_field`].
fn get_u32_field(fs: &Vec<RawField>, name: &str) -> (r: Result<u32, DecodeError>)
    ensures
        match r {
            Ok(v) => spec_u32_field(fields_view(fs@), name@) == Ok::<u32, DecodeErrorV>(v),
            Err(e) => spec_u32_field(fields_view(fs@), name@) == Err::<u32, DecodeErrorV>(e@),
        },
{
    match lookup_at(fs, name, 0) {
        None => Err(DecodeError::MissingField(String::from_str(name))),
        Some(v) => match from_hex_chars(&v) {
            None => Err(DecodeError::Field(String::from_str(name))),
            Some(x) => Ok(x),
        },
    }
}

/// Executable mirror of [`spec_bool_field`].
fn get_bool_field(fs: &Vec<RawField>, name: &str) -> (r: Result<bool, DecodeError>)
    ensures
        match r {
            Ok(v) => spec_bool_field(fields_view(fs@), name@) == Ok::<bool, DecodeErrorV>(v),
            Err(e) => spec_bool_field(fields_view(fs@), name@) == Err::<bool, DecodeErrorV>(e@),
        },
{
    match lookup_at(fs, name, 0) {
        None => Err(DecodeError::MissingField(String::from_str(name))),
        Some(v) => Ok(chars_eq_str(&v, "Y")),
    }
}

/// Executable mirror of [`spec_decode_demand`].
fn decode_demand(fs: &Vec<RawField>) -> (r: Result<InstantaneousDemand, DecodeError>)
    ensures
        match r {
            Ok(v) => spec_decode_demand(fields_view(fs@)) == Ok::<
                InstantaneousDemandV,
                DecodeErrorV,
            >(v@),
            Err(e) => spec_decode_demand(fields_view(fs@)) == Err::<
                InstantaneousDemandV,
                DecodeErrorV,
            >(e@),
        },
{
    let device_mac_id = match get_str_field(fs, "DeviceMacId") {
        Ok(v) => v,
        Err(e) => { return Err(e) },
    };
    let meter_mac_id = match get_str_field(fs, "MeterMacId") {
        Ok(v) => v,
        Err(e) => { return Err(e) },
    };
    let time_stamp = match get_u32_field(fs, "TimeStamp") {
        Ok(v) => v,
        Err(e) => { return Err(e) },
    };
    let demand = match get_u32_field(fs, "Demand") {
        Ok(v) => v,
        Err(e) => { return Err(e) },
    };
    let multiplier = match get_u32_field(fs, "Multiplier") {
        Ok(v) => v,
        Err(e) => { return Err(e) },
    };
    let divisor = match get_u32_field(fs, "Divisor") {
        Ok(v) => v,
        Err(e) => { return Err(e) },
    };
    let digits_right = match get_u32_field(fs, "DigitsRight") {
        Ok(v) => v,
        Err(e) => { return Err(e) },
    };
    let digits_left = match get_u32_field(fs, "DigitsLeft") {
        Ok(v) => v,
        Err(e) => { return Err(e) },
    };
    let suppress_leading_zero = match get_bool_field(fs, "SuppressLeadingZero") {
        Ok(v) => v,
        Err(e) => { return Err(e) },
    };
    Ok(
        InstantaneousDemand {
            device_mac_id,
            meter_mac_id,
            time_stamp,
            demand,
            multiplier,
            divisor,
            digits_right,
            digits_left,
            suppress_leading_zero,
        },
    )
}

/// Executable mirror of [`spec_decode_price`].
fn decode_price(fs: &Vec<RawField>) -> (r: Result<PriceCluster, DecodeError>)
    ensures
        match r {
            Ok(v) => spec_decode_price(fields_view(fs@)) == Ok::<PriceClusterV, DecodeErrorV>(
                v@,
            ),
            Err(e) => spec_decode_price(fields_view(fs@)) == Err::<PriceClusterV, DecodeErrorV>(
                e@,
            ),
        },
{
    let device_mac_id = match get_str_field(fs, "DeviceMacId") {
        Ok(v) => v,
        Err(e) => { return Err(e) },
    };
    let meter_mac_id = match get_str_field(fs, "MeterMacId") {
        Ok(v) => v,
        Err(e) => { return Err(e) },
    };
    let time_stamp = match get_u32_field(fs, "TimeStamp") {
        Ok(v) => v,
        Err(e) => { return Err(e) },
    };
    let price = match get_u32_field(fs, "Price") {
        Ok(v) => v,
        Err(e) => { return Err(e) },
    };
    let currency = match get_u32_field(fs, "Currency") {
        Ok(v) => v,
        Err(e) => { return Err(e) },
    };
    let trailing_digits = match get_u32_field(fs, "TrailingDigits") {
        Ok(v) => v,
        Err(e) => { return Err(e) },
    };
    let start_time = match get_u32_field(fs, "StartTime") {
        Ok(v) => v,
        Err(e) => { return Err(e) },
    };
    let duration = match get_u32_field(fs, "Duration") {
        Ok(v) => v,
        Err(e) => { return Err(e) },
    };
    let rate_label = match get_str_field(fs, "RateLabel") {
        Ok(v) => v,
        Err(e) => { return Err(e) },
    };
    Ok(
        PriceCluster {
            device_mac_id,
            meter_mac_id,
            time_stamp,
            price,
            currency,
            trailing_digits,
            start_time,
            duration,
            rate_label,
        },
    )
}

/// Executable mirror of [`spec_decode_element`].
fn decode_element(e: &crate::parse::RawElement) -> (r: Result<Message, DecodeError>)
    ensures
        match r {
            Ok(m) => spec_decode_element(e@) == Ok::<MessageV, DecodeErrorV>(m@),
            Err(x) => spec_decode_element(e@) == Err::<MessageV, DecodeErrorV>(x@),
        },
{
    if chars_eq_str(&e.tag, "InstantaneousDemand") {
        match decode_demand(&e.fields) {
            Ok(v) => Ok(Message::InstantaneousDemand(v)),
            Err(x) => Err(x),
        }
    } else if chars_eq_str(&e.tag, "PriceCluster") {
        match decode_price(&e.fields) {
            Ok(v) => Ok(Message::PriceCluster(v)),
            Err(x) => Err(x),
        }
    } else {
        let tag = chars_to_string(&e.tag, 0, e.tag.len());
        proof {
            assert(e.tag@.subrange(0, e.tag@.len() as int) =~= e.tag@);
        }
        Err(DecodeError::UnknownVariant(tag))
    }
}

/// Executable mirror of [`spec_decode_elements`].
fn decode_elements(es: &Vec<crate::parse::RawElement>, i: usize) -> (r: Result<
    Vec<Message>,
    DecodeError,
>)
    requires
        i <= es@.len(),
    ensures
        match r {
            Ok(ms) => spec_decode_elements(crate::parse::elements_view(es@), i as int) == Ok::<
                Seq<MessageV>,
                DecodeErrorV,
            >(messages_view(ms@)),
            Err(e) => spec_decode_elements(crate::parse::elements_view(es@), i as int) == Err::<
                Seq<MessageV>,
                DecodeErrorV,
            >(e@),
        },
    decreases es@.len() - i,
{
    if i == es.len() {
        let out: Vec<Message> = Vec::new();
        proof {
            assert(messages_view(out@) =~= Seq::<MessageV>::empty());
        }
        return Ok(out);
    }
    match decode_element(&es[i]) {
        Err(x) => Err(x),
        Ok(m) => match decode_elements(es, i + 1) {
            Err(x) => Err(x),
            Ok(ms) => {
                let ghost mv: MessageV = m@;
                let ghost msv: Seq<MessageV> = messages_view(ms@);
                let mut out: Vec<Message> = Vec::new();
                out.push(m);
                let mut rest: Vec<Message> = ms;
                out.append(&mut rest);
                proof {
                    assert(messages_view(out@) =~= seq![mv] + msv);
                }
                Ok(out)
            },
        },
    }
}

/// Decodes one batch of text into its events, in text order; any failure
/// fails the whole batch and yields no events.
pub fn decode_text(text: &str) -> (r: Result<Vec<Message>, DecodeError>)
    ensures
        match r {
            Ok(ms) => spec_decode_text(text@) == Ok::<Seq<MessageV>, DecodeErrorV>(
                messages_view(ms@),
            ),
            Err(e) => spec_decode_text(text@) == Err::<Seq<MessageV>, DecodeErrorV>(e@),
        },
{
    let cs: Vec<char> = str_to_chars(text);
    match parse_batch(&cs) {
        None => Err(DecodeError::Syntax),
        Some(es) => decode_elements(&es, 0),
    }
}

/// Decodes one batch of raw bytes: the bytes must be valid UTF-8 text,
/// which then decodes as [`decode_text`]. Any failure yields no events.
pub fn decode(batch: &[u8]) -> (r: Result<Vec<Message>, DecodeError>)
    ensures
        match r {
            Ok(ms) => spec_decode_bytes(batch@) == Ok::<Seq<MessageV>, DecodeErrorV>(
                messages_view(ms@),
            ),
            Err(e) => spec_decode_bytes(batch@) == Err::<Seq<MessageV>, DecodeErrorV>(e@),
        },
{
    match utf8_to_str(batch) {
        None => Err(DecodeError::Encoding),
        Some(s) => decode_text(s),
    }
}

} // verus!

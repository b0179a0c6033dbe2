//! The configuration of one monitoring site, as a host hands it to the
//! pipeline once at startup.

use crate::numeral::copy_numerals;
use crate::numeral::texts;
use crate::numeral::Numeral;
use vstd::prelude::*;

verus! {

/// Everything a site is configured with.
#[derive(Debug, Clone, PartialEq, Eq)]
pub struct Root {
    pub influxdb: InfluxDB,
    pub calibration: Calibration,
    pub serial: Serial,
}

/// Where the records go, and the name of the site they are tagged with.
#[derive(Debug, Clone, PartialEq, Eq)]
pub struct InfluxDB {
    pub endpoint: String,
    pub database_name: String,
    pub token: String,
    pub site_name: String,
}

/// The calibration of a site: for each calibrated channel the coefficients of
/// its polynomial, from the constant term upwards, and the clamp voltage.
#[derive(Debug, PartialEq, Eq)]
pub struct Calibration {
    pub voltage_main: Vec<Numeral>,
    pub voltage_amp: Vec<Numeral>,
    pub voltage_usb: Vec<Numeral>,
    pub power_forward: Vec<Numeral>,
    pub power_reverse: Vec<Numeral>,
    pub voltage_clamp: Numeral,
}

/// The serial line that the board is connected to.
#[derive(Debug, Clone, PartialEq, Eq)]
pub struct Serial {
    pub port: String,
    pub baud: u32,
}

/// A [`Calibration`] as contracts speak of it: the text of every coefficient.
pub struct CalibrationView {
    pub voltage_main: Seq<Seq<u8>>,
    pub voltage_amp: Seq<Seq<u8>>,
    pub voltage_usb: Seq<Seq<u8>>,
    pub power_forward: Seq<Seq<u8>>,
    pub power_reverse: Seq<Seq<u8>>,
    pub voltage_clamp: Seq<u8>,
}

impl View for Calibration {
    type V = CalibrationView;

    open spec fn view(&self) -> CalibrationView {
        CalibrationView {
            voltage_main: texts(self.voltage_main@),
            voltage_amp: texts(self.voltage_amp@),
            voltage_usb: texts(self.voltage_usb@),
            power_forward: texts(self.power_forward@),
            power_reverse: texts(self.power_reverse@),
            voltage_clamp: self.voltage_clamp@,
        }
    }
}

impl Clone for Calibration {
    fn clone(&self) -> (r: Self)
        ensures
            r@ == self@,
    {
        Calibration {
            voltage_main: copy_numerals(&self.voltage_main),
            voltage_amp: copy_numerals(&self.voltage_amp),
            voltage_usb: copy_numerals(&self.voltage_usb),
            power_forward: copy_numerals(&self.power_forward),
            power_reverse: copy_numerals(&self.power_reverse),
            voltage_clamp: self.voltage_clamp.clone(),
        }
    }
}

} // verus!

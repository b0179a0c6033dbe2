//! Channel layouts: which field of a line holds which sensor channel.
//!
//! The board's protocol changed between revisions, so the layout is data. A
//! [`Layout`] fixes how many fields a line has and where each channel stands;
//! every position it names lies within the line.

use vstd::prelude::*;

verus! {

/// The position of each channel in a line, counted from 0. A channel that a
/// board revision does not send is `None`.
#[derive(Clone, Copy, Debug, PartialEq, Eq)]
pub struct Channels {
    /// Primary temperature, in degrees Fahrenheit.
    pub temperature: usize,
    /// Barometric pressure.
    pub pressure: usize,
    /// Relative humidity, on boards whose primary sensor measures it.
    pub humidity: Option<usize>,
    /// Temperature of the second, independent sensor.
    pub secondary_temperature: Option<usize>,
    /// Main supply voltage, as the converter reads it.
    pub main_voltage: usize,
    /// Amplifier supply voltage, as the converter reads it.
    pub amplifier_voltage: usize,
    /// USB supply voltage, on boards that measure it.
    pub usb_voltage: Option<usize>,
    /// Forward RF power, as the converter reads it.
    pub forward_power: usize,
    /// Reverse RF power, as the converter reads it.
    pub reverse_power: usize,
}

/// A channel that is sent stands at a position below `arity`.
pub open spec fn optional_within(position: Option<usize>, arity: nat) -> bool {
    position matches Some(p) ==> p < arity
}

impl Channels {
    /// Every position lies in a line of `arity` fields.
    pub open spec fn within(&self, arity: nat) -> bool {
        &&& self.temperature < arity
        &&& self.pressure < arity
        &&& optional_within(self.humidity, arity)
        &&& optional_within(self.secondary_temperature, arity)
        &&& self.main_voltage < arity
        &&& self.amplifier_voltage < arity
        &&& optional_within(self.usb_voltage, arity)
        &&& self.forward_power < arity
        &&& self.reverse_power < arity
    }

    /// Tells whether every position lies in a line of `arity` fields.
    pub fn fits(&self, arity: usize) -> (b: bool)
        ensures
            b == self.within(arity as nat),
    {
        self.temperature < arity && self.pressure < arity && optional_fits(self.humidity, arity)
            && optional_fits(self.secondary_temperature, arity) && self.main_voltage < arity
            && self.amplifier_voltage < arity && optional_fits(self.usb_voltage, arity)
            && self.forward_power < arity && self.reverse_power < arity
    }
}

fn optional_fits(position: Option<usize>, arity: usize) -> (b: bool)
    ensures
        b == optional_within(position, arity as nat),
{
    match position {
        Some(p) => p < arity,
        None => true,
    }
}

/// A [`Layout`] as contracts speak of it.
pub struct LayoutView {
    pub arity: nat,
    pub channels: Channels,
}

impl LayoutView {
    /// What holds of the view of every [`Layout`].
    pub open spec fn well_formed(&self) -> bool {
        self.channels.within(self.arity)
    }
}

/// The layout of a line: its number of fields and the place of each channel.
#[derive(Clone, Copy, Debug, PartialEq, Eq)]
pub struct Layout {
    arity: usize,
    channels: Channels,
}

impl View for Layout {
    type V = LayoutView;

    closed spec fn view(&self) -> LayoutView {
        LayoutView { arity: self.arity as nat, channels: self.channels }
    }
}

impl Layout {
    /// What holds of every layout: its channels lie within its lines.
    #[verifier::type_invariant]
    pub open spec fn well_formed(self) -> bool {
        self@.well_formed()
    }

    /// The layout of lines with `arity` fields and these channels, where every
    /// channel lies within such a line.
    pub fn new(arity: usize, channels: Channels) -> (r: Option<Layout>)
        ensures
            r is Some <==> channels.within(arity as nat),
            r matches Some(layout) ==> layout@ == (LayoutView { arity: arity as nat, channels }),
    {
        if channels.fits(arity) {
            Some(Layout { arity, channels })
        } else {
            None
        }
    }

    /// The layout of eight fields: temperature, pressure, second temperature,
    /// main and amplifier voltage, forward and reverse power. The eighth field
    /// is read and not reported.
    pub fn standard() -> (layout: Layout)
        ensures
            layout@ == (LayoutView {
                arity: 8,
                channels: Channels {
                    temperature: 0,
                    pressure: 1,
                    humidity: None,
                    secondary_temperature: Some(2usize),
                    main_voltage: 3,
                    amplifier_voltage: 4,
                    usb_voltage: None,
                    forward_power: 5,
                    reverse_power: 6,
                },
            }),
    {
        Layout {
            arity: 8,
            channels: Channels {
                temperature: 0,
                pressure: 1,
                humidity: None,
                secondary_temperature: Some(2),
                main_voltage: 3,
                amplifier_voltage: 4,
                usb_voltage: None,
                forward_power: 5,
                reverse_power: 6,
            },
        }
    }

    /// The layout of nine fields: as [`Layout::standard`], with the USB
    /// voltage before the forward power. The ninth field is read and not
    /// reported.
    pub fn extended() -> (layout: Layout)
        ensures
            layout@ == (LayoutView {
                arity: 9,
                channels: Channels {
                    temperature: 0,
                    pressure: 1,
                    humidity: None,
                    secondary_temperature: Some(2usize),
                    main_voltage: 3,
                    amplifier_voltage: 4,
                    usb_voltage: Some(5usize),
                    forward_power: 6,
                    reverse_power: 7,
                },
            }),
    {
        Layout {
            arity: 9,
            channels: Channels {
                temperature: 0,
                pressure: 1,
                humidity: None,
                secondary_temperature: Some(2),
                main_voltage: 3,
                amplifier_voltage: 4,
                usb_voltage: Some(5),
                forward_power: 6,
                reverse_power: 7,
            },
        }
    }

    /// The number of fields of a line.
    pub fn arity(&self) -> (n: usize)
        ensures
            n == self@.arity,
    {
        self.arity
    }

    /// The place of each channel. Every position is below [`Layout::arity`].
    pub fn channels(&self) -> (c: Channels)
        ensures
            c == self@.channels,
            c.within(self@.arity),
    {
        proof {
            use_type_invariant(self);
        }
        self.channels
    }
}

} // verus!

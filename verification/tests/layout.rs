use repeaterpi::layout::Channels;
use repeaterpi::layout::Layout;

fn toy_channels() -> Channels {
    Channels {
        temperature: 0,
        pressure: 1,
        humidity: None,
        secondary_temperature: None,
        main_voltage: 2,
        amplifier_voltage: 3,
        usb_voltage: None,
        forward_power: 4,
        reverse_power: 5,
    }
}

#[test]
fn a_layout_whose_channels_fit_is_accepted() {
    let layout = Layout::new(6, toy_channels()).unwrap();
    assert_eq!(layout.arity(), 6);
    assert_eq!(layout.channels(), toy_channels());
    assert!(toy_channels().fits(6));
    assert!(toy_channels().fits(100));
}

#[test]
fn a_layout_with_a_channel_outside_the_line_is_refused() {
    assert!(Layout::new(5, toy_channels()).is_none());
    assert!(Layout::new(0, toy_channels()).is_none());
    assert!(!toy_channels().fits(5));
    let mut channels = toy_channels();
    channels.humidity = Some(6);
    assert!(Layout::new(6, channels).is_none());
    channels.humidity = Some(5);
    assert!(Layout::new(6, channels).is_some());
    channels.usb_voltage = Some(usize::MAX);
    assert!(Layout::new(6, channels).is_none());
    channels.usb_voltage = None;
    channels.secondary_temperature = Some(6);
    assert!(Layout::new(6, channels).is_none());
}

#[test]
fn each_channel_is_checked() {
    for which in 0..6 {
        let mut channels = toy_channels();
        match which {
            0 => channels.temperature = 6,
            1 => channels.pressure = 6,
            2 => channels.main_voltage = 6,
            3 => channels.amplifier_voltage = 6,
            4 => channels.forward_power = 6,
            _ => channels.reverse_power = 6,
        }
        assert!(Layout::new(6, channels).is_none(), "channel {}", which);
        assert!(Layout::new(7, channels).is_some(), "channel {}", which);
    }
}

#[test]
fn the_standard_layout_has_eight_fields() {
    let layout = Layout::standard();
    assert_eq!(layout.arity(), 8);
    let channels = layout.channels();
    assert_eq!(
        channels,
        Channels {
            temperature: 0,
            pressure: 1,
            humidity: None,
            secondary_temperature: Some(2),
            main_voltage: 3,
            amplifier_voltage: 4,
            usb_voltage: None,
            forward_power: 5,
            reverse_power: 6,
        }
    );
    assert_eq!(Layout::new(8, channels), Some(layout));
}

#[test]
fn the_extended_layout_has_nine_fields_and_usb_before_forward_power() {
    let layout = Layout::extended();
    assert_eq!(layout.arity(), 9);
    let channels = layout.channels();
    assert_eq!(channels.usb_voltage, Some(5));
    assert_eq!(channels.forward_power, 6);
    assert_eq!(channels.reverse_power, 7);
    assert_eq!(channels.secondary_temperature, Some(2));
    assert_eq!(Layout::new(9, channels), Some(layout));
}

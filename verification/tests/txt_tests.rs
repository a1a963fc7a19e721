use act2txt::act::{Color, ExtraData, Palette};
use act2txt::txt::WriteError;

#[test]
fn write_pdn_txt_with_transparent_index() {
    let palette = Palette {
        colors: vec![Color::new(0, 0, 0), Color::new(255, 255, 255)],
        extra: Some(ExtraData {
            declared_count: 2,
            transparent_index: 1,
        }),
    };

    let mut output = String::new();
    palette.write_pdn_txt(&mut output).unwrap();

    let expected_output = "; Created by act2txt v0.1.0 - https://github.com/ssg/act2txt-rs\n\
         ; ACT number of colors = 2\n\
         ; ACT transparent color index = 1\n\
         000000\n\
         FFFFFF\n";

    assert_eq!(output, expected_output);
}

#[test]
fn test_write_pdn_txt_no_transparent_index() {
    let palette = Palette {
        colors: vec![Color::new(0, 0, 0), Color::new(255, 0, 0)],
        extra: None,
    };

    let mut output = String::new();
    palette.write_pdn_txt(&mut output).unwrap();

    let expected_output = "; Created by act2txt v0.1.0 - https://github.com/ssg/act2txt-rs\n\
         000000\n\
         FF0000\n";

    assert_eq!(output, expected_output);
}

#[test]
fn test_write_pdn_txt_empty_palette() {
    let palette = Palette {
        colors: vec![],
        extra: None,
    };

    let mut output = String::new();
    let result: Result<(), WriteError> = palette.write_pdn_txt(&mut output);
    assert!(result.is_ok());

    let expected_output = "; Created by act2txt v0.1.0 - https://github.com/ssg/act2txt-rs\n";

    assert_eq!(output, expected_output);
}

#[test]
fn write_pdn_txt_hex_digits_are_uppercase_and_padded() {
    let palette = Palette {
        colors: vec![Color::new(26, 171, 205), Color::new(1, 15, 16)],
        extra: None,
    };

    let mut output = String::new();
    palette.write_pdn_txt(&mut output).unwrap();

    let expected_output = "; Created by act2txt v0.1.0 - https://github.com/ssg/act2txt-rs\n\
         1AABCD\n\
         010F10\n";

    assert_eq!(output, expected_output);
}

#[test]
fn write_pdn_txt_decimal_fields_in_act_lines() {
    let palette = Palette {
        colors: vec![],
        extra: Some(ExtraData {
            declared_count: 0,
            transparent_index: 65535,
        }),
    };

    let mut output = String::new();
    palette.write_pdn_txt(&mut output).unwrap();

    let expected_output = "; Created by act2txt v0.1.0 - https://github.com/ssg/act2txt-rs\n\
         ; ACT number of colors = 0\n\
         ; ACT transparent color index = 65535\n";

    assert_eq!(output, expected_output);
}

#[test]
fn write_pdn_txt_appends_to_existing_text() {
    let palette = Palette {
        colors: vec![Color::new(18, 52, 86)],
        extra: None,
    };

    let mut output = String::from("before\n");
    palette.write_pdn_txt(&mut output).unwrap();

    let expected_output = "before\n\
         ; Created by act2txt v0.1.0 - https://github.com/ssg/act2txt-rs\n\
         123456\n";

    assert_eq!(output, expected_output);
}

/// Encoding a decoded palette and re-parsing the hex lines recovers the
/// original color bytes exactly.
#[test]
fn round_trip_decode_encode_reparse() {
    let mut data: Vec<u8> = Vec::new();
    for i in 0..768 {
        data.push((i * 7 % 251) as u8);
    }
    data.extend_from_slice(&[200, 0, 3, 0]);

    let palette = Palette::read(&data, false).unwrap();
    assert_eq!(palette.colors.len(), 200);

    let mut output = String::new();
    palette.write_pdn_txt(&mut output).unwrap();

    let mut recovered: Vec<u8> = Vec::new();
    for line in output.lines() {
        if line.starts_with(';') {
            continue;
        }
        assert_eq!(line.len(), 6);
        for channel in 0..3 {
            let byte = u8::from_str_radix(&line[channel * 2..channel * 2 + 2], 16).unwrap();
            recovered.push(byte);
        }
    }
    assert_eq!(recovered, data[..600].to_vec());
}

use neothesia_core::codec::load;
use neothesia_core::codec::save;
use neothesia_core::codec::ParseError;
use neothesia_core::config::golden_color_schema;
use neothesia_core::config::inferno_color_schema;
use neothesia_core::config::neon_color_schema;
use neothesia_core::config::original_color_schema;
use neothesia_core::config::resolve;
use neothesia_core::config::AppearanceConfig;
use neothesia_core::config::AppearanceConfigV1;
use neothesia_core::config::ColorSchemaV1;
use neothesia_core::config::DevicesConfig;
use neothesia_core::config::DevicesConfigV1;
use neothesia_core::config::History;
use neothesia_core::config::HistoryV1;
use neothesia_core::config::KeyRange;
use neothesia_core::config::LayoutConfig;
use neothesia_core::config::LayoutConfigV1;
use neothesia_core::config::Model;
use neothesia_core::config::PlaybackConfig;
use neothesia_core::config::PlaybackConfigV1;
use neothesia_core::config::Rgb;
use neothesia_core::config::SynthConfig;
use neothesia_core::config::SynthConfigV1;
use neothesia_core::config::WaterfallConfig;
use neothesia_core::config::WaterfallConfigV1;

fn sample_model() -> Model {
    Model {
        waterfall: WaterfallConfig::V1(WaterfallConfigV1 {
            animation_speed: 250_000,
            animation_offset: -1_500,
            note_labels: true,
        }),
        playback: PlaybackConfig::V1(PlaybackConfigV1 { speed_multiplier: 1_250 }),
        history: History::V1(HistoryV1 {
            last_opened_song: Some(b"songs/moonlight.mid".to_vec()),
        }),
        synth: SynthConfig::V1(SynthConfigV1 {
            soundfont_path: Some(b"fonts/grand piano.sf2".to_vec()),
            audio_gain: 450,
        }),
        keyboard_layout: LayoutConfig::V1(LayoutConfigV1 {
            range: KeyRange { low: 36, high: 96 },
        }),
        devices: DevicesConfig::V1(DevicesConfigV1 {
            output: None,
            input: Some(b"USB MIDI".to_vec()),
            separate_channels: true,
        }),
        appearance: AppearanceConfig::V1(AppearanceConfigV1 {
            color_schema: vec![
                ColorSchemaV1 {
                    base: Rgb { r: 1, g: 2, b: 3 },
                    dark: Rgb { r: 4, g: 5, b: 6 },
                },
                ColorSchemaV1 {
                    base: Rgb { r: 250, g: 251, b: 252 },
                    dark: Rgb { r: 10, g: 20, b: 30 },
                },
            ],
            background_color: Rgb { r: 9, g: 8, b: 7 },
            vertical_guidelines: true,
            horizontal_guidelines: true,
            glow: false,
        }),
    }
}

#[test]
fn round_trip_sample_document() {
    let m = sample_model();
    let bytes = save(&m);
    let back = load(&bytes).expect("saved document must load");
    assert_eq!(back, m);
}

#[test]
fn round_trip_default_document() {
    let m = Model::default();
    let bytes = save(&m);
    let back = load(&bytes).expect("saved default must load");
    assert_eq!(back, m);
}

#[test]
fn empty_document_loads_all_defaults() {
    let m = load(&Vec::new()).expect("empty document must load");
    assert_eq!(m, Model::default());
    let WaterfallConfig::V1(w) = m.waterfall;
    assert_eq!(w.animation_speed, 400_000);
    assert_eq!(w.animation_offset, 0);
    assert!(!w.note_labels);
    let PlaybackConfig::V1(p) = m.playback;
    assert_eq!(p.speed_multiplier, 1_000);
    let History::V1(h) = m.history;
    assert_eq!(h.last_opened_song, None);
    let SynthConfig::V1(sy) = m.synth;
    assert_eq!(sy.soundfont_path, None);
    assert_eq!(sy.audio_gain, 200);
    let LayoutConfig::V1(l) = m.keyboard_layout;
    assert_eq!(l.range, KeyRange { low: 21, high: 108 });
    let DevicesConfig::V1(d) = m.devices;
    assert_eq!(d.output, Some(b"Buildin Synth".to_vec()));
    assert_eq!(d.input, None);
    assert!(!d.separate_channels);
    let AppearanceConfig::V1(a) = m.appearance;
    assert_eq!(a.color_schema, original_color_schema());
    assert_eq!(a.background_color, Rgb { r: 0, g: 0, b: 0 });
    assert!(!a.vertical_guidelines);
    assert!(!a.horizontal_guidelines);
    assert!(a.glow);
}

#[test]
fn empty_sections_load_defaults_without_unknown_field() {
    // Each section present with only its version byte: every field defaults.
    let mut bytes: Vec<u8> = Vec::new();
    for tag in 1u8..=7u8 {
        bytes.push(tag);
        bytes.extend_from_slice(&[1, 0, 0, 0]); // body length 1
        bytes.push(1); // version
    }
    let m = load(&bytes).expect("empty sections must load");
    assert_eq!(m, Model::default());
}

#[test]
fn partial_section_keeps_other_defaults() {
    // A playback section carrying only its speed field.
    let mut bytes: Vec<u8> = Vec::new();
    bytes.push(2); // playback
    bytes.extend_from_slice(&[6, 0, 0, 0]); // body length: version + tag + u32
    bytes.push(1); // version
    bytes.push(1); // field: speed_multiplier
    bytes.extend_from_slice(&2_500u32.to_le_bytes().as_slice());
    let m = load(&bytes).expect("partial document must load");
    let PlaybackConfig::V1(p) = m.playback;
    assert_eq!(p.speed_multiplier, 2_500);
    assert_eq!(m.waterfall, WaterfallConfig::default());
    assert_eq!(m.appearance, AppearanceConfig::default());
}

#[test]
fn unknown_section_tag_is_unknown_field() {
    let mut bytes = save(&Model::default());
    bytes.push(9); // no such section
    assert_eq!(load(&bytes), Err(ParseError::UnknownField));
}

#[test]
fn unknown_field_tag_is_unknown_field() {
    // A waterfall section whose body holds an unrecognized field tag.
    let mut bytes: Vec<u8> = Vec::new();
    bytes.push(1); // waterfall
    bytes.extend_from_slice(&[2, 0, 0, 0]); // body length 2
    bytes.push(1); // version
    bytes.push(9); // no such field
    assert_eq!(load(&bytes), Err(ParseError::UnknownField));
}

#[test]
fn truncated_document_is_malformed() {
    let bytes = vec![1u8]; // a section tag with no length
    assert_eq!(load(&bytes), Err(ParseError::Malformed));
}

#[test]
fn unsupported_section_version_is_malformed() {
    let mut bytes: Vec<u8> = Vec::new();
    bytes.push(1);
    bytes.extend_from_slice(&[1, 0, 0, 0]);
    bytes.push(2); // version 2 does not exist
    assert_eq!(load(&bytes), Err(ParseError::Malformed));
}

#[test]
fn out_of_order_sections_are_malformed() {
    let mut bytes: Vec<u8> = Vec::new();
    for tag in [2u8, 1u8] {
        bytes.push(tag);
        bytes.extend_from_slice(&[1, 0, 0, 0]);
        bytes.push(1);
    }
    assert_eq!(load(&bytes), Err(ParseError::Malformed));
}

#[test]
fn duplicate_field_is_malformed() {
    let mut bytes: Vec<u8> = Vec::new();
    bytes.push(2); // playback
    bytes.extend_from_slice(&[11, 0, 0, 0]); // version + two speed fields
    bytes.push(1);
    bytes.push(1);
    bytes.extend_from_slice(&1_000u32.to_le_bytes().as_slice());
    bytes.push(1);
    bytes.extend_from_slice(&2_000u32.to_le_bytes().as_slice());
    assert_eq!(load(&bytes), Err(ParseError::Malformed));
}

#[test]
fn bad_bool_byte_is_malformed() {
    let mut bytes: Vec<u8> = Vec::new();
    bytes.push(1); // waterfall
    bytes.extend_from_slice(&[3, 0, 0, 0]); // version + note_labels field
    bytes.push(1);
    bytes.push(3); // note_labels
    bytes.push(7); // not a bool
    assert_eq!(load(&bytes), Err(ParseError::Malformed));
}

#[test]
fn empty_palette_is_malformed() {
    let mut bytes: Vec<u8> = Vec::new();
    bytes.push(7); // appearance
    bytes.extend_from_slice(&[6, 0, 0, 0]); // version + palette field + count
    bytes.push(1);
    bytes.push(1); // color_schema
    bytes.extend_from_slice(&0u32.to_le_bytes().as_slice()); // empty palette
    assert_eq!(load(&bytes), Err(ParseError::Malformed));
}

#[test]
fn negative_offset_round_trips() {
    let mut m = sample_model();
    if let WaterfallConfig::V1(ref mut w) = m.waterfall {
        w.animation_offset = i32::MIN;
    }
    let back = load(&save(&m)).expect("must load");
    assert_eq!(back, m);
}

#[test]
fn resolve_known_themes() {
    assert_eq!(resolve(&"inferno".to_string()), inferno_color_schema());
    assert_eq!(resolve(&"neon".to_string()), neon_color_schema());
    assert_eq!(resolve(&"golden".to_string()), golden_color_schema());
    assert_eq!(resolve(&"default".to_string()), original_color_schema());
}

#[test]
fn resolve_unknown_theme_falls_back() {
    assert_eq!(resolve(&"anything-else".to_string()), original_color_schema());
    assert_eq!(resolve(&"".to_string()), original_color_schema());
    assert_eq!(resolve(&"INFERNO".to_string()), original_color_schema());
}

#[test]
fn palettes_have_six_entries() {
    for p in [
        original_color_schema(),
        inferno_color_schema(),
        neon_color_schema(),
        golden_color_schema(),
    ] {
        assert_eq!(p.len(), 6);
    }
    assert_eq!(
        original_color_schema()[0],
        ColorSchemaV1 {
            base: Rgb { r: 210, g: 89, b: 222 },
            dark: Rgb { r: 125, g: 69, b: 134 },
        }
    );
    assert_eq!(
        inferno_color_schema()[0],
        ColorSchemaV1 {
            base: Rgb { r: 255, g: 170, b: 50 },
            dark: Rgb { r: 200, g: 120, b: 20 },
        }
    );
    assert_eq!(
        neon_color_schema()[5],
        ColorSchemaV1 {
            base: Rgb { r: 200, g: 0, b: 255 },
            dark: Rgb { r: 120, g: 0, b: 180 },
        }
    );
    assert_eq!(
        golden_color_schema()[1],
        ColorSchemaV1 {
            base: Rgb { r: 255, g: 255, b: 220 },
            dark: Rgb { r: 200, g: 180, b: 140 },
        }
    );
}

#[test]
fn palette_is_cyclic_over_keys() {
    let m = sample_model();
    let AppearanceConfig::V1(a) = m.appearance;
    assert_eq!(a.color_schema.len(), 2);
    assert_eq!(a.palette_entry(0), a.color_schema[0]);
    assert_eq!(a.palette_entry(1), a.color_schema[1]);
    assert_eq!(a.palette_entry(2), a.color_schema[0]);
    assert_eq!(a.palette_entry(7), a.color_schema[1]);
}

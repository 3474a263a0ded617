//! The persisted byte format for the configuration document, with `save`,
//! `load`, and the proofs tying them together.
//!
//! Layout:
//!
//! ```text
//! document := section*            sections in strictly increasing tag order
//! section  := tag:u8 len:u32le body        tag 1..=7, len = body length
//! body     := version:u8 (= 1) field*      fields in strictly increasing tag order
//! field    := tag:u8 payload               payload type fixed by (section, field)
//! ```
//!
//! Payload encodings: `u32` little endian; `i32` as sign byte plus `u32`
//! magnitude; `bool` as one byte 0/1; optional byte string as presence byte,
//! then `u32` length and the bytes; key range as two bytes; RGB as three
//! bytes; palette as a `u32` entry count, then six bytes per entry.
//!
//! A document may omit any section, and a section any field: the documented
//! default fills the gap. An unrecognized section or field tag is
//! `UnknownField`; every structural fault (truncation, a bad byte, tags out
//! of order or repeated, an unsupported section version) is `Malformed`.

use vstd::prelude::*;

use crate::config::AppearanceConfig;
use crate::config::AppearanceConfigV1;
use crate::config::AppearanceV;
use crate::config::ColorSchemaV1;
use crate::config::DevicesConfig;
use crate::config::DevicesConfigV1;
use crate::config::DevicesV;
use crate::config::History;
use crate::config::HistoryV1;
use crate::config::HistoryV;
use crate::config::KeyRange;
use crate::config::LayoutConfig;
use crate::config::LayoutConfigV1;
use crate::config::LayoutV;
use crate::config::MAX_BYTES_LEN;
use crate::config::MAX_PALETTE_LEN;
use crate::config::Model;
use crate::config::ModelV;
use crate::config::PlaybackConfig;
use crate::config::PlaybackConfigV1;
use crate::config::PlaybackV;
use crate::config::Rgb;
use crate::config::SynthConfig;
use crate::config::SynthConfigV1;
use crate::config::SynthV;
use crate::config::WaterfallConfig;
use crate::config::WaterfallConfigV1;
use crate::config::WaterfallV;
use crate::config::cs;
use crate::config::opt_bytes_view;
use crate::config::spec_default_appearance;
use crate::config::spec_default_devices;
use crate::config::spec_default_history;
use crate::config::spec_default_layout;
use crate::config::spec_default_model;
use crate::config::spec_default_playback;
use crate::config::spec_default_synth;
use crate::config::spec_default_waterfall;
use crate::config::valid_model;

verus! {

/// Why a document failed to load.
#[derive(Debug, Clone, Copy, PartialEq, Eq, Structural)]
pub enum ParseError {
    /// Structurally unparseable input.
    Malformed,
    /// A section or field tag outside every known schema version.
    UnknownField,
}

// ---------------------------------------------------------------------------
// Primitive encodings.
// ---------------------------------------------------------------------------

pub open spec fn enc_u32(x: u32) -> Seq<u8> {
    seq![
        (x & 0xff) as u8,
        ((x >> 8) & 0xff) as u8,
        ((x >> 16) & 0xff) as u8,
        ((x >> 24) & 0xff) as u8,
    ]
}

pub open spec fn dec_u32(b0: u8, b1: u8, b2: u8, b3: u8) -> u32 {
    (b0 as u32) | ((b1 as u32) << 8) | ((b2 as u32) << 16) | ((b3 as u32) << 24)
}

proof fn lemma_u32_roundtrip(x: u32)
    ensures
        dec_u32(
            (x & 0xff) as u8,
            ((x >> 8) & 0xff) as u8,
            ((x >> 16) & 0xff) as u8,
            ((x >> 24) & 0xff) as u8,
        ) == x,
{
    assert(((x & 0xff) as u8 as u32) | ((((x >> 8) & 0xff) as u8 as u32) << 8) | ((((x >> 16)
        & 0xff) as u8 as u32) << 16) | ((((x >> 24) & 0xff) as u8 as u32) << 24) == x)
        by (bit_vector);
}

pub open spec fn enc_bool(v: bool) -> Seq<u8> {
    seq![if v { 1u8 } else { 0u8 }]
}

/// Magnitude of an `i32`, exact also at the minimum value.
pub open spec fn i32_mag(x: i32) -> u32 {
    if x >= 0 {
        x as u32
    } else {
        (-(x as int)) as u32
    }
}

pub open spec fn enc_i32(x: i32) -> Seq<u8> {
    seq![if x < 0 { 1u8 } else { 0u8 }] + enc_u32(i32_mag(x))
}

pub open spec fn enc_opt_bytes(o: Option<Seq<u8>>) -> Seq<u8> {
    match o {
        None => seq![0u8],
        Some(s) => seq![1u8] + enc_u32(s.len() as u32) + s,
    }
}

pub open spec fn enc_range(kr: KeyRange) -> Seq<u8> {
    seq![kr.low, kr.high]
}

pub open spec fn enc_rgb(c: Rgb) -> Seq<u8> {
    seq![c.r, c.g, c.b]
}

/// Byte `j` of a palette entry's six-byte encoding.
pub open spec fn pair_byte(p: ColorSchemaV1, j: int) -> u8 {
    if j == 0 {
        p.base.r
    } else if j == 1 {
        p.base.g
    } else if j == 2 {
        p.base.b
    } else if j == 3 {
        p.dark.r
    } else if j == 4 {
        p.dark.g
    } else {
        p.dark.b
    }
}

pub open spec fn enc_palette(p: Seq<ColorSchemaV1>) -> Seq<u8> {
    enc_u32(p.len() as u32) + Seq::new(6 * p.len(), |k: int| pair_byte(p[k / 6], k % 6))
}

// ---------------------------------------------------------------------------
// Primitive parsers, as total functions over a byte sequence and a window.
// `None` is a structural fault.
// ---------------------------------------------------------------------------

pub open spec fn parse_u32(b: Seq<u8>, pos: int, end: int) -> Option<(u32, int)> {
    if pos + 4 <= end {
        Some((dec_u32(b[pos], b[pos + 1], b[pos + 2], b[pos + 3]), pos + 4))
    } else {
        None
    }
}

pub open spec fn parse_bool(b: Seq<u8>, pos: int, end: int) -> Option<(bool, int)> {
    if pos + 1 <= end {
        if b[pos] == 0u8 {
            Some((false, pos + 1))
        } else if b[pos] == 1u8 {
            Some((true, pos + 1))
        } else {
            None
        }
    } else {
        None
    }
}

pub open spec fn parse_i32(b: Seq<u8>, pos: int, end: int) -> Option<(i32, int)> {
    if pos + 1 <= end && (b[pos] == 0u8 || b[pos] == 1u8) {
        match parse_u32(b, pos + 1, end) {
            Some((mag, np)) => if b[pos] == 0u8 {
                if mag <= 0x7fff_ffff {
                    Some(((mag as int) as i32, np))
                } else {
                    None
                }
            } else {
                if mag <= 0x8000_0000 {
                    Some(((-(mag as int)) as i32, np))
                } else {
                    None
                }
            },
            None => None,
        }
    } else {
        None
    }
}

pub open spec fn parse_opt_bytes(b: Seq<u8>, pos: int, end: int) -> Option<
    (Option<Seq<u8>>, int),
> {
    if pos + 1 <= end {
        if b[pos] == 0u8 {
            Some((None, pos + 1))
        } else if b[pos] == 1u8 {
            match parse_u32(b, pos + 1, end) {
                Some((n, np)) => if n <= MAX_BYTES_LEN && np + n <= end {
                    Some((Some(b.subrange(np, np + n)), np + n))
                } else {
                    None
                },
                None => None,
            }
        } else {
            None
        }
    } else {
        None
    }
}

pub open spec fn parse_range(b: Seq<u8>, pos: int, end: int) -> Option<(KeyRange, int)> {
    if pos + 2 <= end {
        Some((KeyRange { low: b[pos], high: b[pos + 1] }, pos + 2))
    } else {
        None
    }
}

pub open spec fn parse_rgb(b: Seq<u8>, pos: int, end: int) -> Option<(Rgb, int)> {
    if pos + 3 <= end {
        Some((Rgb { r: b[pos], g: b[pos + 1], b: b[pos + 2] }, pos + 3))
    } else {
        None
    }
}

/// The palette entry whose six bytes start at `p`.
pub open spec fn pair_at(b: Seq<u8>, p: int) -> ColorSchemaV1 {
    cs(b[p], b[p + 1], b[p + 2], b[p + 3], b[p + 4], b[p + 5])
}

pub open spec fn parse_palette(b: Seq<u8>, pos: int, end: int) -> Option<
    (Seq<ColorSchemaV1>, int),
> {
    match parse_u32(b, pos, end) {
        Some((n, np)) => if 1 <= n && n <= MAX_PALETTE_LEN && np + 6 * n <= end {
            Some((Seq::new(n as nat, |i: int| pair_at(b, np + 6 * i)), np + 6 * n))
        } else {
            None
        },
        None => None,
    }
}

// ---------------------------------------------------------------------------
// Optional fields: present when the next byte is the field's tag.
// ---------------------------------------------------------------------------

pub open spec fn opt_or<T>(o: Option<T>, d: T) -> T {
    match o {
        Some(v) => v,
        None => d,
    }
}

pub open spec fn try_u32_field(b: Seq<u8>, pos: int, end: int, tag: u8) -> Option<
    (Option<u32>, int),
> {
    if pos < end && b[pos] == tag {
        match parse_u32(b, pos + 1, end) {
            Some((v, np)) => Some((Some(v), np)),
            None => None,
        }
    } else {
        Some((None, pos))
    }
}

pub open spec fn try_bool_field(b: Seq<u8>, pos: int, end: int, tag: u8) -> Option<
    (Option<bool>, int),
> {
    if pos < end && b[pos] == tag {
        match parse_bool(b, pos + 1, end) {
            Some((v, np)) => Some((Some(v), np)),
            None => None,
        }
    } else {
        Some((None, pos))
    }
}

pub open spec fn try_i32_field(b: Seq<u8>, pos: int, end: int, tag: u8) -> Option<
    (Option<i32>, int),
> {
    if pos < end && b[pos] == tag {
        match parse_i32(b, pos + 1, end) {
            Some((v, np)) => Some((Some(v), np)),
            None => None,
        }
    } else {
        Some((None, pos))
    }
}

pub open spec fn try_opt_bytes_field(b: Seq<u8>, pos: int, end: int, tag: u8) -> Option<
    (Option<Option<Seq<u8>>>, int),
> {
    if pos < end && b[pos] == tag {
        match parse_opt_bytes(b, pos + 1, end) {
            Some((v, np)) => Some((Some(v), np)),
            None => None,
        }
    } else {
        Some((None, pos))
    }
}

pub open spec fn try_range_field(b: Seq<u8>, pos: int, end: int, tag: u8) -> Option<
    (Option<KeyRange>, int),
> {
    if pos < end && b[pos] == tag {
        match parse_range(b, pos + 1, end) {
            Some((v, np)) => Some((Some(v), np)),
            None => None,
        }
    } else {
        Some((None, pos))
    }
}

pub open spec fn try_rgb_field(b: Seq<u8>, pos: int, end: int, tag: u8) -> Option<
    (Option<Rgb>, int),
> {
    if pos < end && b[pos] == tag {
        match parse_rgb(b, pos + 1, end) {
            Some((v, np)) => Some((Some(v), np)),
            None => None,
        }
    } else {
        Some((None, pos))
    }
}

pub open spec fn try_palette_field(b: Seq<u8>, pos: int, end: int, tag: u8) -> Option<
    (Option<Seq<ColorSchemaV1>>, int),
> {
    if pos < end && b[pos] == tag {
        match parse_palette(b, pos + 1, end) {
            Some((v, np)) => Some((Some(v), np)),
            None => None,
        }
    } else {
        Some((None, pos))
    }
}

/// What is left after a section's known fields were tried: nothing, a known
/// tag out of order or repeated, or an unknown one.
pub open spec fn leftover(b: Seq<u8>, pos: int, end: int, max_tag: u8) -> Result<
    (),
    ParseError,
> {
    if pos == end {
        Ok(())
    } else if 1 <= b[pos] && b[pos] <= max_tag {
        Err(ParseError::Malformed)
    } else {
        Err(ParseError::UnknownField)
    }
}

// ---------------------------------------------------------------------------
// Section bodies.
// ---------------------------------------------------------------------------

pub open spec fn parse_waterfall_body(b: Seq<u8>, pos: int, end: int) -> Result<
    WaterfallV,
    ParseError,
> {
    match try_u32_field(b, pos, end, 1) {
        None => Err(ParseError::Malformed),
        Some((speed, p1)) => match try_i32_field(b, p1, end, 2) {
            None => Err(ParseError::Malformed),
            Some((offset, p2)) => match try_bool_field(b, p2, end, 3) {
                None => Err(ParseError::Malformed),
                Some((labels, p3)) => match leftover(b, p3, end, 3) {
                    Err(e) => Err(e),
                    Ok(()) => Ok(WaterfallV {
                        animation_speed: opt_or(speed, 400_000),
                        animation_offset: opt_or(offset, 0),
                        note_labels: opt_or(labels, false),
                    }),
                },
            },
        },
    }
}

pub open spec fn parse_playback_body(b: Seq<u8>, pos: int, end: int) -> Result<
    PlaybackV,
    ParseError,
> {
    match try_u32_field(b, pos, end, 1) {
        None => Err(ParseError::Malformed),
        Some((speed, p1)) => match leftover(b, p1, end, 1) {
            Err(e) => Err(e),
            Ok(()) => Ok(PlaybackV { speed_multiplier: opt_or(speed, 1000) }),
        },
    }
}

pub open spec fn parse_history_body(b: Seq<u8>, pos: int, end: int) -> Result<
    HistoryV,
    ParseError,
> {
    match try_opt_bytes_field(b, pos, end, 1) {
        None => Err(ParseError::Malformed),
        Some((song, p1)) => match leftover(b, p1, end, 1) {
            Err(e) => Err(e),
            Ok(()) => Ok(HistoryV { last_opened_song: opt_or(song, None) }),
        },
    }
}

pub open spec fn parse_synth_body(b: Seq<u8>, pos: int, end: int) -> Result<
    SynthV,
    ParseError,
> {
    match try_opt_bytes_field(b, pos, end, 1) {
        None => Err(ParseError::Malformed),
        Some((path, p1)) => match try_u32_field(b, p1, end, 2) {
            None => Err(ParseError::Malformed),
            Some((gain, p2)) => match leftover(b, p2, end, 2) {
                Err(e) => Err(e),
                Ok(()) => Ok(SynthV {
                    soundfont_path: opt_or(path, None),
                    audio_gain: opt_or(gain, 200),
                }),
            },
        },
    }
}

pub open spec fn parse_layout_body(b: Seq<u8>, pos: int, end: int) -> Result<
    LayoutV,
    ParseError,
> {
    match try_range_field(b, pos, end, 1) {
        None => Err(ParseError::Malformed),
        Some((range, p1)) => match leftover(b, p1, end, 1) {
            Err(e) => Err(e),
            Ok(()) => Ok(LayoutV { range: opt_or(range, KeyRange { low: 21, high: 108 }) }),
        },
    }
}

pub open spec fn parse_devices_body(b: Seq<u8>, pos: int, end: int) -> Result<
    DevicesV,
    ParseError,
> {
    match try_opt_bytes_field(b, pos, end, 1) {
        None => Err(ParseError::Malformed),
        Some((output, p1)) => match try_opt_bytes_field(b, p1, end, 2) {
            None => Err(ParseError::Malformed),
            Some((input, p2)) => match try_bool_field(b, p2, end, 3) {
                None => Err(ParseError::Malformed),
                Some((sep, p3)) => match leftover(b, p3, end, 3) {
                    Err(e) => Err(e),
                    Ok(()) => Ok(DevicesV {
                        output: opt_or(output, spec_default_devices().output),
                        input: opt_or(input, None),
                        separate_channels: opt_or(sep, false),
                    }),
                },
            },
        },
    }
}

pub open spec fn parse_appearance_body(b: Seq<u8>, pos: int, end: int) -> Result<
    AppearanceV,
    ParseError,
> {
    match try_palette_field(b, pos, end, 1) {
        None => Err(ParseError::Malformed),
        Some((palette, p1)) => match try_rgb_field(b, p1, end, 2) {
            None => Err(ParseError::Malformed),
            Some((bg, p2)) => match try_bool_field(b, p2, end, 3) {
                None => Err(ParseError::Malformed),
                Some((vg, p3)) => match try_bool_field(b, p3, end, 4) {
                    None => Err(ParseError::Malformed),
                    Some((hg, p4)) => match try_bool_field(b, p4, end, 5) {
                        None => Err(ParseError::Malformed),
                        Some((glow, p5)) => match leftover(b, p5, end, 5) {
                            Err(e) => Err(e),
                            Ok(()) => Ok(AppearanceV {
                                color_schema: opt_or(
                                    palette,
                                    spec_default_appearance().color_schema,
                                ),
                                background_color: opt_or(bg, Rgb { r: 0, g: 0, b: 0 }),
                                vertical_guidelines: opt_or(vg, false),
                                horizontal_guidelines: opt_or(hg, false),
                                glow: opt_or(glow, true),
                            }),
                        },
                    },
                },
            },
        },
    }
}

// ---------------------------------------------------------------------------
// The document: a scan locates each section's body, then the bodies parse.
// ---------------------------------------------------------------------------

/// Body windows found by the scan, `(start, end)` after the version byte.
pub ghost struct SectionRanges {
    pub waterfall: Option<(int, int)>,
    pub playback: Option<(int, int)>,
    pub history: Option<(int, int)>,
    pub synth: Option<(int, int)>,
    pub devices: Option<(int, int)>,
    pub keyboard_layout: Option<(int, int)>,
    pub appearance: Option<(int, int)>,
}

/// If the section with this tag starts at `pos`, its body window and the
/// position after it; if another tag starts here, no window and `pos`
/// unchanged; `None` on a structural fault.
pub open spec fn try_section(b: Seq<u8>, pos: int, tag: u8) -> Option<
    (Option<(int, int)>, int),
> {
    let end = b.len() as int;
    if pos < end && b[pos] == tag {
        match parse_u32(b, pos + 1, end) {
            Some((n, np)) => if 1 <= n && np + n <= end && b[np] == 1u8 {
                Some((Some((np + 1, np + n)), np + n))
            } else {
                None
            },
            None => None,
        }
    } else {
        Some((None, pos))
    }
}

pub open spec fn spec_scan(b: Seq<u8>) -> Result<SectionRanges, ParseError> {
    match try_section(b, 0, 1) {
        None => Err(ParseError::Malformed),
        Some((wf, p1)) => match try_section(b, p1, 2) {
            None => Err(ParseError::Malformed),
            Some((pb, p2)) => match try_section(b, p2, 3) {
                None => Err(ParseError::Malformed),
                Some((hi, p3)) => match try_section(b, p3, 4) {
                    None => Err(ParseError::Malformed),
                    Some((sy, p4)) => match try_section(b, p4, 5) {
                        None => Err(ParseError::Malformed),
                        Some((la, p5)) => match try_section(b, p5, 6) {
                            None => Err(ParseError::Malformed),
                            Some((de, p6)) => match try_section(b, p6, 7) {
                                None => Err(ParseError::Malformed),
                                Some((ap, p7)) => match leftover(b, p7, b.len() as int, 7) {
                                    Err(e) => Err(e),
                                    Ok(()) => Ok(SectionRanges {
                                        waterfall: wf,
                                        playback: pb,
                                        history: hi,
                                        synth: sy,
                                        keyboard_layout: la,
                                        devices: de,
                                        appearance: ap,
                                    }),
                                },
                            },
                        },
                    },
                },
            },
        },
    }
}

pub open spec fn spec_load(b: Seq<u8>) -> Result<ModelV, ParseError> {
    match spec_scan(b) {
        Err(e) => Err(e),
        Ok(r) => {
            let wf = match r.waterfall {
                Some((s, e)) => parse_waterfall_body(b, s, e),
                None => Ok(spec_default_waterfall()),
            };
            let pb = match r.playback {
                Some((s, e)) => parse_playback_body(b, s, e),
                None => Ok(spec_default_playback()),
            };
            let hi = match r.history {
                Some((s, e)) => parse_history_body(b, s, e),
                None => Ok(spec_default_history()),
            };
            let sy = match r.synth {
                Some((s, e)) => parse_synth_body(b, s, e),
                None => Ok(spec_default_synth()),
            };
            let la = match r.keyboard_layout {
                Some((s, e)) => parse_layout_body(b, s, e),
                None => Ok(spec_default_layout()),
            };
            let de = match r.devices {
                Some((s, e)) => parse_devices_body(b, s, e),
                None => Ok(spec_default_devices()),
            };
            let ap = match r.appearance {
                Some((s, e)) => parse_appearance_body(b, s, e),
                None => Ok(spec_default_appearance()),
            };
            match wf {
                Err(e) => Err(e),
                Ok(wf) => match pb {
                    Err(e) => Err(e),
                    Ok(pb) => match hi {
                        Err(e) => Err(e),
                        Ok(hi) => match sy {
                            Err(e) => Err(e),
                            Ok(sy) => match la {
                                Err(e) => Err(e),
                                Ok(la) => match de {
                                    Err(e) => Err(e),
                                    Ok(de) => match ap {
                                        Err(e) => Err(e),
                                        Ok(ap) => Ok(ModelV {
                                            waterfall: wf,
                                            playback: pb,
                                            history: hi,
                                            synth: sy,
                                            keyboard_layout: la,
                                            devices: de,
                                            appearance: ap,
                                        }),
                                    },
                                },
                            },
                        },
                    },
                },
            }
        },
    }
}

// ---------------------------------------------------------------------------
// Saving: every section and every field written, in canonical order.
// ---------------------------------------------------------------------------

pub open spec fn enc_waterfall_fields(w: WaterfallV) -> Seq<u8> {
    seq![1u8] + enc_u32(w.animation_speed) + seq![2u8] + enc_i32(w.animation_offset) + seq![3u8]
        + enc_bool(w.note_labels)
}

pub open spec fn enc_playback_fields(p: PlaybackV) -> Seq<u8> {
    seq![1u8] + enc_u32(p.speed_multiplier)
}

pub open spec fn enc_history_fields(h: HistoryV) -> Seq<u8> {
    seq![1u8] + enc_opt_bytes(h.last_opened_song)
}

pub open spec fn enc_synth_fields(s: SynthV) -> Seq<u8> {
    seq![1u8] + enc_opt_bytes(s.soundfont_path) + seq![2u8] + enc_u32(s.audio_gain)
}

pub open spec fn enc_layout_fields(l: LayoutV) -> Seq<u8> {
    seq![1u8] + enc_range(l.range)
}

pub open spec fn enc_devices_fields(d: DevicesV) -> Seq<u8> {
    seq![1u8] + enc_opt_bytes(d.output) + seq![2u8] + enc_opt_bytes(d.input) + seq![3u8]
        + enc_bool(d.separate_channels)
}

pub open spec fn enc_appearance_fields(a: AppearanceV) -> Seq<u8> {
    seq![1u8] + enc_palette(a.color_schema) + seq![2u8] + enc_rgb(a.background_color) + seq![3u8]
        + enc_bool(a.vertical_guidelines) + seq![4u8] + enc_bool(a.horizontal_guidelines)
        + seq![5u8] + enc_bool(a.glow)
}

/// A section chunk: tag, body length, version byte, fields.
pub open spec fn wrap_section(tag: u8, fields: Seq<u8>) -> Seq<u8> {
    seq![tag] + enc_u32((fields.len() + 1) as u32) + seq![1u8] + fields
}

pub open spec fn spec_save(m: ModelV) -> Seq<u8> {
    wrap_section(1, enc_waterfall_fields(m.waterfall)) + wrap_section(
        2,
        enc_playback_fields(m.playback),
    ) + wrap_section(3, enc_history_fields(m.history)) + wrap_section(
        4,
        enc_synth_fields(m.synth),
    ) + wrap_section(5, enc_layout_fields(m.keyboard_layout)) + wrap_section(
        6,
        enc_devices_fields(m.devices),
    ) + wrap_section(7, enc_appearance_fields(m.appearance))
}

// ---------------------------------------------------------------------------
// Writers.
// ---------------------------------------------------------------------------

proof fn lemma_div6(i: int, j: int)
    requires
        0 <= j < 6,
    ensures
        (6 * i + j) / 6 == i,
        (6 * i + j) % 6 == j,
{
    vstd::arithmetic::div_mod::lemma_fundamental_div_mod_converse(6 * i + j, 6, i, j);
}

fn write_u32(out: &mut Vec<u8>, x: u32)
    ensures
        final(out)@ == old(out)@ + enc_u32(x),
{
    out.push((x & 0xff) as u8);
    out.push(((x >> 8) & 0xff) as u8);
    out.push(((x >> 16) & 0xff) as u8);
    out.push(((x >> 24) & 0xff) as u8);
    proof {
        assert(out@ =~= old(out)@ + enc_u32(x));
    }
}

fn write_bool(out: &mut Vec<u8>, v: bool)
    ensures
        final(out)@ == old(out)@ + enc_bool(v),
{
    out.push(if v { 1 } else { 0 });
    proof {
        assert(out@ =~= old(out)@ + enc_bool(v));
    }
}

fn write_i32(out: &mut Vec<u8>, x: i32)
    ensures
        final(out)@ == old(out)@ + enc_i32(x),
{
    if x < 0 {
        out.push(1);
        let mag: u32 = (-(x as i64)) as u32;
        proof {
            assert(mag == i32_mag(x));
        }
        write_u32(out, mag);
    } else {
        out.push(0);
        write_u32(out, x as u32);
    }
    proof {
        assert(out@ =~= old(out)@ + enc_i32(x));
    }
}

fn write_opt_bytes(out: &mut Vec<u8>, o: &Option<Vec<u8>>)
    requires
        opt_bytes_view(o) matches Some(s) ==> s.len() <= MAX_BYTES_LEN,
    ensures
        final(out)@ == old(out)@ + enc_opt_bytes(opt_bytes_view(o)),
{
    match o {
        None => {
            out.push(0);
            proof {
                assert(out@ =~= old(out)@ + enc_opt_bytes(opt_bytes_view(o)));
            }
        },
        Some(v) => {
            out.push(1);
            write_u32(out, v.len() as u32);
            let mut i: usize = 0;
            while i < v.len()
                invariant
                    i <= v.len(),
                    v@.len() <= MAX_BYTES_LEN,
                    out@ == old(out)@ + seq![1u8] + enc_u32(v@.len() as u32) + v@.take(i as int),
                decreases v.len() - i,
            {
                out.push(v[i]);
                proof {
                    assert(out@ =~= old(out)@ + seq![1u8] + enc_u32(v@.len() as u32) + v@.take(
                        i + 1,
                    ));
                }
                i = i + 1;
            }
            proof {
                assert(v@.take(v@.len() as int) =~= v@);
                assert(out@ =~= old(out)@ + enc_opt_bytes(opt_bytes_view(o)));
            }
        },
    }
}

fn write_range(out: &mut Vec<u8>, kr: &KeyRange)
    ensures
        final(out)@ == old(out)@ + enc_range(*kr),
{
    out.push(kr.low);
    out.push(kr.high);
    proof {
        assert(out@ =~= old(out)@ + enc_range(*kr));
    }
}

fn write_rgb(out: &mut Vec<u8>, c: &Rgb)
    ensures
        final(out)@ == old(out)@ + enc_rgb(*c),
{
    out.push(c.r);
    out.push(c.g);
    out.push(c.b);
    proof {
        assert(out@ =~= old(out)@ + enc_rgb(*c));
    }
}

fn write_palette(out: &mut Vec<u8>, p: &Vec<ColorSchemaV1>)
    requires
        p@.len() <= MAX_PALETTE_LEN,
    ensures
        final(out)@ == old(out)@ + enc_palette(p@),
{
    write_u32(out, p.len() as u32);
    let mut i: usize = 0;
    while i < p.len()
        invariant
            i <= p.len(),
            p@.len() <= MAX_PALETTE_LEN,
            out@ == old(out)@ + enc_u32(p@.len() as u32) + Seq::new(
                (6 * i) as nat,
                |k: int| pair_byte(p@[k / 6], k % 6),
            ),
        decreases p.len() - i,
    {
        let e = p[i];
        out.push(e.base.r);
        out.push(e.base.g);
        out.push(e.base.b);
        out.push(e.dark.r);
        out.push(e.dark.g);
        out.push(e.dark.b);
        proof {
            assert forall|j: int| 0 <= j < 6 implies pair_byte(
                p@[(6 * (i as int) + j) / 6],
                (6 * (i as int) + j) % 6,
            ) == pair_byte(p@[i as int], j) by {
                lemma_div6(i as int, j);
            }
            assert(out@ =~= old(out)@ + enc_u32(p@.len() as u32) + Seq::new(
                (6 * (i + 1)) as nat,
                |k: int| pair_byte(p@[k / 6], k % 6),
            ));
        }
        i = i + 1;
    }
    proof {
        assert(out@ =~= old(out)@ + enc_palette(p@));
    }
}

/// Serializes a document: every section and field, in canonical order.
pub fn save(m: &Model) -> (r: Vec<u8>)
    requires
        valid_model(m@),
    ensures
        r@ == spec_save(m@),
{
    let mut body: Vec<u8> = Vec::new();

    // waterfall
    match &m.waterfall {
        WaterfallConfig::V1(w) => {
            body.push(1);
            write_u32(&mut body, w.animation_speed);
            body.push(2);
            write_i32(&mut body, w.animation_offset);
            body.push(3);
            write_bool(&mut body, w.note_labels);
        },
    }
    proof {
        assert(body@ =~= enc_waterfall_fields(m@.waterfall));
    }
    let mut out: Vec<u8> = Vec::new();
    append_section(&mut out, 1, &body);
    proof {
        assert(out@ =~= wrap_section(1, enc_waterfall_fields(m@.waterfall)));
    }

    // playback
    let mut body: Vec<u8> = Vec::new();
    match &m.playback {
        PlaybackConfig::V1(p) => {
            body.push(1);
            write_u32(&mut body, p.speed_multiplier);
        },
    }
    proof {
        assert(body@ =~= enc_playback_fields(m@.playback));
    }
    let ghost out1 = out@;
    append_section(&mut out, 2, &body);

    // history
    let mut body: Vec<u8> = Vec::new();
    match &m.history {
        History::V1(h) => {
            body.push(1);
            write_opt_bytes(&mut body, &h.last_opened_song);
        },
    }
    proof {
        assert(body@ =~= enc_history_fields(m@.history));
    }
    let ghost out2 = out@;
    append_section(&mut out, 3, &body);

    // synth
    let mut body: Vec<u8> = Vec::new();
    match &m.synth {
        SynthConfig::V1(sy) => {
            body.push(1);
            write_opt_bytes(&mut body, &sy.soundfont_path);
            body.push(2);
            write_u32(&mut body, sy.audio_gain);
        },
    }
    proof {
        assert(body@ =~= enc_synth_fields(m@.synth));
    }
    let ghost out3 = out@;
    append_section(&mut out, 4, &body);

    // keyboard layout
    let mut body: Vec<u8> = Vec::new();
    match &m.keyboard_layout {
        LayoutConfig::V1(l) => {
            body.push(1);
            write_range(&mut body, &l.range);
        },
    }
    proof {
        assert(body@ =~= enc_layout_fields(m@.keyboard_layout));
    }
    let ghost out4 = out@;
    append_section(&mut out, 5, &body);

    // devices
    let mut body: Vec<u8> = Vec::new();
    match &m.devices {
        DevicesConfig::V1(d) => {
            body.push(1);
            write_opt_bytes(&mut body, &d.output);
            body.push(2);
            write_opt_bytes(&mut body, &d.input);
            body.push(3);
            write_bool(&mut body, d.separate_channels);
        },
    }
    proof {
        assert(body@ =~= enc_devices_fields(m@.devices));
    }
    let ghost out5 = out@;
    append_section(&mut out, 6, &body);

    // appearance
    let mut body: Vec<u8> = Vec::new();
    match &m.appearance {
        AppearanceConfig::V1(a) => {
            body.push(1);
            write_palette(&mut body, &a.color_schema);
            body.push(2);
            write_rgb(&mut body, &a.background_color);
            body.push(3);
            write_bool(&mut body, a.vertical_guidelines);
            body.push(4);
            write_bool(&mut body, a.horizontal_guidelines);
            body.push(5);
            write_bool(&mut body, a.glow);
        },
    }
    proof {
        assert(body@ =~= enc_appearance_fields(m@.appearance));
    }
    let ghost out6 = out@;
    append_section(&mut out, 7, &body);

    proof {
        assert(out@ =~= spec_save(m@));
    }
    out
}

/// Appends one section chunk: tag, body length, version byte, fields.
fn append_section(out: &mut Vec<u8>, tag: u8, fields: &Vec<u8>)
    requires
        fields@.len() + 1 <= u32::MAX,
    ensures
        final(out)@ == old(out)@ + wrap_section(tag, fields@),
{
    out.push(tag);
    write_u32(out, (fields.len() + 1) as u32);
    out.push(1);
    let mut i: usize = 0;
    while i < fields.len()
        invariant
            i <= fields.len(),
            out@ == old(out)@ + seq![tag] + enc_u32((fields@.len() + 1) as u32) + seq![1u8]
                + fields@.take(i as int),
        decreases fields.len() - i,
    {
        out.push(fields[i]);
        proof {
            assert(out@ =~= old(out)@ + seq![tag] + enc_u32((fields@.len() + 1) as u32)
                + seq![1u8] + fields@.take(i + 1));
        }
        i = i + 1;
    }
    proof {
        assert(fields@.take(fields@.len() as int) =~= fields@);
        assert(out@ =~= old(out)@ + wrap_section(tag, fields@));
    }
}

// ---------------------------------------------------------------------------
// Readers.
// ---------------------------------------------------------------------------

fn read_u32(b: &Vec<u8>, pos: usize, end: usize) -> (r: Option<(u32, usize)>)
    requires
        pos <= end <= b@.len(),
    ensures
        r is Some <==> parse_u32(b@, pos as int, end as int) is Some,
        r matches Some((v, np)) ==> parse_u32(b@, pos as int, end as int) == Some((
            v,
            np as int,
        )) && pos <= np <= end,
{
    if end - pos >= 4 {
        let v = (b[pos] as u32) | ((b[pos + 1] as u32) << 8) | ((b[pos + 2] as u32) << 16) | ((b[
            pos + 3
        ] as u32) << 24);
        Some((v, pos + 4))
    } else {
        None
    }
}

fn read_bool(b: &Vec<u8>, pos: usize, end: usize) -> (r: Option<(bool, usize)>)
    requires
        pos <= end <= b@.len(),
    ensures
        r is Some <==> parse_bool(b@, pos as int, end as int) is Some,
        r matches Some((v, np)) ==> parse_bool(b@, pos as int, end as int) == Some((
            v,
            np as int,
        )) && pos <= np <= end,
{
    if end - pos >= 1 {
        let t = b[pos];
        if t == 0 {
            Some((false, pos + 1))
        } else if t == 1 {
            Some((true, pos + 1))
        } else {
            None
        }
    } else {
        None
    }
}

fn read_i32(b: &Vec<u8>, pos: usize, end: usize) -> (r: Option<(i32, usize)>)
    requires
        pos <= end <= b@.len(),
    ensures
        r is Some <==> parse_i32(b@, pos as int, end as int) is Some,
        r matches Some((v, np)) ==> parse_i32(b@, pos as int, end as int) == Some((
            v,
            np as int,
        )) && pos <= np <= end,
{
    if end - pos >= 1 {
        let sgn = b[pos];
        if sgn == 0 || sgn == 1 {
            match read_u32(b, pos + 1, end) {
                Some((mag, np)) => if sgn == 0 {
                    if mag <= 0x7fff_ffff {
                        Some((mag as i32, np))
                    } else {
                        None
                    }
                } else {
                    if mag <= 0x8000_0000 {
                        Some(((-(mag as i64)) as i32, np))
                    } else {
                        None
                    }
                },
                None => None,
            }
        } else {
            None
        }
    } else {
        None
    }
}

fn read_opt_bytes(b: &Vec<u8>, pos: usize, end: usize) -> (r: Option<(Option<Vec<u8>>, usize)>)
    requires
        pos <= end <= b@.len(),
    ensures
        r is Some <==> parse_opt_bytes(b@, pos as int, end as int) is Some,
        r matches Some((v, np)) ==> parse_opt_bytes(b@, pos as int, end as int) == Some((
            opt_bytes_view(&v),
            np as int,
        )) && pos <= np <= end,
        r matches Some((Some(v), np)) ==> v@.len() <= MAX_BYTES_LEN,
{
    if end - pos >= 1 {
        let t = b[pos];
        if t == 0 {
            Some((None, pos + 1))
        } else if t == 1 {
            match read_u32(b, pos + 1, end) {
                Some((n, np)) => if n <= MAX_BYTES_LEN && (n as usize) <= end - np {
                    let count = n as usize;
                    let mut v: Vec<u8> = Vec::new();
                    let mut i: usize = 0;
                    while i < count
                        invariant
                            i <= count,
                            np + count <= end <= b@.len(),
                            v@ == b@.subrange(np as int, np as int + i as int),
                        decreases count - i,
                    {
                        v.push(b[np + i]);
                        proof {
                            assert(v@ =~= b@.subrange(np as int, np as int + (i + 1) as int));
                        }
                        i = i + 1;
                    }
                    Some((Some(v), np + count))
                } else {
                    None
                },
                None => None,
            }
        } else {
            None
        }
    } else {
        None
    }
}

fn read_range(b: &Vec<u8>, pos: usize, end: usize) -> (r: Option<(KeyRange, usize)>)
    requires
        pos <= end <= b@.len(),
    ensures
        r is Some <==> parse_range(b@, pos as int, end as int) is Some,
        r matches Some((v, np)) ==> parse_range(b@, pos as int, end as int) == Some((
            v,
            np as int,
        )) && pos <= np <= end,
{
    if end - pos >= 2 {
        Some((KeyRange { low: b[pos], high: b[pos + 1] }, pos + 2))
    } else {
        None
    }
}

fn read_rgb(b: &Vec<u8>, pos: usize, end: usize) -> (r: Option<(Rgb, usize)>)
    requires
        pos <= end <= b@.len(),
    ensures
        r is Some <==> parse_rgb(b@, pos as int, end as int) is Some,
        r matches Some((v, np)) ==> parse_rgb(b@, pos as int, end as int) == Some((
            v,
            np as int,
        )) && pos <= np <= end,
{
    if end - pos >= 3 {
        Some((Rgb { r: b[pos], g: b[pos + 1], b: b[pos + 2] }, pos + 3))
    } else {
        None
    }
}

fn read_palette(b: &Vec<u8>, pos: usize, end: usize) -> (r: Option<
    (Vec<ColorSchemaV1>, usize),
>)
    requires
        pos <= end <= b@.len(),
    ensures
        r is Some <==> parse_palette(b@, pos as int, end as int) is Some,
        r matches Some((v, np)) ==> parse_palette(b@, pos as int, end as int) == Some((
            v@,
            np as int,
        )) && pos <= np <= end && 1 <= v@.len() <= MAX_PALETTE_LEN,
{
    match read_u32(b, pos, end) {
        Some((n, np)) => if 1 <= n && n <= MAX_PALETTE_LEN && 6 * (n as usize) <= end - np {
            let count = n as usize;
            let mut v: Vec<ColorSchemaV1> = Vec::new();
            let mut i: usize = 0;
            while i < count
                invariant
                    i <= count,
                    np + 6 * count <= end <= b@.len(),
                    v@ == Seq::new(i as nat, |t: int| pair_at(b@, np as int + 6 * t)),
                decreases count - i,
            {
                let off = np + 6 * i;
                let e = ColorSchemaV1 {
                    base: Rgb { r: b[off], g: b[off + 1], b: b[off + 2] },
                    dark: Rgb { r: b[off + 3], g: b[off + 4], b: b[off + 5] },
                };
                v.push(e);
                proof {
                    assert(v@ =~= Seq::new(
                        (i + 1) as nat,
                        |t: int| pair_at(b@, np as int + 6 * t),
                    ));
                }
                i = i + 1;
            }
            Some((v, np + 6 * count))
        } else {
            None
        },
        None => None,
    }
}

// Optional-field readers.

fn read_u32_field(b: &Vec<u8>, pos: usize, end: usize, tag: u8) -> (r: Option<
    (Option<u32>, usize),
>)
    requires
        pos <= end <= b@.len(),
    ensures
        r is Some <==> try_u32_field(b@, pos as int, end as int, tag) is Some,
        r matches Some((v, np)) ==> try_u32_field(b@, pos as int, end as int, tag) == Some((
            v,
            np as int,
        )) && pos <= np <= end,
{
    if pos < end && b[pos] == tag {
        match read_u32(b, pos + 1, end) {
            Some((v, np)) => Some((Some(v), np)),
            None => None,
        }
    } else {
        Some((None, pos))
    }
}

fn read_bool_field(b: &Vec<u8>, pos: usize, end: usize, tag: u8) -> (r: Option<
    (Option<bool>, usize),
>)
    requires
        pos <= end <= b@.len(),
    ensures
        r is Some <==> try_bool_field(b@, pos as int, end as int, tag) is Some,
        r matches Some((v, np)) ==> try_bool_field(b@, pos as int, end as int, tag) == Some((
            v,
            np as int,
        )) && pos <= np <= end,
{
    if pos < end && b[pos] == tag {
        match read_bool(b, pos + 1, end) {
            Some((v, np)) => Some((Some(v), np)),
            None => None,
        }
    } else {
        Some((None, pos))
    }
}

fn read_i32_field(b: &Vec<u8>, pos: usize, end: usize, tag: u8) -> (r: Option<
    (Option<i32>, usize),
>)
    requires
        pos <= end <= b@.len(),
    ensures
        r is Some <==> try_i32_field(b@, pos as int, end as int, tag) is Some,
        r matches Some((v, np)) ==> try_i32_field(b@, pos as int, end as int, tag) == Some((
            v,
            np as int,
        )) && pos <= np <= end,
{
    if pos < end && b[pos] == tag {
        match read_i32(b, pos + 1, end) {
            Some((v, np)) => Some((Some(v), np)),
            None => None,
        }
    } else {
        Some((None, pos))
    }
}

pub open spec fn opt_opt_bytes_view(v: Option<Option<Vec<u8>>>) -> Option<Option<Seq<u8>>> {
    match v {
        Some(o) => Some(opt_bytes_view(&o)),
        None => None,
    }
}

fn read_opt_bytes_field(b: &Vec<u8>, pos: usize, end: usize, tag: u8) -> (r: Option<
    (Option<Option<Vec<u8>>>, usize),
>)
    requires
        pos <= end <= b@.len(),
    ensures
        r is Some <==> try_opt_bytes_field(b@, pos as int, end as int, tag) is Some,
        r matches Some((v, np)) ==> try_opt_bytes_field(b@, pos as int, end as int, tag)
            == Some((opt_opt_bytes_view(v), np as int)) && pos <= np <= end,
        r matches Some((Some(Some(v)), np)) ==> v@.len() <= MAX_BYTES_LEN,
{
    if pos < end && b[pos] == tag {
        match read_opt_bytes(b, pos + 1, end) {
            Some((v, np)) => Some((Some(v), np)),
            None => None,
        }
    } else {
        Some((None, pos))
    }
}

fn read_range_field(b: &Vec<u8>, pos: usize, end: usize, tag: u8) -> (r: Option<
    (Option<KeyRange>, usize),
>)
    requires
        pos <= end <= b@.len(),
    ensures
        r is Some <==> try_range_field(b@, pos as int, end as int, tag) is Some,
        r matches Some((v, np)) ==> try_range_field(b@, pos as int, end as int, tag) == Some((
            v,
            np as int,
        )) && pos <= np <= end,
{
    if pos < end && b[pos] == tag {
        match read_range(b, pos + 1, end) {
            Some((v, np)) => Some((Some(v), np)),
            None => None,
        }
    } else {
        Some((None, pos))
    }
}

fn read_rgb_field(b: &Vec<u8>, pos: usize, end: usize, tag: u8) -> (r: Option<
    (Option<Rgb>, usize),
>)
    requires
        pos <= end <= b@.len(),
    ensures
        r is Some <==> try_rgb_field(b@, pos as int, end as int, tag) is Some,
        r matches Some((v, np)) ==> try_rgb_field(b@, pos as int, end as int, tag) == Some((
            v,
            np as int,
        )) && pos <= np <= end,
{
    if pos < end && b[pos] == tag {
        match read_rgb(b, pos + 1, end) {
            Some((v, np)) => Some((Some(v), np)),
            None => None,
        }
    } else {
        Some((None, pos))
    }
}

pub open spec fn opt_palette_view(v: Option<Vec<ColorSchemaV1>>) -> Option<Seq<ColorSchemaV1>> {
    match v {
        Some(p) => Some(p@),
        None => None,
    }
}

fn read_palette_field(b: &Vec<u8>, pos: usize, end: usize, tag: u8) -> (r: Option<
    (Option<Vec<ColorSchemaV1>>, usize),
>)
    requires
        pos <= end <= b@.len(),
    ensures
        r is Some <==> try_palette_field(b@, pos as int, end as int, tag) is Some,
        r matches Some((v, np)) ==> try_palette_field(b@, pos as int, end as int, tag) == Some((
            opt_palette_view(v),
            np as int,
        )) && pos <= np <= end,
        r matches Some((Some(v), np)) ==> 1 <= v@.len() <= MAX_PALETTE_LEN,
{
    if pos < end && b[pos] == tag {
        match read_palette(b, pos + 1, end) {
            Some((v, np)) => Some((Some(v), np)),
            None => None,
        }
    } else {
        Some((None, pos))
    }
}

// ---------------------------------------------------------------------------
// Section body parsers.
// ---------------------------------------------------------------------------

fn parse_waterfall(b: &Vec<u8>, pos: usize, end: usize) -> (r: Result<
    WaterfallConfigV1,
    ParseError,
>)
    requires
        pos <= end <= b@.len(),
    ensures
        match r {
            Ok(w) => parse_waterfall_body(b@, pos as int, end as int) == Ok::<
                WaterfallV,
                ParseError,
            >(WaterfallConfig::V1(w)@),
            Err(e) => parse_waterfall_body(b@, pos as int, end as int) == Err::<
                WaterfallV,
                ParseError,
            >(e),
        },
{
    let (speed, p1) = match read_u32_field(b, pos, end, 1) {
        Some(x) => x,
        None => {
            return Err(ParseError::Malformed);
        },
    };
    let (offset, p2) = match read_i32_field(b, p1, end, 2) {
        Some(x) => x,
        None => {
            return Err(ParseError::Malformed);
        },
    };
    let (labels, p3) = match read_bool_field(b, p2, end, 3) {
        Some(x) => x,
        None => {
            return Err(ParseError::Malformed);
        },
    };
    if p3 == end {
        Ok(WaterfallConfigV1 {
            animation_speed: match speed {
                Some(v) => v,
                None => crate::config::default_animation_speed(),
            },
            animation_offset: match offset {
                Some(v) => v,
                None => crate::config::default_animation_offset(),
            },
            note_labels: match labels {
                Some(v) => v,
                None => crate::config::default_note_labels(),
            },
        })
    } else {
        let t = b[p3];
        if 1 <= t && t <= 3 {
            Err(ParseError::Malformed)
        } else {
            Err(ParseError::UnknownField)
        }
    }
}

fn parse_playback(b: &Vec<u8>, pos: usize, end: usize) -> (r: Result<
    PlaybackConfigV1,
    ParseError,
>)
    requires
        pos <= end <= b@.len(),
    ensures
        match r {
            Ok(p) => parse_playback_body(b@, pos as int, end as int) == Ok::<
                PlaybackV,
                ParseError,
            >(PlaybackConfig::V1(p)@),
            Err(e) => parse_playback_body(b@, pos as int, end as int) == Err::<
                PlaybackV,
                ParseError,
            >(e),
        },
{
    let (speed, p1) = match read_u32_field(b, pos, end, 1) {
        Some(x) => x,
        None => {
            return Err(ParseError::Malformed);
        },
    };
    if p1 == end {
        Ok(PlaybackConfigV1 {
            speed_multiplier: match speed {
                Some(v) => v,
                None => crate::config::default_speed_multiplier(),
            },
        })
    } else {
        let t = b[p1];
        if t == 1 {
            Err(ParseError::Malformed)
        } else {
            Err(ParseError::UnknownField)
        }
    }
}

fn parse_history(b: &Vec<u8>, pos: usize, end: usize) -> (r: Result<HistoryV1, ParseError>)
    requires
        pos <= end <= b@.len(),
    ensures
        match r {
            Ok(h) => parse_history_body(b@, pos as int, end as int) == Ok::<HistoryV, ParseError>(
                History::V1(h)@,
            ) && (h.last_opened_song matches Some(v) ==> v@.len() <= MAX_BYTES_LEN),
            Err(e) => parse_history_body(b@, pos as int, end as int) == Err::<
                HistoryV,
                ParseError,
            >(e),
        },
{
    let (song, p1) = match read_opt_bytes_field(b, pos, end, 1) {
        Some(x) => x,
        None => {
            return Err(ParseError::Malformed);
        },
    };
    if p1 == end {
        Ok(HistoryV1 {
            last_opened_song: match song {
                Some(v) => v,
                None => None,
            },
        })
    } else {
        let t = b[p1];
        if t == 1 {
            Err(ParseError::Malformed)
        } else {
            Err(ParseError::UnknownField)
        }
    }
}

fn parse_synth(b: &Vec<u8>, pos: usize, end: usize) -> (r: Result<SynthConfigV1, ParseError>)
    requires
        pos <= end <= b@.len(),
    ensures
        match r {
            Ok(sy) => parse_synth_body(b@, pos as int, end as int) == Ok::<SynthV, ParseError>(
                SynthConfig::V1(sy)@,
            ) && (sy.soundfont_path matches Some(v) ==> v@.len() <= MAX_BYTES_LEN),
            Err(e) => parse_synth_body(b@, pos as int, end as int) == Err::<SynthV, ParseError>(
                e,
            ),
        },
{
    let (path, p1) = match read_opt_bytes_field(b, pos, end, 1) {
        Some(x) => x,
        None => {
            return Err(ParseError::Malformed);
        },
    };
    let (gain, p2) = match read_u32_field(b, p1, end, 2) {
        Some(x) => x,
        None => {
            return Err(ParseError::Malformed);
        },
    };
    if p2 == end {
        Ok(SynthConfigV1 {
            soundfont_path: match path {
                Some(v) => v,
                None => None,
            },
            audio_gain: match gain {
                Some(v) => v,
                None => crate::config::default_audio_gain(),
            },
        })
    } else {
        let t = b[p2];
        if 1 <= t && t <= 2 {
            Err(ParseError::Malformed)
        } else {
            Err(ParseError::UnknownField)
        }
    }
}

fn parse_layout(b: &Vec<u8>, pos: usize, end: usize) -> (r: Result<LayoutConfigV1, ParseError>)
    requires
        pos <= end <= b@.len(),
    ensures
        match r {
            Ok(l) => parse_layout_body(b@, pos as int, end as int) == Ok::<LayoutV, ParseError>(
                LayoutConfig::V1(l)@,
            ),
            Err(e) => parse_layout_body(b@, pos as int, end as int) == Err::<LayoutV, ParseError>(
                e,
            ),
        },
{
    let (range, p1) = match read_range_field(b, pos, end, 1) {
        Some(x) => x,
        None => {
            return Err(ParseError::Malformed);
        },
    };
    if p1 == end {
        Ok(LayoutConfigV1 {
            range: match range {
                Some(v) => v,
                None => crate::config::default_piano_range(),
            },
        })
    } else {
        let t = b[p1];
        if t == 1 {
            Err(ParseError::Malformed)
        } else {
            Err(ParseError::UnknownField)
        }
    }
}

fn parse_devices(b: &Vec<u8>, pos: usize, end: usize) -> (r: Result<DevicesConfigV1, ParseError>)
    requires
        pos <= end <= b@.len(),
    ensures
        match r {
            Ok(d) => parse_devices_body(b@, pos as int, end as int) == Ok::<DevicesV, ParseError>(
                DevicesConfig::V1(d)@,
            ) && (d.output matches Some(v) ==> v@.len() <= MAX_BYTES_LEN) && (
            d.input matches Some(v) ==> v@.len() <= MAX_BYTES_LEN),
            Err(e) => parse_devices_body(b@, pos as int, end as int) == Err::<
                DevicesV,
                ParseError,
            >(e),
        },
{
    let (output, p1) = match read_opt_bytes_field(b, pos, end, 1) {
        Some(x) => x,
        None => {
            return Err(ParseError::Malformed);
        },
    };
    let (input, p2) = match read_opt_bytes_field(b, p1, end, 2) {
        Some(x) => x,
        None => {
            return Err(ParseError::Malformed);
        },
    };
    let (sep, p3) = match read_bool_field(b, p2, end, 3) {
        Some(x) => x,
        None => {
            return Err(ParseError::Malformed);
        },
    };
    if p3 == end {
        Ok(DevicesConfigV1 {
            output: match output {
                Some(v) => v,
                None => crate::config::default_output(),
            },
            input: match input {
                Some(v) => v,
                None => None,
            },
            separate_channels: match sep {
                Some(v) => v,
                None => crate::config::default_separate_channels(),
            },
        })
    } else {
        let t = b[p3];
        if 1 <= t && t <= 3 {
            Err(ParseError::Malformed)
        } else {
            Err(ParseError::UnknownField)
        }
    }
}

fn parse_appearance(b: &Vec<u8>, pos: usize, end: usize) -> (r: Result<
    AppearanceConfigV1,
    ParseError,
>)
    requires
        pos <= end <= b@.len(),
    ensures
        match r {
            Ok(a) => parse_appearance_body(b@, pos as int, end as int) == Ok::<
                AppearanceV,
                ParseError,
            >(AppearanceConfig::V1(a)@) && 1 <= a.color_schema@.len() <= MAX_PALETTE_LEN,
            Err(e) => parse_appearance_body(b@, pos as int, end as int) == Err::<
                AppearanceV,
                ParseError,
            >(e),
        },
{
    let (palette, p1) = match read_palette_field(b, pos, end, 1) {
        Some(x) => x,
        None => {
            return Err(ParseError::Malformed);
        },
    };
    let (bg, p2) = match read_rgb_field(b, p1, end, 2) {
        Some(x) => x,
        None => {
            return Err(ParseError::Malformed);
        },
    };
    let (vg, p3) = match read_bool_field(b, p2, end, 3) {
        Some(x) => x,
        None => {
            return Err(ParseError::Malformed);
        },
    };
    let (hg, p4) = match read_bool_field(b, p3, end, 4) {
        Some(x) => x,
        None => {
            return Err(ParseError::Malformed);
        },
    };
    let (glow, p5) = match read_bool_field(b, p4, end, 5) {
        Some(x) => x,
        None => {
            return Err(ParseError::Malformed);
        },
    };
    if p5 == end {
        Ok(AppearanceConfigV1 {
            color_schema: match palette {
                Some(v) => v,
                None => crate::config::original_color_schema(),
            },
            background_color: match bg {
                Some(v) => v,
                None => Rgb { r: 0, g: 0, b: 0 },
            },
            vertical_guidelines: match vg {
                Some(v) => v,
                None => crate::config::default_vertical_guidelines(),
            },
            horizontal_guidelines: match hg {
                Some(v) => v,
                None => crate::config::default_horizontal_guidelines(),
            },
            glow: match glow {
                Some(v) => v,
                None => crate::config::default_glow(),
            },
        })
    } else {
        let t = b[p5];
        if 1 <= t && t <= 5 {
            Err(ParseError::Malformed)
        } else {
            Err(ParseError::UnknownField)
        }
    }
}

// ---------------------------------------------------------------------------
// The document scan and `load`.
// ---------------------------------------------------------------------------

struct ScanRanges {
    waterfall: Option<(usize, usize)>,
    playback: Option<(usize, usize)>,
    history: Option<(usize, usize)>,
    synth: Option<(usize, usize)>,
    keyboard_layout: Option<(usize, usize)>,
    devices: Option<(usize, usize)>,
    appearance: Option<(usize, usize)>,
}

pub open spec fn rngv(o: Option<(usize, usize)>) -> Option<(int, int)> {
    match o {
        Some((s, e)) => Some((s as int, e as int)),
        None => None,
    }
}

pub open spec fn rng_ok(o: Option<(usize, usize)>, len: int) -> bool {
    o matches Some((s, e)) ==> s <= e <= len
}

fn read_section(b: &Vec<u8>, pos: usize, tag: u8) -> (r: Option<
    (Option<(usize, usize)>, usize),
>)
    requires
        pos <= b@.len(),
    ensures
        r is Some <==> try_section(b@, pos as int, tag) is Some,
        r matches Some((w, np)) ==> try_section(b@, pos as int, tag) == Some((
            rngv(w),
            np as int,
        )) && pos <= np <= b@.len() && rng_ok(w, b@.len() as int),
{
    let end = b.len();
    if pos < end && b[pos] == tag {
        match read_u32(b, pos + 1, end) {
            Some((n, np)) => if 1 <= n && (n as usize) <= end - np && b[np] == 1 {
                Some((Some((np + 1, np + n as usize)), np + n as usize))
            } else {
                None
            },
            None => None,
        }
    } else {
        Some((None, pos))
    }
}

fn scan(b: &Vec<u8>) -> (r: Result<ScanRanges, ParseError>)
    ensures
        match r {
            Ok(sc) => spec_scan(b@) == Ok::<SectionRanges, ParseError>(
                SectionRanges {
                    waterfall: rngv(sc.waterfall),
                    playback: rngv(sc.playback),
                    history: rngv(sc.history),
                    synth: rngv(sc.synth),
                    keyboard_layout: rngv(sc.keyboard_layout),
                    devices: rngv(sc.devices),
                    appearance: rngv(sc.appearance),
                },
            ) && rng_ok(sc.waterfall, b@.len() as int) && rng_ok(sc.playback, b@.len() as int)
                && rng_ok(sc.history, b@.len() as int) && rng_ok(sc.synth, b@.len() as int)
                && rng_ok(sc.keyboard_layout, b@.len() as int) && rng_ok(
                sc.devices,
                b@.len() as int,
            ) && rng_ok(sc.appearance, b@.len() as int),
            Err(e) => spec_scan(b@) == Err::<SectionRanges, ParseError>(e),
        },
{
    let (wf, p1) = match read_section(b, 0, 1) {
        Some(x) => x,
        None => {
            return Err(ParseError::Malformed);
        },
    };
    let (pb, p2) = match read_section(b, p1, 2) {
        Some(x) => x,
        None => {
            return Err(ParseError::Malformed);
        },
    };
    let (hi, p3) = match read_section(b, p2, 3) {
        Some(x) => x,
        None => {
            return Err(ParseError::Malformed);
        },
    };
    let (sy, p4) = match read_section(b, p3, 4) {
        Some(x) => x,
        None => {
            return Err(ParseError::Malformed);
        },
    };
    let (la, p5) = match read_section(b, p4, 5) {
        Some(x) => x,
        None => {
            return Err(ParseError::Malformed);
        },
    };
    let (de, p6) = match read_section(b, p5, 6) {
        Some(x) => x,
        None => {
            return Err(ParseError::Malformed);
        },
    };
    let (ap, p7) = match read_section(b, p6, 7) {
        Some(x) => x,
        None => {
            return Err(ParseError::Malformed);
        },
    };
    if p7 == b.len() {
        Ok(ScanRanges {
            waterfall: wf,
            playback: pb,
            history: hi,
            synth: sy,
            keyboard_layout: la,
            devices: de,
            appearance: ap,
        })
    } else {
        let t = b[p7];
        if 1 <= t && t <= 7 {
            Err(ParseError::Malformed)
        } else {
            Err(ParseError::UnknownField)
        }
    }
}

/// Parses a document. Exactly the documents accepted by the format load;
/// everything else fails with the error the format assigns.
#[verifier::rlimit(100)]
#[verifier::spinoff_prover]
pub fn load(bytes: &Vec<u8>) -> (r: Result<Model, ParseError>)
    ensures
        match r {
            Ok(m) => spec_load(bytes@) == Ok::<ModelV, ParseError>(m@) && valid_model(m@),
            Err(e) => spec_load(bytes@) == Err::<ModelV, ParseError>(e),
        },
{
    let sc = match scan(bytes) {
        Ok(sc) => sc,
        Err(e) => {
            return Err(e);
        },
    };
    let waterfall = match sc.waterfall {
        Some((s, e)) => match parse_waterfall(bytes, s, e) {
            Ok(w) => WaterfallConfig::V1(w),
            Err(e) => {
                return Err(e);
            },
        },
        None => WaterfallConfig::default(),
    };
    let playback = match sc.playback {
        Some((s, e)) => match parse_playback(bytes, s, e) {
            Ok(p) => PlaybackConfig::V1(p),
            Err(e) => {
                return Err(e);
            },
        },
        None => PlaybackConfig::default(),
    };
    let history = match sc.history {
        Some((s, e)) => match parse_history(bytes, s, e) {
            Ok(h) => History::V1(h),
            Err(e) => {
                return Err(e);
            },
        },
        None => History::default(),
    };
    let synth = match sc.synth {
        Some((s, e)) => match parse_synth(bytes, s, e) {
            Ok(sy) => SynthConfig::V1(sy),
            Err(e) => {
                return Err(e);
            },
        },
        None => SynthConfig::default(),
    };
    let keyboard_layout = match sc.keyboard_layout {
        Some((s, e)) => match parse_layout(bytes, s, e) {
            Ok(l) => LayoutConfig::V1(l),
            Err(e) => {
                return Err(e);
            },
        },
        None => LayoutConfig::default(),
    };
    let devices = match sc.devices {
        Some((s, e)) => match parse_devices(bytes, s, e) {
            Ok(d) => DevicesConfig::V1(d),
            Err(e) => {
                return Err(e);
            },
        },
        None => DevicesConfig::default(),
    };
    let appearance = match sc.appearance {
        Some((s, e)) => match parse_appearance(bytes, s, e) {
            Ok(a) => AppearanceConfig::V1(a),
            Err(e) => {
                return Err(e);
            },
        },
        None => AppearanceConfig::default(),
    };
    Ok(Model { waterfall, playback, history, synth, keyboard_layout, devices, appearance })
}

// ---------------------------------------------------------------------------
// Laws.
// ---------------------------------------------------------------------------

/// Pointwise view of a subrange equality.
proof fn lemma_sub_index(b: Seq<u8>, pos: int, end: int, e: Seq<u8>)
    requires
        0 <= pos <= end <= b.len(),
        b.subrange(pos, end) == e,
    ensures
        end - pos == e.len(),
        forall|i: int| pos <= i < end ==> b[i] == e[i - pos],
{
    assert forall|i: int| pos <= i < end implies b[i] == e[i - pos] by {
        assert(b.subrange(pos, end)[i - pos] == e[i - pos]);
    }
}

proof fn lemma_parse_waterfall_rt(b: Seq<u8>, pos: int, end: int, w: WaterfallV)
    requires
        0 <= pos <= end <= b.len(),
        b.subrange(pos, end) == enc_waterfall_fields(w),
    ensures
        parse_waterfall_body(b, pos, end) == Ok::<WaterfallV, ParseError>(w),
{
    let e = enc_waterfall_fields(w);
    lemma_sub_index(b, pos, end, e);
    lemma_u32_roundtrip(w.animation_speed);
    lemma_u32_roundtrip(i32_mag(w.animation_offset));
    assert(b[pos] == 1u8);
    assert(parse_u32(b, pos + 1, end) == Some((w.animation_speed, pos + 5)));
    assert(b[pos + 5] == 2u8);
    assert(parse_i32(b, pos + 6, end) == Some((w.animation_offset, pos + 11)));
    assert(b[pos + 11] == 3u8);
    assert(parse_bool(b, pos + 12, end) == Some((w.note_labels, pos + 13)));
}

proof fn lemma_parse_playback_rt(b: Seq<u8>, pos: int, end: int, p: PlaybackV)
    requires
        0 <= pos <= end <= b.len(),
        b.subrange(pos, end) == enc_playback_fields(p),
    ensures
        parse_playback_body(b, pos, end) == Ok::<PlaybackV, ParseError>(p),
{
    let e = enc_playback_fields(p);
    lemma_sub_index(b, pos, end, e);
    lemma_u32_roundtrip(p.speed_multiplier);
    assert(b[pos] == 1u8);
    assert(parse_u32(b, pos + 1, end) == Some((p.speed_multiplier, pos + 5)));
}

/// Round trip of one optional byte string, given its encoding in place.
proof fn lemma_parse_opt_bytes_rt(b: Seq<u8>, pos: int, end: int, o: Option<Seq<u8>>)
    requires
        0 <= pos,
        pos + enc_opt_bytes(o).len() <= end <= b.len(),
        b.subrange(pos, pos + enc_opt_bytes(o).len()) == enc_opt_bytes(o),
        o matches Some(s) ==> s.len() <= MAX_BYTES_LEN,
    ensures
        parse_opt_bytes(b, pos, end) == Some((o, pos + enc_opt_bytes(o).len())),
{
    let e = enc_opt_bytes(o);
    lemma_sub_index(b, pos, pos + e.len(), e);
    match o {
        None => {
            assert(b[pos] == 0u8);
        },
        Some(s) => {
            let n = s.len() as u32;
            lemma_u32_roundtrip(n);
            assert(b[pos] == 1u8);
            assert(parse_u32(b, pos + 1, end) == Some((n, pos + 5)));
            assert forall|j: int| 0 <= j < s.len() implies b[pos + 5 + j] == s[j] by {
                assert(b[pos + 5 + j] == e[(pos + 5 + j) - pos]);
                assert(e[5 + j] == s[j]);
            }
            assert(b.subrange(pos + 5, pos + 5 + s.len()) =~= s);
        },
    }
}

proof fn lemma_parse_history_rt(b: Seq<u8>, pos: int, end: int, h: HistoryV)
    requires
        0 <= pos <= end <= b.len(),
        b.subrange(pos, end) == enc_history_fields(h),
        h.last_opened_song matches Some(s) ==> s.len() <= MAX_BYTES_LEN,
    ensures
        parse_history_body(b, pos, end) == Ok::<HistoryV, ParseError>(h),
{
    let e = enc_history_fields(h);
    lemma_sub_index(b, pos, end, e);
    assert(b[pos] == 1u8);
    let oe = enc_opt_bytes(h.last_opened_song);
    assert(b.subrange(pos + 1, pos + 1 + oe.len()) =~= oe);
    lemma_parse_opt_bytes_rt(b, pos + 1, end, h.last_opened_song);
}

proof fn lemma_parse_synth_rt(b: Seq<u8>, pos: int, end: int, sy: SynthV)
    requires
        0 <= pos <= end <= b.len(),
        b.subrange(pos, end) == enc_synth_fields(sy),
        sy.soundfont_path matches Some(s) ==> s.len() <= MAX_BYTES_LEN,
    ensures
        parse_synth_body(b, pos, end) == Ok::<SynthV, ParseError>(sy),
{
    let e = enc_synth_fields(sy);
    lemma_sub_index(b, pos, end, e);
    lemma_u32_roundtrip(sy.audio_gain);
    assert(b[pos] == 1u8);
    let oe = enc_opt_bytes(sy.soundfont_path);
    assert(b.subrange(pos + 1, pos + 1 + oe.len()) =~= oe);
    lemma_parse_opt_bytes_rt(b, pos + 1, end, sy.soundfont_path);
    let p1 = pos + 1 + oe.len();
    assert(b[p1] == 2u8);
    assert(parse_u32(b, p1 + 1, end) == Some((sy.audio_gain, p1 + 5)));
}

proof fn lemma_parse_layout_rt(b: Seq<u8>, pos: int, end: int, l: LayoutV)
    requires
        0 <= pos <= end <= b.len(),
        b.subrange(pos, end) == enc_layout_fields(l),
    ensures
        parse_layout_body(b, pos, end) == Ok::<LayoutV, ParseError>(l),
{
    let e = enc_layout_fields(l);
    lemma_sub_index(b, pos, end, e);
    assert(b[pos] == 1u8);
    assert(parse_range(b, pos + 1, end) == Some((l.range, pos + 3)));
}

#[verifier::rlimit(100)]
proof fn lemma_parse_devices_rt(b: Seq<u8>, pos: int, end: int, d: DevicesV)
    requires
        0 <= pos <= end <= b.len(),
        b.subrange(pos, end) == enc_devices_fields(d),
        d.output matches Some(s) ==> s.len() <= MAX_BYTES_LEN,
        d.input matches Some(s) ==> s.len() <= MAX_BYTES_LEN,
    ensures
        parse_devices_body(b, pos, end) == Ok::<DevicesV, ParseError>(d),
{
    let e = enc_devices_fields(d);
    lemma_sub_index(b, pos, end, e);
    assert(b[pos] == 1u8);
    let oe1 = enc_opt_bytes(d.output);
    assert(b.subrange(pos + 1, pos + 1 + oe1.len()) =~= oe1);
    lemma_parse_opt_bytes_rt(b, pos + 1, end, d.output);
    let p1 = pos + 1 + oe1.len();
    assert(b[p1] == 2u8);
    let oe2 = enc_opt_bytes(d.input);
    assert(b.subrange(p1 + 1, p1 + 1 + oe2.len()) =~= oe2);
    lemma_parse_opt_bytes_rt(b, p1 + 1, end, d.input);
    let p2 = p1 + 1 + oe2.len();
    assert(b[p2] == 3u8);
    assert(parse_bool(b, p2 + 1, end) == Some((d.separate_channels, p2 + 2)));
}

proof fn lemma_parse_palette_rt(b: Seq<u8>, pos: int, end: int, p: Seq<ColorSchemaV1>)
    requires
        0 <= pos,
        pos + enc_palette(p).len() <= end <= b.len(),
        b.subrange(pos, pos + enc_palette(p).len()) == enc_palette(p),
        1 <= p.len() <= MAX_PALETTE_LEN,
    ensures
        parse_palette(b, pos, end) == Some((p, pos + enc_palette(p).len())),
{
    let e = enc_palette(p);
    let n = p.len() as u32;
    lemma_sub_index(b, pos, pos + e.len(), e);
    lemma_u32_roundtrip(n);
    assert(parse_u32(b, pos, end) == Some((n, pos + 4)));
    let q = pos + 4;
    let flat = Seq::new(6 * p.len(), |k: int| pair_byte(p[k / 6], k % 6));
    assert forall|i: int| 0 <= i < p.len() implies pair_at(b, q + 6 * i) == p[i] by {
        assert forall|j: int| 0 <= j < 6 implies b[q + 6 * i + j] == pair_byte(p[i], j) by {
            lemma_div6(i, j);
            assert(b[q + 6 * i + j] == e[(q + 6 * i + j) - pos]);
            assert(e[4 + 6 * i + j] == flat[6 * i + j]);
            assert(flat[6 * i + j] == pair_byte(p[i], j));
        }
        assert(b[q + 6 * i] == pair_byte(p[i], 0));
        assert(b[q + 6 * i + 1] == pair_byte(p[i], 1));
        assert(b[q + 6 * i + 2] == pair_byte(p[i], 2));
        assert(b[q + 6 * i + 3] == pair_byte(p[i], 3));
        assert(b[q + 6 * i + 4] == pair_byte(p[i], 4));
        assert(b[q + 6 * i + 5] == pair_byte(p[i], 5));
    }
    assert(Seq::new(n as nat, |i: int| pair_at(b, q + 6 * i)) =~= p);
}

#[verifier::rlimit(100)]
proof fn lemma_parse_appearance_rt(b: Seq<u8>, pos: int, end: int, a: AppearanceV)
    requires
        0 <= pos <= end <= b.len(),
        b.subrange(pos, end) == enc_appearance_fields(a),
        1 <= a.color_schema.len() <= MAX_PALETTE_LEN,
    ensures
        parse_appearance_body(b, pos, end) == Ok::<AppearanceV, ParseError>(a),
{
    let e = enc_appearance_fields(a);
    lemma_sub_index(b, pos, end, e);
    assert(b[pos] == 1u8);
    let pe = enc_palette(a.color_schema);
    assert(b.subrange(pos + 1, pos + 1 + pe.len()) =~= pe);
    lemma_parse_palette_rt(b, pos + 1, end, a.color_schema);
    let p1 = pos + 1 + pe.len();
    assert(b[p1] == 2u8);
    assert(parse_rgb(b, p1 + 1, end) == Some((a.background_color, p1 + 4)));
    let p2 = p1 + 4;
    assert(b[p2] == 3u8);
    assert(parse_bool(b, p2 + 1, end) == Some((a.vertical_guidelines, p2 + 2)));
    let p3 = p2 + 2;
    assert(b[p3] == 4u8);
    assert(parse_bool(b, p3 + 1, end) == Some((a.horizontal_guidelines, p3 + 2)));
    let p4 = p3 + 2;
    assert(b[p4] == 5u8);
    assert(parse_bool(b, p4 + 1, end) == Some((a.glow, p4 + 2)));
}

/// One scan step over a section chunk standing at `pos`.
proof fn lemma_try_section_step(b: Seq<u8>, pos: int, tag: u8, fields: Seq<u8>)
    requires
        0 <= pos,
        pos + wrap_section(tag, fields).len() <= b.len(),
        b.subrange(pos, pos + wrap_section(tag, fields).len()) == wrap_section(tag, fields),
        fields.len() + 1 <= u32::MAX,
    ensures
        try_section(b, pos, tag) == Some((
            Some((pos + 6, pos + 6 + fields.len())),
            pos + 6 + fields.len(),
        )),
        b.subrange(pos + 6, pos + 6 + fields.len() as int) == fields,
{
    let w = wrap_section(tag, fields);
    lemma_sub_index(b, pos, pos + w.len(), w);
    let n = (fields.len() + 1) as u32;
    lemma_u32_roundtrip(n);
    assert(b[pos] == tag);
    assert(parse_u32(b, pos + 1, b.len() as int) == Some((n, pos + 5)));
    assert(b[pos + 5] == 1u8);
    assert forall|j: int| 0 <= j < fields.len() implies b[pos + 6 + j] == fields[j] by {
        assert(b[pos + 6 + j] == w[(pos + 6 + j) - pos]);
        assert(w[6 + j] == fields[j]);
    }
    assert(b.subrange(pos + 6, pos + 6 + fields.len() as int) =~= fields);
}

pub open spec fn chunk(m: ModelV, k: int) -> Seq<u8> {
    if k == 1 {
        wrap_section(1, enc_waterfall_fields(m.waterfall))
    } else if k == 2 {
        wrap_section(2, enc_playback_fields(m.playback))
    } else if k == 3 {
        wrap_section(3, enc_history_fields(m.history))
    } else if k == 4 {
        wrap_section(4, enc_synth_fields(m.synth))
    } else if k == 5 {
        wrap_section(5, enc_layout_fields(m.keyboard_layout))
    } else if k == 6 {
        wrap_section(6, enc_devices_fields(m.devices))
    } else {
        wrap_section(7, enc_appearance_fields(m.appearance))
    }
}

/// Where chunk `k` ends inside the saved document.
pub open spec fn chunk_end(m: ModelV, k: int) -> int
    decreases k,
{
    if k <= 0 {
        0
    } else {
        chunk_end(m, k - 1) + chunk(m, k).len()
    }
}

proof fn lemma_save_is_chunks(m: ModelV)
    ensures
        spec_save(m) == chunk(m, 1) + chunk(m, 2) + chunk(m, 3) + chunk(m, 4) + chunk(m, 5)
            + chunk(m, 6) + chunk(m, 7),
        spec_save(m).len() == chunk_end(m, 7),
        chunk_end(m, 0) == 0,
        chunk_end(m, 1) == chunk(m, 1).len(),
        chunk_end(m, 2) == chunk_end(m, 1) + chunk(m, 2).len(),
        chunk_end(m, 3) == chunk_end(m, 2) + chunk(m, 3).len(),
        chunk_end(m, 4) == chunk_end(m, 3) + chunk(m, 4).len(),
        chunk_end(m, 5) == chunk_end(m, 4) + chunk(m, 5).len(),
        chunk_end(m, 6) == chunk_end(m, 5) + chunk(m, 6).len(),
        chunk_end(m, 7) == chunk_end(m, 6) + chunk(m, 7).len(),
{
    assert(chunk_end(m, 0) == 0);
    assert(chunk_end(m, 1) == chunk(m, 1).len());
    assert(chunk_end(m, 2) == chunk_end(m, 1) + chunk(m, 2).len());
    assert(chunk_end(m, 3) == chunk_end(m, 2) + chunk(m, 3).len());
    assert(chunk_end(m, 4) == chunk_end(m, 3) + chunk(m, 4).len());
    assert(chunk_end(m, 5) == chunk_end(m, 4) + chunk(m, 5).len());
    assert(chunk_end(m, 6) == chunk_end(m, 5) + chunk(m, 6).len());
    assert(chunk_end(m, 7) == chunk_end(m, 6) + chunk(m, 7).len());
}

#[verifier::rlimit(100)]
#[verifier::spinoff_prover]
proof fn lemma_chunk_sub(m: ModelV, k: int)
    requires
        1 <= k <= 7,
    ensures
        0 <= chunk_end(m, k - 1),
        chunk_end(m, k) == chunk_end(m, k - 1) + chunk(m, k).len(),
        chunk_end(m, k) <= spec_save(m).len(),
        spec_save(m).subrange(chunk_end(m, k - 1), chunk_end(m, k)) == chunk(m, k),
{
    lemma_save_is_chunks(m);
    if k == 1 {
        assert(spec_save(m).subrange(chunk_end(m, 0), chunk_end(m, 1)) =~= chunk(m, 1));
    } else if k == 2 {
        assert(spec_save(m).subrange(chunk_end(m, 1), chunk_end(m, 2)) =~= chunk(m, 2));
    } else if k == 3 {
        assert(spec_save(m).subrange(chunk_end(m, 2), chunk_end(m, 3)) =~= chunk(m, 3));
    } else if k == 4 {
        assert(spec_save(m).subrange(chunk_end(m, 3), chunk_end(m, 4)) =~= chunk(m, 4));
    } else if k == 5 {
        assert(spec_save(m).subrange(chunk_end(m, 4), chunk_end(m, 5)) =~= chunk(m, 5));
    } else if k == 6 {
        assert(spec_save(m).subrange(chunk_end(m, 5), chunk_end(m, 6)) =~= chunk(m, 6));
    } else {
        assert(spec_save(m).subrange(chunk_end(m, 6), chunk_end(m, 7)) =~= chunk(m, 7));
    }
}

/// A saved document standing as a prefix of `b`: chunk `k` occupies its
/// window of `b`.
proof fn lemma_chunk_sub_prefix(m: ModelV, b: Seq<u8>, k: int)
    requires
        1 <= k <= 7,
        spec_save(m).len() <= b.len(),
        b.subrange(0, spec_save(m).len() as int) == spec_save(m),
    ensures
        0 <= chunk_end(m, k - 1),
        chunk_end(m, k) == chunk_end(m, k - 1) + chunk(m, k).len(),
        chunk_end(m, k) <= spec_save(m).len(),
        b.subrange(chunk_end(m, k - 1), chunk_end(m, k)) == chunk(m, k),
{
    lemma_save_is_chunks(m);
    lemma_chunk_sub(m, k);
    lemma_sub_index(b, 0, spec_save(m).len() as int, spec_save(m));
    assert(b.subrange(chunk_end(m, k - 1), chunk_end(m, k)) =~= spec_save(m).subrange(
        chunk_end(m, k - 1),
        chunk_end(m, k),
    ));
}

#[verifier::rlimit(100)]
#[verifier::spinoff_prover]
proof fn lemma_sec_waterfall(m: ModelV, b: Seq<u8>)
    requires
        valid_model(m),
        spec_save(m).len() <= b.len(),
        b.subrange(0, spec_save(m).len() as int) == spec_save(m),
    ensures
        try_section(b, chunk_end(m, 0), 1) == Some((
            Some((chunk_end(m, 0) + 6, chunk_end(m, 1))),
            chunk_end(m, 1),
        )),
        parse_waterfall_body(b, chunk_end(m, 0) + 6, chunk_end(m, 1)) == Ok::<
            WaterfallV,
            ParseError,
        >(m.waterfall),
{
    let f = enc_waterfall_fields(m.waterfall);
    lemma_chunk_sub_prefix(m, b, 1);
    lemma_try_section_step(b, chunk_end(m, 0), 1, f);
    lemma_parse_waterfall_rt(b, chunk_end(m, 0) + 6, chunk_end(m, 1), m.waterfall);
}

#[verifier::rlimit(100)]
#[verifier::spinoff_prover]
proof fn lemma_sec_playback(m: ModelV, b: Seq<u8>)
    requires
        valid_model(m),
        spec_save(m).len() <= b.len(),
        b.subrange(0, spec_save(m).len() as int) == spec_save(m),
    ensures
        try_section(b, chunk_end(m, 1), 2) == Some((
            Some((chunk_end(m, 1) + 6, chunk_end(m, 2))),
            chunk_end(m, 2),
        )),
        parse_playback_body(b, chunk_end(m, 1) + 6, chunk_end(m, 2)) == Ok::<
            PlaybackV,
            ParseError,
        >(m.playback),
{
    let f = enc_playback_fields(m.playback);
    lemma_chunk_sub_prefix(m, b, 2);
    lemma_try_section_step(b, chunk_end(m, 1), 2, f);
    lemma_parse_playback_rt(b, chunk_end(m, 1) + 6, chunk_end(m, 2), m.playback);
}

#[verifier::rlimit(100)]
#[verifier::spinoff_prover]
proof fn lemma_sec_history(m: ModelV, b: Seq<u8>)
    requires
        valid_model(m),
        spec_save(m).len() <= b.len(),
        b.subrange(0, spec_save(m).len() as int) == spec_save(m),
    ensures
        try_section(b, chunk_end(m, 2), 3) == Some((
            Some((chunk_end(m, 2) + 6, chunk_end(m, 3))),
            chunk_end(m, 3),
        )),
        parse_history_body(b, chunk_end(m, 2) + 6, chunk_end(m, 3)) == Ok::<
            HistoryV,
            ParseError,
        >(m.history),
{
    let f = enc_history_fields(m.history);
    lemma_chunk_sub_prefix(m, b, 3);
    lemma_try_section_step(b, chunk_end(m, 2), 3, f);
    lemma_parse_history_rt(b, chunk_end(m, 2) + 6, chunk_end(m, 3), m.history);
}

#[verifier::rlimit(100)]
#[verifier::spinoff_prover]
proof fn lemma_sec_synth(m: ModelV, b: Seq<u8>)
    requires
        valid_model(m),
        spec_save(m).len() <= b.len(),
        b.subrange(0, spec_save(m).len() as int) == spec_save(m),
    ensures
        try_section(b, chunk_end(m, 3), 4) == Some((
            Some((chunk_end(m, 3) + 6, chunk_end(m, 4))),
            chunk_end(m, 4),
        )),
        parse_synth_body(b, chunk_end(m, 3) + 6, chunk_end(m, 4)) == Ok::<SynthV, ParseError>(
            m.synth,
        ),
{
    let f = enc_synth_fields(m.synth);
    lemma_chunk_sub_prefix(m, b, 4);
    lemma_try_section_step(b, chunk_end(m, 3), 4, f);
    lemma_parse_synth_rt(b, chunk_end(m, 3) + 6, chunk_end(m, 4), m.synth);
}

#[verifier::rlimit(100)]
#[verifier::spinoff_prover]
proof fn lemma_sec_layout(m: ModelV, b: Seq<u8>)
    requires
        valid_model(m),
        spec_save(m).len() <= b.len(),
        b.subrange(0, spec_save(m).len() as int) == spec_save(m),
    ensures
        try_section(b, chunk_end(m, 4), 5) == Some((
            Some((chunk_end(m, 4) + 6, chunk_end(m, 5))),
            chunk_end(m, 5),
        )),
        parse_layout_body(b, chunk_end(m, 4) + 6, chunk_end(m, 5)) == Ok::<LayoutV, ParseError>(
            m.keyboard_layout,
        ),
{
    let f = enc_layout_fields(m.keyboard_layout);
    lemma_chunk_sub_prefix(m, b, 5);
    lemma_try_section_step(b, chunk_end(m, 4), 5, f);
    lemma_parse_layout_rt(b, chunk_end(m, 4) + 6, chunk_end(m, 5), m.keyboard_layout);
}

#[verifier::rlimit(100)]
#[verifier::spinoff_prover]
proof fn lemma_sec_devices(m: ModelV, b: Seq<u8>)
    requires
        valid_model(m),
        spec_save(m).len() <= b.len(),
        b.subrange(0, spec_save(m).len() as int) == spec_save(m),
    ensures
        try_section(b, chunk_end(m, 5), 6) == Some((
            Some((chunk_end(m, 5) + 6, chunk_end(m, 6))),
            chunk_end(m, 6),
        )),
        parse_devices_body(b, chunk_end(m, 5) + 6, chunk_end(m, 6)) == Ok::<
            DevicesV,
            ParseError,
        >(m.devices),
{
    let f = enc_devices_fields(m.devices);
    lemma_chunk_sub_prefix(m, b, 6);
    lemma_try_section_step(b, chunk_end(m, 5), 6, f);
    lemma_parse_devices_rt(b, chunk_end(m, 5) + 6, chunk_end(m, 6), m.devices);
}

#[verifier::rlimit(100)]
#[verifier::spinoff_prover]
proof fn lemma_sec_appearance(m: ModelV, b: Seq<u8>)
    requires
        valid_model(m),
        spec_save(m).len() <= b.len(),
        b.subrange(0, spec_save(m).len() as int) == spec_save(m),
    ensures
        try_section(b, chunk_end(m, 6), 7) == Some((
            Some((chunk_end(m, 6) + 6, chunk_end(m, 7))),
            chunk_end(m, 7),
        )),
        parse_appearance_body(b, chunk_end(m, 6) + 6, chunk_end(m, 7)) == Ok::<
            AppearanceV,
            ParseError,
        >(m.appearance),
        chunk_end(m, 7) == spec_save(m).len(),
{
    let f = enc_appearance_fields(m.appearance);
    lemma_save_is_chunks(m);
    lemma_chunk_sub_prefix(m, b, 7);
    lemma_try_section_step(b, chunk_end(m, 6), 7, f);
    lemma_parse_appearance_rt(b, chunk_end(m, 6) + 6, chunk_end(m, 7), m.appearance);
}

/// Round trip: loading a saved document yields it back, for every document
/// the format can carry.
#[verifier::rlimit(100)]
#[verifier::spinoff_prover]
pub proof fn lemma_save_load_roundtrip(m: ModelV)
    requires
        valid_model(m),
    ensures
        spec_load(spec_save(m)) == Ok::<ModelV, ParseError>(m),
{
    let b = spec_save(m);
    assert(b.subrange(0, b.len() as int) =~= b);
    lemma_sec_waterfall(m, b);
    lemma_sec_playback(m, b);
    lemma_sec_history(m, b);
    lemma_sec_synth(m, b);
    lemma_sec_layout(m, b);
    lemma_sec_devices(m, b);
    lemma_sec_appearance(m, b);
}

/// Defaulting: the empty document (every section, hence every field, absent)
/// loads as the all-default document.
pub proof fn lemma_load_empty()
    ensures
        spec_load(Seq::<u8>::empty()) == Ok::<ModelV, ParseError>(spec_default_model()),
{
}

/// Strictness: a saved document with a trailing unrecognized section tag
/// fails with `UnknownField`.
#[verifier::rlimit(100)]
#[verifier::spinoff_prover]
pub proof fn lemma_unknown_section_tag(m: ModelV, t: u8)
    requires
        valid_model(m),
        t == 0 || t > 7,
    ensures
        spec_load(spec_save(m) + seq![t]) == Err::<ModelV, ParseError>(
            ParseError::UnknownField,
        ),
{
    let b0 = spec_save(m);
    let b = b0 + seq![t];
    assert(b.subrange(0, b0.len() as int) =~= b0);
    lemma_sec_waterfall(m, b);
    lemma_sec_playback(m, b);
    lemma_sec_history(m, b);
    lemma_sec_synth(m, b);
    lemma_sec_layout(m, b);
    lemma_sec_devices(m, b);
    lemma_sec_appearance(m, b);
    assert(b[chunk_end(m, 7)] == t);
}

} // verus!

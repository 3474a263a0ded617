//! The configuration model: a root document of seven independently versioned
//! sections, the documented default for every field, and the theme resolver
//! that picks the default color palette.
//!
//! Fractional quantities (animation speed, speed multiplier, audio gain) are
//! stored in fixed-point thousandths. Paths and device names are raw byte
//! strings, their text encoding being the host's concern.

use vstd::prelude::*;

verus! {

/// Upper bound on the length of a byte-string field accepted by the codec.
pub const MAX_BYTES_LEN: u32 = 16_000_000;

/// Upper bound on the number of palette entries accepted by the codec.
pub const MAX_PALETTE_LEN: u32 = 16_000_000;

// ---------------------------------------------------------------------------
// Sections, each a tagged variant over its schema version.
// ---------------------------------------------------------------------------

#[derive(Debug, Clone, PartialEq, Eq)]
pub struct WaterfallConfigV1 {
    /// Fall speed, thousandths of a unit per second.
    pub animation_speed: u32,
    /// Vertical offset, thousandths of a unit; may be negative.
    pub animation_offset: i32,
    pub note_labels: bool,
}

#[derive(Debug, Clone, PartialEq, Eq)]
pub enum WaterfallConfig {
    V1(WaterfallConfigV1),
}

#[derive(Debug, Clone, PartialEq, Eq)]
pub struct PlaybackConfigV1 {
    /// Playback speed, thousandths (1000 = real time).
    pub speed_multiplier: u32,
}

#[derive(Debug, Clone, PartialEq, Eq)]
pub enum PlaybackConfig {
    V1(PlaybackConfigV1),
}

#[derive(Debug, Clone, PartialEq, Eq)]
pub struct HistoryV1 {
    /// Path of the last opened song, as raw bytes.
    pub last_opened_song: Option<Vec<u8>>,
}

#[derive(Debug, Clone, PartialEq, Eq)]
pub enum History {
    V1(HistoryV1),
}

#[derive(Debug, Clone, PartialEq, Eq)]
pub struct SynthConfigV1 {
    /// Soundfont path, as raw bytes.
    pub soundfont_path: Option<Vec<u8>>,
    /// Gain, thousandths (200 = 0.2).
    pub audio_gain: u32,
}

#[derive(Debug, Clone, PartialEq, Eq)]
pub enum SynthConfig {
    V1(SynthConfigV1),
}

#[derive(Debug, Clone, PartialEq, Eq)]
pub struct LayoutConfigV1 {
    pub range: KeyRange,
}

#[derive(Debug, Clone, PartialEq, Eq)]
pub enum LayoutConfig {
    V1(LayoutConfigV1),
}

#[derive(Debug, Clone, PartialEq, Eq)]
pub struct DevicesConfigV1 {
    /// Audio output device name, as raw bytes.
    pub output: Option<Vec<u8>>,
    /// MIDI input device name, as raw bytes.
    pub input: Option<Vec<u8>>,
    pub separate_channels: bool,
}

#[derive(Debug, Clone, PartialEq, Eq)]
pub enum DevicesConfig {
    V1(DevicesConfigV1),
}

/// An RGB color, one byte per channel.
#[derive(Debug, Clone, Copy, PartialEq, Eq, Structural)]
pub struct Rgb {
    pub r: u8,
    pub g: u8,
    pub b: u8,
}

/// Inclusive MIDI note bounds of the keyboard.
#[derive(Debug, Clone, Copy, PartialEq, Eq, Structural)]
pub struct KeyRange {
    pub low: u8,
    pub high: u8,
}

/// One palette entry: a base color and its darker companion.
#[derive(Debug, Clone, Copy, PartialEq, Eq, Structural)]
pub struct ColorSchemaV1 {
    pub base: Rgb,
    pub dark: Rgb,
}

#[derive(Debug, Clone, PartialEq, Eq)]
pub struct AppearanceConfigV1 {
    /// Non-empty cyclic palette: key `i` uses entry `i mod len`.
    pub color_schema: Vec<ColorSchemaV1>,
    pub background_color: Rgb,
    pub vertical_guidelines: bool,
    pub horizontal_guidelines: bool,
    pub glow: bool,
}

impl AppearanceConfigV1 {
    /// The palette entry for key `i`: the palette is cyclic across the
    /// keyboard range.
    pub fn palette_entry(&self, i: usize) -> (r: ColorSchemaV1)
        requires
            self.color_schema@.len() >= 1,
        ensures
            r == self.color_schema@[i as int % self.color_schema@.len() as int],
    {
        let n = self.color_schema.len();
        self.color_schema[i % n]
    }
}

#[derive(Debug, Clone, PartialEq, Eq)]
pub enum AppearanceConfig {
    V1(AppearanceConfigV1),
}

/// The root document: one instance of each section.
#[derive(Debug, Clone, PartialEq, Eq)]
pub struct Model {
    pub waterfall: WaterfallConfig,
    pub playback: PlaybackConfig,
    pub history: History,
    pub synth: SynthConfig,
    pub keyboard_layout: LayoutConfig,
    pub devices: DevicesConfig,
    pub appearance: AppearanceConfig,
}

// ---------------------------------------------------------------------------
// Mathematical views. Each section currently has a single variant, so the
// view flattens the version wrapper; a future variant would widen the view.
// ---------------------------------------------------------------------------

pub ghost struct WaterfallV {
    pub animation_speed: u32,
    pub animation_offset: i32,
    pub note_labels: bool,
}

pub ghost struct PlaybackV {
    pub speed_multiplier: u32,
}

pub ghost struct HistoryV {
    pub last_opened_song: Option<Seq<u8>>,
}

pub ghost struct SynthV {
    pub soundfont_path: Option<Seq<u8>>,
    pub audio_gain: u32,
}

pub ghost struct LayoutV {
    pub range: KeyRange,
}

pub ghost struct DevicesV {
    pub output: Option<Seq<u8>>,
    pub input: Option<Seq<u8>>,
    pub separate_channels: bool,
}

pub ghost struct AppearanceV {
    pub color_schema: Seq<ColorSchemaV1>,
    pub background_color: Rgb,
    pub vertical_guidelines: bool,
    pub horizontal_guidelines: bool,
    pub glow: bool,
}

pub ghost struct ModelV {
    pub waterfall: WaterfallV,
    pub playback: PlaybackV,
    pub history: HistoryV,
    pub synth: SynthV,
    pub keyboard_layout: LayoutV,
    pub devices: DevicesV,
    pub appearance: AppearanceV,
}

pub open spec fn opt_bytes_view(o: &Option<Vec<u8>>) -> Option<Seq<u8>> {
    match o {
        Some(v) => Some(v@),
        None => None,
    }
}

impl View for WaterfallConfig {
    type V = WaterfallV;

    open spec fn view(&self) -> WaterfallV {
        match self {
            WaterfallConfig::V1(w) => WaterfallV {
                animation_speed: w.animation_speed,
                animation_offset: w.animation_offset,
                note_labels: w.note_labels,
            },
        }
    }
}

impl View for PlaybackConfig {
    type V = PlaybackV;

    open spec fn view(&self) -> PlaybackV {
        match self {
            PlaybackConfig::V1(p) => PlaybackV { speed_multiplier: p.speed_multiplier },
        }
    }
}

impl View for History {
    type V = HistoryV;

    open spec fn view(&self) -> HistoryV {
        match self {
            History::V1(h) => HistoryV { last_opened_song: opt_bytes_view(&h.last_opened_song) },
        }
    }
}

impl View for SynthConfig {
    type V = SynthV;

    open spec fn view(&self) -> SynthV {
        match self {
            SynthConfig::V1(s) => SynthV {
                soundfont_path: opt_bytes_view(&s.soundfont_path),
                audio_gain: s.audio_gain,
            },
        }
    }
}

impl View for LayoutConfig {
    type V = LayoutV;

    open spec fn view(&self) -> LayoutV {
        match self {
            LayoutConfig::V1(l) => LayoutV { range: l.range },
        }
    }
}

impl View for DevicesConfig {
    type V = DevicesV;

    open spec fn view(&self) -> DevicesV {
        match self {
            DevicesConfig::V1(d) => DevicesV {
                output: opt_bytes_view(&d.output),
                input: opt_bytes_view(&d.input),
                separate_channels: d.separate_channels,
            },
        }
    }
}

impl View for AppearanceConfig {
    type V = AppearanceV;

    open spec fn view(&self) -> AppearanceV {
        match self {
            AppearanceConfig::V1(a) => AppearanceV {
                color_schema: a.color_schema@,
                background_color: a.background_color,
                vertical_guidelines: a.vertical_guidelines,
                horizontal_guidelines: a.horizontal_guidelines,
                glow: a.glow,
            },
        }
    }
}

impl View for Model {
    type V = ModelV;

    open spec fn view(&self) -> ModelV {
        ModelV {
            waterfall: self.waterfall@,
            playback: self.playback@,
            history: self.history@,
            synth: self.synth@,
            keyboard_layout: self.keyboard_layout@,
            devices: self.devices@,
            appearance: self.appearance@,
        }
    }
}

// ---------------------------------------------------------------------------
// Validity: what the byte format can carry.
// ---------------------------------------------------------------------------

pub open spec fn valid_opt_bytes(o: Option<Seq<u8>>) -> bool {
    o matches Some(s) ==> s.len() <= MAX_BYTES_LEN
}

/// A document the codec can save and reload: byte strings within the format's
/// length bound, and a non-empty, bounded palette.
pub open spec fn valid_model(m: ModelV) -> bool {
    &&& valid_opt_bytes(m.history.last_opened_song)
    &&& valid_opt_bytes(m.synth.soundfont_path)
    &&& valid_opt_bytes(m.devices.output)
    &&& valid_opt_bytes(m.devices.input)
    &&& 1 <= m.appearance.color_schema.len() <= MAX_PALETTE_LEN
}

// ---------------------------------------------------------------------------
// Documented defaults.
// ---------------------------------------------------------------------------

pub fn default_piano_range() -> (r: KeyRange)
    ensures
        r == (KeyRange { low: 21u8, high: 108u8 }),
{
    KeyRange { low: 21, high: 108 }
}

pub fn default_speed_multiplier() -> (r: u32)
    ensures
        r == 1000u32,
{
    1000
}

pub fn default_animation_speed() -> (r: u32)
    ensures
        r == 400_000u32,
{
    400_000
}

pub fn default_animation_offset() -> (r: i32)
    ensures
        r == 0i32,
{
    0
}

pub fn default_note_labels() -> (r: bool)
    ensures
        r == false,
{
    false
}

pub fn default_audio_gain() -> (r: u32)
    ensures
        r == 200u32,
{
    200
}

pub fn default_vertical_guidelines() -> (r: bool)
    ensures
        r == false,
{
    false
}

pub fn default_horizontal_guidelines() -> (r: bool)
    ensures
        r == false,
{
    false
}

pub fn default_glow() -> (r: bool)
    ensures
        r == true,
{
    true
}

pub fn default_separate_channels() -> (r: bool)
    ensures
        r == false,
{
    false
}

/// The bytes of the built-in synthesizer's device name.
pub open spec fn spec_default_output_bytes() -> Seq<u8> {
    seq![66u8, 117u8, 105u8, 108u8, 100u8, 105u8, 110u8, 32u8, 83u8, 121u8, 110u8, 116u8, 104u8]
}

pub fn default_output() -> (r: Option<Vec<u8>>)
    ensures
        opt_bytes_view(&r) == Some(spec_default_output_bytes()),
{
    let mut v: Vec<u8> = Vec::new();
    v.push(66);
    v.push(117);
    v.push(105);
    v.push(108);
    v.push(100);
    v.push(105);
    v.push(110);
    v.push(32);
    v.push(83);
    v.push(121);
    v.push(110);
    v.push(116);
    v.push(104);
    proof {
        assert(v@ =~= spec_default_output_bytes());
    }
    Some(v)
}

pub open spec fn spec_default_waterfall() -> WaterfallV {
    WaterfallV { animation_speed: 400_000, animation_offset: 0, note_labels: false }
}

pub open spec fn spec_default_playback() -> PlaybackV {
    PlaybackV { speed_multiplier: 1000 }
}

pub open spec fn spec_default_history() -> HistoryV {
    HistoryV { last_opened_song: None }
}

pub open spec fn spec_default_synth() -> SynthV {
    SynthV { soundfont_path: None, audio_gain: 200 }
}

pub open spec fn spec_default_layout() -> LayoutV {
    LayoutV { range: (KeyRange { low: 21u8, high: 108u8 }) }
}

pub open spec fn spec_default_devices() -> DevicesV {
    DevicesV {
        output: Some(spec_default_output_bytes()),
        input: None,
        separate_channels: false,
    }
}

pub open spec fn spec_default_appearance() -> AppearanceV {
    AppearanceV {
        color_schema: spec_original_palette(),
        background_color: (Rgb { r: 0u8, g: 0u8, b: 0u8 }),
        vertical_guidelines: false,
        horizontal_guidelines: false,
        glow: true,
    }
}

pub open spec fn spec_default_model() -> ModelV {
    ModelV {
        waterfall: spec_default_waterfall(),
        playback: spec_default_playback(),
        history: spec_default_history(),
        synth: spec_default_synth(),
        keyboard_layout: spec_default_layout(),
        devices: spec_default_devices(),
        appearance: spec_default_appearance(),
    }
}

impl Default for WaterfallConfig {
    fn default() -> (r: Self)
        ensures
            r@ == spec_default_waterfall(),
    {
        WaterfallConfig::V1(WaterfallConfigV1 {
            animation_speed: default_animation_speed(),
            animation_offset: default_animation_offset(),
            note_labels: default_note_labels(),
        })
    }
}

impl Default for PlaybackConfig {
    fn default() -> (r: Self)
        ensures
            r@ == spec_default_playback(),
    {
        PlaybackConfig::V1(PlaybackConfigV1 { speed_multiplier: default_speed_multiplier() })
    }
}

impl Default for History {
    fn default() -> (r: Self)
        ensures
            r@ == spec_default_history(),
    {
        History::V1(HistoryV1 { last_opened_song: None })
    }
}

impl Default for SynthConfig {
    fn default() -> (r: Self)
        ensures
            r@ == spec_default_synth(),
    {
        SynthConfig::V1(SynthConfigV1 { soundfont_path: None, audio_gain: default_audio_gain() })
    }
}

impl Default for LayoutConfig {
    fn default() -> (r: Self)
        ensures
            r@ == spec_default_layout(),
    {
        LayoutConfig::V1(LayoutConfigV1 { range: default_piano_range() })
    }
}

impl Default for DevicesConfig {
    fn default() -> (r: Self)
        ensures
            r@ == spec_default_devices(),
    {
        DevicesConfig::V1(DevicesConfigV1 {
            output: default_output(),
            input: None,
            separate_channels: default_separate_channels(),
        })
    }
}

impl Default for AppearanceConfig {
    fn default() -> (r: Self)
        ensures
            r@ == spec_default_appearance(),
    {
        AppearanceConfig::V1(AppearanceConfigV1 {
            color_schema: original_color_schema(),
            background_color: Rgb { r: 0, g: 0, b: 0 },
            vertical_guidelines: default_vertical_guidelines(),
            horizontal_guidelines: default_horizontal_guidelines(),
            glow: default_glow(),
        })
    }
}

impl Default for Model {
    fn default() -> (r: Self)
        ensures
            r@ == spec_default_model(),
            valid_model(r@),
    {
        Model {
            waterfall: WaterfallConfig::default(),
            playback: PlaybackConfig::default(),
            history: History::default(),
            synth: SynthConfig::default(),
            keyboard_layout: LayoutConfig::default(),
            devices: DevicesConfig::default(),
            appearance: AppearanceConfig::default(),
        }
    }
}

// ---------------------------------------------------------------------------
// Theme presets and resolver: a pure lookup over a closed set of names.
// ---------------------------------------------------------------------------

pub open spec fn cs(br: u8, bg: u8, bb: u8, dr: u8, dg: u8, db: u8) -> ColorSchemaV1 {
    ColorSchemaV1 { base: Rgb { r: br, g: bg, b: bb }, dark: Rgb { r: dr, g: dg, b: db } }
}

pub open spec fn spec_original_palette() -> Seq<ColorSchemaV1> {
    seq![
        cs(210, 89, 222, 125, 69, 134),
        cs(93, 188, 255, 48, 124, 255),
        cs(255, 126, 51, 192, 73, 0),
        cs(51, 255, 102, 0, 168, 2),
        cs(255, 51, 129, 48, 124, 255),
        cs(210, 89, 222, 125, 69, 134),
    ]
}

pub open spec fn spec_inferno_palette() -> Seq<ColorSchemaV1> {
    seq![
        cs(255, 170, 50, 200, 120, 20),
        cs(255, 140, 30, 200, 100, 10),
        cs(255, 200, 80, 200, 150, 40),
        cs(255, 120, 20, 180, 80, 10),
        cs(255, 180, 60, 200, 130, 30),
        cs(255, 220, 100, 200, 160, 50),
    ]
}

pub open spec fn spec_neon_palette() -> Seq<ColorSchemaV1> {
    seq![
        cs(0, 255, 255, 0, 150, 180),
        cs(255, 0, 255, 180, 0, 150),
        cs(0, 255, 150, 0, 180, 100),
        cs(255, 100, 255, 180, 50, 180),
        cs(100, 200, 255, 50, 120, 200),
        cs(200, 0, 255, 120, 0, 180),
    ]
}

pub open spec fn spec_golden_palette() -> Seq<ColorSchemaV1> {
    seq![
        cs(255, 215, 0, 180, 150, 0),
        cs(255, 255, 220, 200, 180, 140),
        cs(255, 200, 100, 200, 140, 50),
        cs(255, 240, 180, 200, 170, 100),
        cs(255, 180, 50, 180, 120, 20),
        cs(255, 230, 150, 200, 160, 80),
    ]
}

fn push_entry(v: &mut Vec<ColorSchemaV1>, br: u8, bg: u8, bb: u8, dr: u8, dg: u8, db: u8)
    ensures
        final(v)@ == old(v)@.push(cs(br, bg, bb, dr, dg, db)),
{
    v.push(ColorSchemaV1 { base: Rgb { r: br, g: bg, b: bb }, dark: Rgb { r: dr, g: dg, b: db } });
}

pub fn original_color_schema() -> (r: Vec<ColorSchemaV1>)
    ensures
        r@ == spec_original_palette(),
{
    let mut v: Vec<ColorSchemaV1> = Vec::new();
    push_entry(&mut v, 210, 89, 222, 125, 69, 134);
    push_entry(&mut v, 93, 188, 255, 48, 124, 255);
    push_entry(&mut v, 255, 126, 51, 192, 73, 0);
    push_entry(&mut v, 51, 255, 102, 0, 168, 2);
    push_entry(&mut v, 255, 51, 129, 48, 124, 255);
    push_entry(&mut v, 210, 89, 222, 125, 69, 134);
    proof {
        assert(v@ =~= spec_original_palette());
    }
    v
}

pub fn inferno_color_schema() -> (r: Vec<ColorSchemaV1>)
    ensures
        r@ == spec_inferno_palette(),
{
    let mut v: Vec<ColorSchemaV1> = Vec::new();
    push_entry(&mut v, 255, 170, 50, 200, 120, 20);
    push_entry(&mut v, 255, 140, 30, 200, 100, 10);
    push_entry(&mut v, 255, 200, 80, 200, 150, 40);
    push_entry(&mut v, 255, 120, 20, 180, 80, 10);
    push_entry(&mut v, 255, 180, 60, 200, 130, 30);
    push_entry(&mut v, 255, 220, 100, 200, 160, 50);
    proof {
        assert(v@ =~= spec_inferno_palette());
    }
    v
}

pub fn neon_color_schema() -> (r: Vec<ColorSchemaV1>)
    ensures
        r@ == spec_neon_palette(),
{
    let mut v: Vec<ColorSchemaV1> = Vec::new();
    push_entry(&mut v, 0, 255, 255, 0, 150, 180);
    push_entry(&mut v, 255, 0, 255, 180, 0, 150);
    push_entry(&mut v, 0, 255, 150, 0, 180, 100);
    push_entry(&mut v, 255, 100, 255, 180, 50, 180);
    push_entry(&mut v, 100, 200, 255, 50, 120, 200);
    push_entry(&mut v, 200, 0, 255, 120, 0, 180);
    proof {
        assert(v@ =~= spec_neon_palette());
    }
    v
}

pub fn golden_color_schema() -> (r: Vec<ColorSchemaV1>)
    ensures
        r@ == spec_golden_palette(),
{
    let mut v: Vec<ColorSchemaV1> = Vec::new();
    push_entry(&mut v, 255, 215, 0, 180, 150, 0);
    push_entry(&mut v, 255, 255, 220, 200, 180, 140);
    push_entry(&mut v, 255, 200, 100, 200, 140, 50);
    push_entry(&mut v, 255, 240, 180, 200, 170, 100);
    push_entry(&mut v, 255, 180, 50, 180, 120, 20);
    push_entry(&mut v, 255, 230, 150, 200, 160, 80);
    proof {
        assert(v@ =~= spec_golden_palette());
    }
    v
}

/// Which palette a theme name selects: a closed set of presets, everything
/// else (including the empty name) falling back to the original palette.
pub open spec fn spec_resolve(name: Seq<char>) -> Seq<ColorSchemaV1> {
    if name == "inferno"@ {
        spec_inferno_palette()
    } else if name == "neon"@ {
        spec_neon_palette()
    } else if name == "golden"@ {
        spec_golden_palette()
    } else {
        spec_original_palette()
    }
}

/// Pure theme resolver. The caller reads the theme name from its environment
/// once and passes it in; the resolver itself consults nothing else.
pub fn resolve(name: &String) -> (r: Vec<ColorSchemaV1>)
    ensures
        r@ == spec_resolve(name@),
{
    let inferno: String = "inferno".to_owned();
    let neon: String = "neon".to_owned();
    let golden: String = "golden".to_owned();
    if *name == inferno {
        inferno_color_schema()
    } else if *name == neon {
        neon_color_schema()
    } else if *name == golden {
        golden_color_schema()
    } else {
        original_color_schema()
    }
}

} // verus!

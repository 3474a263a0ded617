use neothesia_core::glow::exp_decay_milli;
use neothesia_core::glow::GlowColor;
use neothesia_core::glow::GlowRenderer;
use neothesia_core::glow::GlowState;

fn white() -> GlowColor {
    GlowColor { r: 1_000, g: 1_000, b: 1_000 }
}

#[test]
fn press_edge_resets_clock() {
    let mut s = GlowState::new();
    // A press observed with no elapsed time: the clock restarts at zero.
    s.update(0, true);
    assert_eq!(s.get_time(), 0);
    assert!(s.was_active);
    // Held frames with a fixed positive delta: strictly increasing clock.
    let mut last = s.get_time();
    for _ in 0..5 {
        s.update(16_000, true);
        assert!(s.get_time() > last);
        last = s.get_time();
    }
}

#[test]
fn press_edge_discards_previous_clock() {
    let mut s = GlowState::new();
    s.update(500_000, true);
    s.update(500_000, true);
    assert_eq!(s.get_time(), 3_000_000);
    // Release, then press again: the burst restarts from zero.
    s.update(100_000, false);
    s.update(100_000, true);
    assert_eq!(s.get_time(), 300_000);
}

#[test]
fn release_resets_clock_immediately() {
    let mut s = GlowState::new();
    s.update(2_000_000, true);
    assert!(s.get_time() > 0);
    s.update(16_000, false);
    assert_eq!(s.get_time(), 0);
    assert!(!s.was_active);
}

#[test]
fn size_starts_at_full_burst() {
    let s = GlowState::new();
    // 350 base plus 150 burst, in thousandths of a pixel.
    assert_eq!(s.size(), 500_000);
}

#[test]
fn size_decays_toward_base_radius() {
    let mut s = GlowState::new();
    s.update(0, true);
    let mut last = s.size();
    assert_eq!(last, 500_000);
    for _ in 0..10 {
        s.update(100_000, true);
        let now = s.size();
        assert!(now <= last);
        assert!(now >= 350_000);
        last = now;
    }
    // After five seconds of animation time the burst is all but gone.
    let mut s = GlowState::new();
    s.update(0, true);
    for _ in 0..50 {
        s.update(100_000, true);
    }
    assert_eq!(s.get_time(), 15_000_000);
    let settled = s.size();
    assert!(settled >= 350_000 && settled <= 351_000, "size {settled}");
}

#[test]
fn decay_curve_bounds() {
    assert_eq!(exp_decay_milli(0), 1_000);
    assert_eq!(exp_decay_milli(100_000), 0);
    assert_eq!(exp_decay_milli(1_000_000), 0);
    let mut last: u64 = 1_000;
    for x in [100, 500, 1_000, 2_000, 5_000, 10_000, 50_000] {
        let d = exp_decay_milli(x);
        assert!(d <= last);
        last = d;
    }
}

#[test]
fn color_clamps_exactly_at_bounds() {
    let mut s = GlowState::new();
    // Push the clock far out so the flash is zero and scaling alone decides.
    s.update(60_000_000, true);
    s.update(60_000_000, true);
    let c = s.calc_color(GlowColor { r: 1_200, g: 1_200, b: 1_200 });
    // 1200 * 1.3 = 1560 -> clamp 1500; 1200 * 1.2 = 1440 -> clamp 1300;
    // 1200 * 1.1 = 1320 -> clamp 1200.
    assert_eq!(c.r, 1_500);
    assert_eq!(c.g, 1_300);
    assert_eq!(c.b, 1_200);
    assert_eq!(c.a, 800);
}

#[test]
fn color_flash_brightens_fresh_press() {
    let mut s = GlowState::new();
    s.update(0, true);
    // At time zero the flash is at its full 0.5, scaled per channel.
    let c = s.calc_color(GlowColor { r: 100, g: 100, b: 100 });
    assert_eq!(c.r, 100 * 1_300 / 1_000 + 500);
    assert_eq!(c.g, 100 * 1_200 / 1_000 + 400);
    assert_eq!(c.b, 100 * 1_100 / 1_000 + 250);
    assert_eq!(c.a, 800);
}

#[test]
fn two_key_engine_accumulates_time() {
    let mut r = GlowRenderer::new(2);
    assert_eq!(r.states.len(), 2);
    r.push(0, white(), 0, 0, 10_000, 100_000);
    r.push(0, white(), 0, 0, 10_000, 100_000);
    assert_eq!(r.instances.len(), 2);
    // Two held frames of 0.1 s at triple speed: 0.6 s of animation time.
    assert_eq!(r.instances[1].time_micros, 600_000);
    // The untouched key stays at rest.
    assert_eq!(r.states[1], GlowState::new());
}

#[test]
fn instance_geometry_is_centered() {
    let mut r = GlowRenderer::new(1);
    r.push(0, white(), 0, 0, 10_000, 0);
    let inst = r.instances[0];
    assert_eq!(inst.size, 500_000);
    // Centered on the key's horizontal midpoint, anchored above the key.
    assert_eq!(inst.pos_x, 5_000 - 250_000);
    assert_eq!(inst.pos_y, -250_000);
    assert_eq!(inst.color.a, 800);
}

#[test]
fn clear_drops_instances_but_keeps_states() {
    let mut r = GlowRenderer::new(1);
    r.push(0, white(), 0, 0, 10_000, 50_000);
    let held = r.states[0];
    r.clear();
    assert_eq!(r.instances.len(), 0);
    assert_eq!(r.states[0], held);
}

#[test]
fn update_inactive_resets_formerly_active_keys() {
    let mut r = GlowRenderer::new(3);
    r.push(0, white(), 0, 0, 10_000, 100_000);
    r.push(2, white(), 0, 0, 10_000, 100_000);
    assert!(r.states[0].was_active);
    assert!(!r.states[1].was_active);
    // No press reported for any key this frame: the decay pass resets every
    // key that was active, and leaves resting keys untouched.
    r.update_inactive(16_000);
    assert_eq!(r.states[0], GlowState::new());
    assert_eq!(r.states[1], GlowState::new());
    assert_eq!(r.states[2], GlowState::new());
    // Instances from the frame are untouched by the decay pass.
    assert_eq!(r.instances.len(), 2);
}

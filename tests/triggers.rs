use particle_burst::button::Button;
use particle_burst::game::{button_colors, button_label, GameState};
use particle_burst::particles::DrawCommand;
use particle_burst::sampling::ScriptedRandom;
use particle_burst::triggers::{DustSquare, ExplosionSquare, TrailCircle};

#[test]
fn explosion_cooldown_blocks_then_rearms() {
    let mut sq = ExplosionSquare::new(144000, 168000, 16000, 0xcc3333ff);
    assert!(sq.trigger());
    assert!(!sq.visible);
    assert_eq!(sq.cooldown, 60);
    assert!(!sq.trigger());
    for _ in 0..59 {
        sq.update();
        assert!(!sq.visible);
    }
    sq.update();
    assert!(sq.visible);
    assert_eq!(sq.cooldown, 0);
    assert!(sq.trigger());
}

#[test]
fn explosion_square_draws_only_when_visible() {
    let mut sq = ExplosionSquare::new(144000, 168000, 16000, 0xcc3333ff);
    assert!(matches!(
        sq.draw(),
        Some(DrawCommand::Rect { x: 136000, y: 160000, w: 16000, h: 16000, color: 0xcc3333ff })
    ));
    sq.trigger();
    assert!(sq.draw().is_none());
}

#[test]
fn dust_square_lands_once_on_target() {
    let mut sq = DustSquare::new(330000, 168000, 16000, 0x3333CCff, 186000);
    assert!(!sq.update());
    sq.trigger();
    assert!(sq.falling);
    assert_eq!(sq.velocity, 500);
    for _ in 0..9 {
        assert!(!sq.update());
        assert!(sq.pos.1 + 8000 < 186000);
    }
    assert_eq!(sq.pos.1, 177000);
    assert!(sq.update());
    assert_eq!(sq.pos.1 + 8000, 186000);
    assert!(!sq.falling);
    assert_eq!(sq.reset_timer, 120);
    for _ in 0..119 {
        assert!(!sq.update());
        assert_eq!(sq.pos.1, 178000);
    }
    assert!(!sq.update());
    assert_eq!(sq.pos.1, 168000);
    assert!(sq.active && !sq.falling);
    assert_eq!(sq.velocity, 0);
}

#[test]
fn dust_square_ignores_trigger_while_falling() {
    let mut sq = DustSquare::new(0, 0, 16000, 0, 1_000_000);
    sq.trigger();
    sq.update();
    sq.update();
    let v = sq.velocity;
    sq.trigger();
    assert_eq!(sq.velocity, v);
}

#[test]
fn trail_circle_emits_every_fifth_frame_until_off_screen() {
    let mut c = TrailCircle::new(40000, 162000, 16000, 0x8833AAff);
    assert!(!c.update());
    assert_eq!(c.pos.1, 162000);
    c.activate(40000, 162000);
    let mut emitted = 0;
    for frame in 1..=91u32 {
        let e = c.update();
        assert_eq!(e, frame % 5 == 0);
        if e {
            emitted += 1;
        }
        assert_eq!(c.pos.1, 162000 - 2000 * frame as i64);
    }
    assert_eq!(emitted, 18);
    assert!(!c.update());
    assert!(!c.active);
    assert_eq!(c.pos, (40000, 162000));
    assert_eq!(c.frame_counter, 0);
}

#[test]
fn trail_circle_draws_at_its_position() {
    let c = TrailCircle::new(40000, 162000, 16000, 0x8833AAff);
    assert!(matches!(c.draw(), DrawCommand::Circle { x: 40000, y: 162000, d: 16000, color: 0x8833AAff }));
}

#[test]
fn button_hover_includes_edges() {
    let b = Button::new(10000, 20000, 50000, 30000, "Go");
    assert!(b.is_hovering((10000, 20000)));
    assert!(b.is_hovering((60000, 50000)));
    assert!(!b.is_hovering((60001, 30000)));
    assert!(!b.is_hovering((30000, 19999)));
}

#[test]
fn button_draws_rect_and_centered_label() {
    let b = Button::new(10000, 20000, 50000, 30000, "Go").with_colors(1, 2, 3);
    let cmds = b.draw((0, 0));
    assert_eq!(cmds.len(), 2);
    assert!(matches!(cmds[0], DrawCommand::Rect { x: 10000, y: 20000, w: 50000, h: 30000, color: 1 }));
    assert!(matches!(&cmds[1], DrawCommand::Text { text, x: 27000, y: 31000, color: 3 } if text == "Go"));
    let hovered = b.draw((20000, 30000));
    assert!(matches!(hovered[0], DrawCommand::Rect { color: 2, .. }));
}

#[test]
fn button_defaults() {
    let b = Button::new(0, 0, 1, 1, "x");
    assert_eq!((b.color, b.hover_color, b.text_color), (0x555555, 0x777777, 0xFFFFFF));
    assert_eq!(b.label, "x");
}

#[test]
fn buttons_have_labels_and_colors() {
    assert_eq!(button_label(0), "Trail");
    assert_eq!(button_label(1), "Explosion");
    assert_eq!(button_label(2), "Confetti");
    assert_eq!(button_label(3), "Dust");
    assert_eq!(button_label(4), "");
    assert_eq!(button_colors(1), (0xCC3333ff, 0xFF5555ff));
    assert_eq!(button_colors(9), (0x3333CCff, 0x5555FFff));
}

#[test]
fn confetti_button_makes_three_bursts() {
    let mut g = GameState::new();
    let mut rng = ScriptedRandom::new(vec![5, 6, 7, 8, 9, 10]);
    g.press_button(2, &mut rng);
    assert_eq!(g.particle_manager.bursts.len(), 3);
    let colors: Vec<u32> = g.particle_manager.bursts.iter().map(|b| b[0].color).collect();
    assert_eq!(colors, vec![0x33CCFFff, 0xAA55CCff, 0x5555FFff]);
    for b in &g.particle_manager.bursts {
        assert_eq!(b.len(), 100);
    }
}

#[test]
fn explosion_button_fires_once_per_cooldown() {
    let mut g = GameState::new();
    let mut rng = ScriptedRandom::new(vec![1, 2, 3]);
    g.press_button(1, &mut rng);
    assert_eq!(g.particle_manager.bursts.len(), 1);
    assert_eq!(g.particle_manager.bursts[0].len(), 10);
    g.press_button(1, &mut rng);
    assert_eq!(g.particle_manager.bursts.len(), 1);
}

#[test]
fn advance_runs_triggers_and_particles() {
    let mut g = GameState::new();
    let mut rng = ScriptedRandom::new(vec![11, 22, 33, 44, 55]);
    g.press_button(0, &mut rng);
    g.press_button(3, &mut rng);
    assert!(g.trail_circle.active);
    assert!(g.dust_square.falling);
    for _ in 0..4 {
        let cmds = g.advance(&mut rng);
        assert!(matches!(cmds[0], DrawCommand::Circle { .. }));
        assert!(g.particle_manager.bursts.is_empty());
    }
    let cmds = g.advance(&mut rng);
    assert_eq!(g.particle_manager.bursts.len(), 1);
    assert_eq!(g.particle_manager.bursts[0].len(), 10);
    assert_eq!(cmds.len(), 3 + 10);
    for _ in 0..5 {
        g.advance(&mut rng);
    }
    // the dust square landed on the tenth frame and asked for its burst
    assert!(!g.dust_square.falling);
    assert!(g.particle_manager.bursts.iter().any(|b| b[0].color == 0x777777FF));
}

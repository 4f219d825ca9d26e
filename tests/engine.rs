use particle_burst::geometry::BurstSource;
use particle_burst::particles::{
    create_particle, particle_from_draws, step_particle, BurstConfig, DrawCommand, ParticleManager, Shape,
    SpawnDraws,
};
use particle_burst::sampling::{HostRandom, ScriptedRandom};

fn point_config(count: u32, lifetime: (i32, i32), fade: bool, color: u32) -> BurstConfig {
    BurstConfig {
        source: BurstSource::Point(5000, 6000),
        shape: Shape::Square,
        x_velocity: (-250, 250),
        y_velocity: (1000, 2000),
        lifetime,
        color,
        size: (2, 3),
        count,
        should_fade_out: fade,
    }
}

#[test]
fn create_burst_appends_one_group_of_count() {
    let mut m = ParticleManager::new();
    let mut rng = ScriptedRandom::new(vec![100, 300, 50, 9]);
    m.create_burst(&point_config(10, (500, 800), false, 0xFFFFFFFF), &mut rng);
    assert_eq!(m.bursts.len(), 1);
    assert_eq!(m.bursts[0].len(), 10);
    m.create_burst(&point_config(3, (500, 800), false, 0x123456FF), &mut rng);
    assert_eq!(m.bursts.len(), 2);
    assert_eq!(m.bursts[0].len(), 10);
    assert_eq!(m.bursts[1].len(), 3);
    assert_eq!(m.bursts[1][0].color, 0x123456FF);
}

#[test]
fn create_burst_samples_each_field() {
    let mut m = ParticleManager::new();
    let mut rng = ScriptedRandom::new(vec![100, 300, 50, 9]);
    m.create_burst(&point_config(2, (500, 800), true, 0xAA55CCFF), &mut rng);
    for p in &m.bursts[0] {
        assert_eq!(p.pos, (5000, 6000));
        assert_eq!(p.vel, (-200, 1300));
        assert_eq!(p.lifetime, 515 * 60);
        assert_eq!(p.remaining_life, p.lifetime);
        assert_eq!(p.size, 2);
        assert_eq!(p.color, 0xAA55CCFF);
        assert!(p.should_fade_out);
        assert!(matches!(p.shape, Shape::Square));
    }
}

#[test]
fn create_burst_with_zero_count_is_pruned_next_update() {
    let mut m = ParticleManager::new();
    let mut rng = ScriptedRandom::new(vec![0]);
    m.create_burst(&point_config(0, (500, 800), false, 0), &mut rng);
    assert_eq!(m.bursts.len(), 1);
    assert_eq!(m.bursts[0].len(), 0);
    m.update();
    assert_eq!(m.bursts.len(), 0);
}

#[test]
fn create_burst_from_host_source() {
    let mut m = ParticleManager::new();
    let mut rng = HostRandom::new();
    m.create_burst(&point_config(4, (500, 800), false, 0), &mut rng);
    assert_eq!(m.bursts[0].len(), 4);
    assert!(m.bursts[0][0].lifetime >= 500 * 60 && m.bursts[0][0].lifetime <= 800 * 60);
}

#[test]
fn particles_from_draws_on_a_circle() {
    let config = BurstConfig {
        source: BurstSource::Circle { center: (0, 0), radius: 1000 },
        shape: Shape::Sprite { name: "spark".to_string() },
        x_velocity: (-1000, 1000),
        y_velocity: (-1000, 1000),
        lifetime: (400, 400),
        color: 0xFF6633FF,
        size: (4, 6),
        count: 1,
        should_fade_out: false,
    };
    let d = SpawnDraws { position: (0, 250), x_velocity: 3, y_velocity: 2001, lifetime: 5, size: 7 };
    let p = particle_from_draws(&config, &d);
    assert_eq!(p.pos, (250, 0));
    assert_eq!(p.vel, (-994, -998));
    assert_eq!(p.lifetime, 24000);
    assert_eq!(p.size, 5);
    assert!(matches!(&p.shape, Shape::Sprite { name } if name == "spark"));
}

#[test]
fn update_moves_and_ages() {
    let mut m = ParticleManager::new();
    let mut rng = ScriptedRandom::new(vec![100, 300, 50, 9]);
    m.create_burst(&point_config(1, (500, 800), false, 0xFFFFFFFF), &mut rng);
    m.update();
    let p = &m.bursts[0][0];
    assert_eq!(p.pos, (4800, 7300));
    assert_eq!(p.remaining_life, 30900 - 1000);
    m.update();
    assert_eq!(m.bursts[0][0].pos, (4600, 8600));
}

#[test]
fn bursts_expire_after_their_lifetime() {
    let mut m = ParticleManager::new();
    let mut rng = ScriptedRandom::new(vec![17, 4, 8, 1]);
    m.create_burst(&point_config(10, (500, 500), false, 0xFFFFFFFF), &mut rng);
    for _ in 0..29 {
        m.update();
    }
    assert_eq!(m.bursts.len(), 1);
    assert_eq!(m.bursts[0].len(), 10);
    m.update();
    assert_eq!(m.bursts.len(), 0);
}

#[test]
fn update_keeps_only_live_particles_and_groups() {
    let mut m = ParticleManager::new();
    let mut rng = ScriptedRandom::new(vec![0, 0, 0, 0, 0, 0, 100, 0]);
    // lifetimes 100 ms (6 steps) and 120 ms (7.2 steps), alternating
    m.create_burst(&point_config(4, (100, 300), false, 0), &mut rng);
    m.create_burst(&point_config(1, (100, 101), false, 0), &mut rng);
    for _ in 0..6 {
        m.update();
    }
    assert_eq!(m.bursts.len(), 1);
    assert_eq!(m.bursts[0].len(), 2);
    for g in &m.bursts {
        assert!(!g.is_empty());
        for p in g {
            assert!(p.remaining_life > 0);
        }
    }
}

#[test]
fn steady_particle_keeps_its_color() {
    let mut m = ParticleManager::new();
    let mut rng = ScriptedRandom::new(vec![0, 0, 0, 0]);
    m.create_burst(&point_config(1, (1000, 1000), false, 0x11223380), &mut rng);
    for _ in 0..59 {
        m.update();
        assert_eq!(m.bursts[0][0].color, 0x11223380);
    }
    m.update();
    assert!(m.bursts.is_empty());
}

#[test]
fn fading_particle_keeps_alpha_for_half_its_life_then_fades() {
    let mut m = ParticleManager::new();
    let mut rng = ScriptedRandom::new(vec![0, 0, 0, 0]);
    m.create_burst(&point_config(1, (1000, 1000), true, 0x11223380), &mut rng);
    for _ in 0..30 {
        m.update();
        assert_eq!(m.bursts[0][0].color, 0x11223380);
    }
    m.update();
    assert_eq!(m.bursts[0][0].color, 0x112233F6);
    let mut last = 0xF6;
    for _ in 31..59 {
        m.update();
        let c = m.bursts[0][0].color;
        assert_eq!(c >> 8, 0x112233);
        assert!(c & 0xFF <= last);
        last = c & 0xFF;
    }
    assert_eq!(m.bursts[0][0].remaining_life, 1000);
    assert_eq!(m.bursts[0][0].color & 0xFF, 8);
    m.update();
    assert!(m.bursts.is_empty());
}

#[test]
fn faded_alpha_is_zero_when_life_runs_out() {
    let mut rng = ScriptedRandom::new(vec![0, 0, 0, 0]);
    let mut m = ParticleManager::new();
    m.create_burst(&point_config(1, (1, 1), true, 0xABCDEFFF), &mut rng);
    let p = step_particle(&m.bursts[0][0]);
    assert_eq!(p.remaining_life, 60 - 1000);
    assert_eq!(p.color, 0xABCDEF00);
}

#[test]
fn draw_dispatches_by_shape() {
    let mut m = ParticleManager::new();
    let mut rng = ScriptedRandom::new(vec![100, 300, 50, 9]);
    m.create_burst(&point_config(1, (500, 800), false, 0xFFFFFFFF), &mut rng);
    let mut circle = point_config(1, (500, 800), false, 0x00FF00FF);
    circle.shape = Shape::Circle;
    circle.size = (4, 4);
    m.create_burst(&circle, &mut rng);
    let mut sprite = point_config(1, (500, 800), false, 0);
    sprite.shape = Shape::Sprite { name: "star".to_string() };
    m.create_burst(&sprite, &mut rng);
    let cmds = m.draw();
    assert_eq!(cmds.len(), 3);
    assert!(matches!(cmds[0], DrawCommand::Rect { x: 4000, y: 5000, w: 2000, h: 2000, color: 0xFFFFFFFF }));
    assert!(matches!(cmds[1], DrawCommand::Circle { x: 3000, y: 4000, d: 4000, color: 0x00FF00FF }));
    assert!(matches!(&cmds[2], DrawCommand::Sprite { name, x: 5000, y: 6000 } if name == "star"));
    assert_eq!(m.bursts.len(), 3);
}

#[test]
fn degenerate_samples_take_no_draw() {
    let mut config = point_config(1, (500, 800), false, 0);
    config.x_velocity = (5, 5);
    config.size = (3, 3);
    let mut rng = ScriptedRandom::new(vec![7, 9, 11, 13]);
    let p = create_particle(&config, &mut rng);
    assert_eq!(rng.next, 2);
    assert_eq!(p.vel, (5, 1007));
    assert_eq!(p.lifetime, 502 * 60);
    assert_eq!(p.size, 3);
}

#[test]
fn draws_follow_position_then_fields() {
    let config = BurstConfig {
        source: BurstSource::Rectangle { min: (100, 0), max: (100, 1000) },
        shape: Shape::Circle,
        x_velocity: (0, 1000),
        y_velocity: (0, 1000),
        lifetime: (100, 100),
        color: 0,
        size: (1, 5),
        count: 1,
        should_fade_out: false,
    };
    // x of the position is degenerate: y, vx, vy, size take the draws in order.
    let mut rng = ScriptedRandom::new(vec![10, 20, 30, 7, 99]);
    let p = create_particle(&config, &mut rng);
    assert_eq!(rng.next, 4);
    assert_eq!(p.pos, (100, 10));
    assert_eq!(p.vel, (20, 30));
    assert_eq!(p.size, 4);
}

#[test]
fn equal_draws_give_equal_bursts() {
    let config = point_config(5, (500, 800), true, 0xFF);
    let mut a = ParticleManager::new();
    let mut b = ParticleManager::new();
    a.create_burst(&config, &mut ScriptedRandom::new(vec![3, 1, 4, 1, 5, 9, 2, 6]));
    b.create_burst(&config, &mut ScriptedRandom::new(vec![3, 1, 4, 1, 5, 9, 2, 6]));
    for (p, q) in a.bursts[0].iter().zip(b.bursts[0].iter()) {
        assert_eq!((p.pos, p.vel, p.size, p.lifetime), (q.pos, q.vel, q.size, q.lifetime));
    }
}

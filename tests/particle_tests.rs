use voltec_website::particles::{
    link, link_field, particle, particle_field, Link, Particle, LINK_COUNT, PARTICLE_COUNT,
    SURFACE_HEIGHT, SURFACE_WIDTH,
};

#[test]
fn first_particles() {
    assert_eq!(
        particle(0, SURFACE_WIDTH, SURFACE_HEIGHT),
        Particle { x_tenths: 0, y_tenths: 0, radius_tenths: 6, alpha_percent: 8 }
    );
    assert_eq!(
        particle(1, SURFACE_WIDTH, SURFACE_HEIGHT),
        Particle { x_tenths: 173, y_tenths: 137, radius_tenths: 18, alpha_percent: 12 }
    );
    assert_eq!(
        particle(2, SURFACE_WIDTH, SURFACE_HEIGHT),
        Particle { x_tenths: 346, y_tenths: 274, radius_tenths: 30, alpha_percent: 16 }
    );
}

#[test]
fn last_particle_wraps_around_the_surface() {
    // 119 * 17.3 = 2058.7 -> 138.7; 119 * 13.7 = 1630.3 -> 350.3
    assert_eq!(
        particle(119, SURFACE_WIDTH, SURFACE_HEIGHT),
        Particle { x_tenths: 1387, y_tenths: 3503, radius_tenths: 30, alpha_percent: 44 }
    );
}

#[test]
fn links_follow_the_formulas() {
    assert_eq!(link(0, SURFACE_WIDTH, SURFACE_HEIGHT), Link { x1: 0, y1: 0, x2: 310, y2: 435 });
    assert_eq!(
        link(39, SURFACE_WIDTH, SURFACE_HEIGHT),
        Link { x1: 1599, y1: 163, x2: 1519, y2: 286 }
    );
}

#[test]
fn field_sizes() {
    let ps = particle_field(SURFACE_WIDTH, SURFACE_HEIGHT);
    let ls = link_field(SURFACE_WIDTH, SURFACE_HEIGHT);
    assert_eq!(ps.len(), PARTICLE_COUNT as usize);
    assert_eq!(ls.len(), LINK_COUNT as usize);
    assert_eq!(ps.len(), 120);
    assert_eq!(ls.len(), 40);
}

#[test]
fn field_is_reproducible() {
    let a = particle_field(SURFACE_WIDTH, SURFACE_HEIGHT);
    let b = particle_field(SURFACE_WIDTH, SURFACE_HEIGHT);
    assert_eq!(a, b);
    for (i, p) in a.iter().enumerate() {
        assert_eq!(*p, particle(i as u32, SURFACE_WIDTH, SURFACE_HEIGHT));
    }
    assert_eq!(link_field(SURFACE_WIDTH, SURFACE_HEIGHT), link_field(SURFACE_WIDTH, SURFACE_HEIGHT));
}

#[test]
fn particles_stay_on_the_surface() {
    for p in particle_field(SURFACE_WIDTH, SURFACE_HEIGHT) {
        assert!(p.x_tenths < 19200);
        assert!(p.y_tenths < 12800);
        assert!(p.radius_tenths == 6 || p.radius_tenths == 18 || p.radius_tenths == 30);
        assert!(p.alpha_percent >= 8 && p.alpha_percent <= 44);
    }
}

#[test]
fn other_surface_sizes() {
    assert_eq!(
        particle(7, 10, 10),
        Particle { x_tenths: 11, y_tenths: 59, radius_tenths: 18, alpha_percent: 36 }
    );
    assert_eq!(link(3, 100, 50), Link { x1: 23, y1: 11, x2: 3, y2: 22 });
}

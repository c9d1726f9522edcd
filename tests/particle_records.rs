use simple::{create_explosion_particles, Particle};

#[test]
fn test_particle_new() {
    let particle = Particle::new(10, 10, 1, -1, 10, '*');
    assert_eq!(particle.x, 10);
    assert_eq!(particle.y, 10);
    assert_eq!(particle.velocity_x, 1);
    assert_eq!(particle.velocity_y, -1);
    assert_eq!(particle.lifetime, 10);
    assert_eq!(particle.char, '*');
}

#[test]
fn test_particle_update_position() {
    let mut particle = Particle::new(10, 10, 2, -1, 10, '*');
    particle.update();
    assert_eq!(particle.x, 12);
    assert_eq!(particle.y, 9);
    assert_eq!(particle.lifetime, 9);
}

#[test]
fn test_particle_lifetime_expires() {
    let mut particle = Particle::new(10, 10, 0, 0, 2, '*');
    assert!(!particle.is_dead());
    particle.update();
    assert!(!particle.is_dead());
    particle.update();
    assert!(particle.is_dead());
}

#[test]
fn test_particle_out_of_bounds() {
    let particle = Particle::new(100, 50, 0, 0, 10, '*');
    assert!(particle.is_out_of_bounds(0, 80, 24));

    let particle = Particle::new(10, 10, 0, 0, 10, '*');
    assert!(!particle.is_out_of_bounds(0, 80, 24));
}

#[test]
fn test_create_explosion_particles() {
    let particles = create_explosion_particles(10, 10);
    // 8 directions (cardinal + diagonal) + 1 central particle = 9 particles
    assert_eq!(particles.len(), 9);

    // All particles should start at the same position
    for particle in particles.iter() {
        assert_eq!(particle.x, 10);
        assert_eq!(particle.y, 10);
    }
}

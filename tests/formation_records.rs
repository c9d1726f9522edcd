use simple::{Formation, FormationType};

#[test]
fn test_formation_new() {
    let formation = Formation::new(40, 10, FormationType::VShape);
    assert_eq!(formation.center_x, 40);
    assert_eq!(formation.center_y, 10);
    assert_eq!(formation.formation_type, FormationType::VShape);
    assert_eq!(formation.direction_x, 1);
}

#[test]
fn test_formation_v_shape_positions() {
    let formation = Formation::new(40, 10, FormationType::VShape);
    let positions = formation.get_positions();
    assert_eq!(positions.len(), 7);
    assert_eq!(positions[0], (0, 0)); // Top of V
}

#[test]
fn test_formation_diamond_positions() {
    let formation = Formation::new(40, 10, FormationType::Diamond);
    let positions = formation.get_positions();
    assert_eq!(positions.len(), 9);
}

#[test]
fn test_formation_wall_positions() {
    let formation = Formation::new(40, 10, FormationType::Wall);
    let positions = formation.get_positions();
    assert_eq!(positions.len(), 14);
}

#[test]
fn test_formation_block_positions() {
    let formation = Formation::new(40, 10, FormationType::Block);
    let positions = formation.get_positions();
    assert_eq!(positions.len(), 16);
}

#[test]
fn test_formation_update_moves_down() {
    let mut formation = Formation::new(40, 10, FormationType::VShape);
    for _ in 0..8 {
        formation.update(80);
    }
    assert_eq!(formation.center_y, 11);
}

#[test]
fn test_formation_update_moves_horizontally() {
    let mut formation = Formation::new(40, 10, FormationType::VShape);
    for _ in 0..4 {
        formation.update(80);
    }
    assert_eq!(formation.center_x, 41);
}

#[test]
fn test_formation_reverses_at_boundary() {
    let mut formation = Formation::new(70, 10, FormationType::VShape);

    // Move right until hitting boundary
    for _ in 0..100 {
        formation.update(80);
    }

    // Should have reversed direction at some point
    assert_eq!(formation.direction_x, -1);
}

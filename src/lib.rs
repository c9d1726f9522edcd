pub mod collision;
pub mod control;
pub mod dice;
pub mod enemy;
pub mod formation;
pub mod grid;
pub mod health;
pub mod input;
pub mod particle;
pub mod pickup;
pub mod player;
pub mod projectile;
pub mod prune;
pub mod tick;
pub mod world;

pub use enemy::{Enemy, EnemyType};
pub use formation::{Formation, FormationType};
pub use particle::{create_explosion_particles, Particle};
pub use pickup::Pickup;
pub use player::{Player, WeaponType};
pub use projectile::{Projectile, ProjectileOwner, ProjectileType};
pub use world::{GameState, World};
pub use input::{InputAction, InputManager, Key, KeyKind, KeyState};

//! An entity-component-system (ECS) data store.
//!
//! A [`scene::Scene`] owns a table of entity slots and, per component type, a
//! sparse [`pool::Pool`] of component values. Callers address entities through
//! lightweight [`entity::Entity`] handles (slot index plus generation); stale
//! handles are detected and rejected rather than trusted. Queries iterate the
//! live entities that hold a required set of component types.

pub mod component;
pub mod entity;
pub mod error;
pub mod pool;
pub mod scene;

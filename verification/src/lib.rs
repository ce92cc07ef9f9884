//! Verified core of a point-cloud viewer: the decisions and data layouts that
//! the rendering front end relies on.

pub mod text;
pub mod limits;
pub mod camera;
pub mod surface;
pub mod viewer;
pub mod layout;
pub mod mesh;
pub mod order;
pub mod pcd_paths;

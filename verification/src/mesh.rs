pub mod indices;
pub mod half_edge;
pub mod topology;
pub mod check;
pub mod construct;
pub mod split;
pub mod trimming;
pub mod notching;
pub mod swap;
pub mod computational_mesh;
pub mod laws;
pub mod boundary;
pub mod edges;
pub mod neighbor;

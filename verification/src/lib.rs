pub mod camera;
pub mod denoise;
pub mod fixed;
pub mod three_d_tree;
pub mod vec3;
pub mod hittable;
pub mod light;
pub mod lights;
pub mod materials;
pub mod mesh;
pub mod object;
pub mod polygon;
pub mod random;
pub mod scene;
pub mod sphere;
pub mod triangle;
pub mod util;
pub mod ray;
pub mod render;
pub mod sampler;

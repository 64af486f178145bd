//! A recursive Monte Carlo ray tracer for scenes of spheres.
//!
//! All geometry is carried out over an exact fixed-point scalar type, so
//! every arithmetic step has a precise, machine-checked meaning: vector
//! algebra, ray/sphere intersection, material scattering, the camera model,
//! and the recursive radiance integrator are verified against contracts
//! that pin their results down exactly.

pub mod camera;
pub mod fixed;
pub mod hittable;
pub mod hittable_list;
pub mod material;
pub mod ray;
pub mod render;
pub mod rng;
pub mod sphere;
pub mod vec3;

pub use camera::Camera;
pub use fixed::Fx;
pub use fixed::SCALE;
pub use hittable::HitRecord;
pub use hittable_list::HittableEnum;
pub use hittable_list::HittableList;
pub use material::Dielectric;
pub use material::Lambertian;
pub use material::MaterialEnum;
pub use material::Metal;
pub use ray::Ray;
pub use render::color_to_rgb;
pub use render::ray_color;
pub use render::render_pixel;
pub use rng::Rand;
pub use sphere::Sphere;
pub use vec3::Color;
pub use vec3::Point3;
pub use vec3::Vec3;

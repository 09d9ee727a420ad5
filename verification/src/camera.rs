//! The camera: the geometry of the viewport and the rays through its pixels.

use vstd::prelude::*;
use crate::color::{decimal, write_decimal};
use crate::ray::Ray;
use crate::rtweekend::{degrees_to_radians, random, spec_unit_interval};
use crate::scalar::{Scalar, HALF_BITS, TWO_BITS};
use crate::vec3::{cross, unit_vector, Point3, Vec3};

verus! {

/// Bit pattern of `16.0 / 9.0`.
pub const WIDE_SCREEN_BITS: u64 = 0x3ffc_71c7_1c71_c71c;

/// Bit pattern of `90.0`.
pub const QUARTER_TURN_BITS: u64 = 0x4056_8000_0000_0000;

/// Bit pattern of `10.0`.
pub const TEN_BITS: u64 = 0x4024_0000_0000_0000;

/// Bit pattern of `-1.0`.
pub const MINUS_ONE_BITS: u64 = 0xbff0_0000_0000_0000;

/// A camera. The first ten fields are set by the user; `initialize` derives
/// the others from them.
pub struct Camera {
    /// Ratio of image width over height.
    pub aspect_ratio: Scalar,
    /// Width of the image in pixels.
    pub image_width: i32,
    /// Number of random samples for each pixel.
    pub samples_per_pixel: i32,
    /// Greatest number of bounces of a ray.
    pub max_depth: i32,
    /// Vertical angle of view, in degrees.
    pub vfov: Scalar,
    /// The point the camera looks from.
    pub lookfrom: Point3,
    /// The point the camera looks at.
    pub lookat: Point3,
    /// The direction that is up for the camera.
    pub vup: Vec3,
    /// Angle of the cone with its tip at the centre of the viewport and its
    /// base at the lens, in degrees.
    pub defocus_angle: Scalar,
    /// Distance from the camera to the plane of perfect focus.
    pub focus_dist: Scalar,
    /// Height of the image in pixels.
    pub image_height: i32,
    /// Centre of the camera.
    pub center: Point3,
    /// Place of the pixel in the upper left corner.
    pub pixel00_loc: Point3,
    /// Step from pixel to pixel to the right.
    pub pixel_delta_u: Vec3,
    /// Step from pixel to pixel downwards.
    pub pixel_delta_v: Vec3,
    /// Unit vector to the right of the camera.
    pub u: Vec3,
    /// Unit vector upwards of the camera.
    pub v: Vec3,
    /// Unit vector against the direction of view.
    pub w: Vec3,
    /// Horizontal radius of the lens.
    pub defocus_disk_u: Vec3,
    /// Vertical radius of the lens.
    pub defocus_disk_v: Vec3,
}

impl Camera {
    /// A camera at the origin that looks along the negative `z` axis, with a
    /// view of 90 degrees, an image 400 pixels wide at 16 to 9, 10 samples
    /// for each pixel, 10 bounces, and no blur.
    pub open spec fn spec_new() -> Camera {
        Camera {
            aspect_ratio: Scalar { bits: WIDE_SCREEN_BITS },
            image_width: 400,
            samples_per_pixel: 10,
            max_depth: 10,
            vfov: Scalar { bits: QUARTER_TURN_BITS },
            lookfrom: Vec3::spec_zero(),
            lookat: Vec3::spec_new(
                Scalar { bits: 0 },
                Scalar { bits: 0 },
                Scalar { bits: MINUS_ONE_BITS },
            ),
            vup: Vec3::spec_new(Scalar { bits: 0 }, Scalar::spec_one(), Scalar { bits: 0 }),
            defocus_angle: Scalar { bits: 0 },
            focus_dist: Scalar { bits: TEN_BITS },
            image_height: 0,
            center: Vec3::spec_zero(),
            pixel00_loc: Vec3::spec_zero(),
            pixel_delta_u: Vec3::spec_zero(),
            pixel_delta_v: Vec3::spec_zero(),
            u: Vec3::spec_zero(),
            v: Vec3::spec_zero(),
            w: Vec3::spec_zero(),
            defocus_disk_u: Vec3::spec_zero(),
            defocus_disk_v: Vec3::spec_zero(),
        }
    }

    /// Half the vertical angle of view, in radians.
    pub open spec fn spec_half_view_angle(&self) -> Scalar {
        degrees_to_radians(self.vfov).div(Scalar { bits: TWO_BITS })
    }

    /// Half the angle of the defocus cone, in radians.
    pub open spec fn spec_half_defocus_angle(&self) -> Scalar {
        degrees_to_radians(self.defocus_angle.div(Scalar { bits: TWO_BITS }))
    }

    /// The height of the image: the width over the aspect ratio, cut to a
    /// whole number, and at least one.
    pub open spec fn spec_height(&self) -> i32 {
        let height = Scalar::spec_from_i32(self.image_width).div(self.aspect_ratio).to_i32();
        if height < 1 {
            1
        } else {
            height
        }
    }

    /// The camera with the derived fields set, where `view_tangent` is the
    /// tangent of half the angle of view and `defocus_tangent` that of half
    /// the defocus angle.
    ///
    /// The viewport stands at the focus distance, `2 * view_tangent *
    /// focus_dist` high and wider by the ratio of the image's width to its
    /// height. `w` points from `lookat` to `lookfrom`, `u` to the right and
    /// `v` upwards. The pixels divide the viewport evenly; the first lies
    /// half a step inside its upper left corner. The lens has the radius
    /// `focus_dist * defocus_tangent`.
    pub open spec fn initialized(self, view_tangent: Scalar, defocus_tangent: Scalar) -> Camera {
        let two = Scalar { bits: TWO_BITS };
        let image_height = self.spec_height();
        let viewport_height = two.mul(view_tangent).mul(self.focus_dist);
        let viewport_width = viewport_height.mul(
            Scalar::spec_from_i32(self.image_width).div(Scalar::spec_from_i32(image_height)),
        );
        let w = unit_vector(self.lookfrom.sub(self.lookat));
        let u = unit_vector(cross(self.vup, w));
        let v = cross(w, u);
        let viewport_u = u.scale(viewport_width);
        let viewport_v = v.neg().scale(viewport_height);
        let pixel_delta_u = viewport_u.div(Scalar::spec_from_i32(self.image_width));
        let pixel_delta_v = viewport_v.div(Scalar::spec_from_i32(image_height));
        let viewport_upper_left = self.lookfrom.sub(w.scale(self.focus_dist)).sub(
            viewport_u.div(two),
        ).sub(viewport_v.div(two));
        let defocus_radius = self.focus_dist.mul(defocus_tangent);
        Camera {
            image_height,
            center: self.lookfrom,
            pixel00_loc: viewport_upper_left.add(pixel_delta_u.div(two)).add(
                pixel_delta_v.div(two),
            ),
            pixel_delta_u,
            pixel_delta_v,
            u,
            v,
            w,
            defocus_disk_u: u.scale(defocus_radius),
            defocus_disk_v: v.scale(defocus_radius),
            ..self
        }
    }

    /// The point of the lens that the point `p` of the unit disk stands for.
    pub open spec fn spec_defocus_disk_sample(&self, p: Vec3) -> Point3 {
        self.center.add(self.defocus_disk_u.scale(p.e[0])).add(self.defocus_disk_v.scale(p.e[1]))
    }

    /// The ray for the pixel in column `i` and row `j`. It aims at the pixel
    /// moved by `offset`, and starts at the centre of the camera, or, where
    /// the defocus angle is positive, at the point of the lens that
    /// `disk_point` stands for.
    pub open spec fn spec_get_ray(&self, i: i32, j: i32, offset: Vec3, disk_point: Vec3) -> Ray {
        let pixel_sample = self.pixel00_loc.add(
            self.pixel_delta_u.scale(Scalar::spec_from_i32(i).add(offset.x())),
        ).add(self.pixel_delta_v.scale(Scalar::spec_from_i32(j).add(offset.y())));
        let ray_origin = if self.defocus_angle.le(Scalar { bits: 0 }) {
            self.center
        } else {
            self.spec_defocus_disk_sample(disk_point)
        };
        Ray { orig: ray_origin, dir: pixel_sample.sub(ray_origin) }
    }

    /// The head of a plain PPM image of the camera's size: the mark of the
    /// format, the letter `P` and the digit three, on a line; the width and
    /// the height in decimal on a line; and the greatest level, 255, on a
    /// line.
    pub open spec fn header(&self) -> Seq<u8> {
        seq![80u8, 51u8, 10u8] + decimal(self.image_width as int) + seq![32u8] + decimal(
            self.image_height as int,
        ) + seq![10u8, 50u8, 53u8, 53u8, 10u8]
    }

    /// Writes the head of the image at the end of `out`.
    pub fn write_header(&self, out: &mut Vec<u8>)
        ensures
            final(out)@ == old(out)@ + self.header(),
    {
        out.push(80u8);
        out.push(51u8);
        out.push(10u8);
        write_decimal(self.image_width, out);
        out.push(32u8);
        write_decimal(self.image_height, out);
        out.push(10u8);
        out.push(50u8);
        out.push(53u8);
        out.push(53u8);
        out.push(10u8);
        proof {
            assert(out@ =~= old(out)@ + self.header());
        }
    }

    #[verifier::when_used_as_spec(spec_new)]
    pub fn new() -> (camera: Camera)
        ensures
            camera == Camera::spec_new(),
    {
        Camera {
            aspect_ratio: Scalar { bits: WIDE_SCREEN_BITS },
            image_width: 400,
            samples_per_pixel: 10,
            max_depth: 10,
            vfov: Scalar { bits: QUARTER_TURN_BITS },
            lookfrom: Vec3::default(),
            lookat: Vec3::new(Scalar { bits: 0 }, Scalar { bits: 0 }, Scalar { bits: MINUS_ONE_BITS }),
            vup: Vec3::new(Scalar { bits: 0 }, Scalar::one(), Scalar { bits: 0 }),
            defocus_angle: Scalar { bits: 0 },
            focus_dist: Scalar { bits: TEN_BITS },
            image_height: 0,
            center: Vec3::default(),
            pixel00_loc: Vec3::default(),
            pixel_delta_u: Vec3::default(),
            pixel_delta_v: Vec3::default(),
            u: Vec3::default(),
            v: Vec3::default(),
            w: Vec3::default(),
            defocus_disk_u: Vec3::default(),
            defocus_disk_v: Vec3::default(),
        }
    }

    #[verifier::when_used_as_spec(spec_half_view_angle)]
    pub fn half_view_angle(&self) -> (angle: Scalar)
        ensures
            angle == self.spec_half_view_angle(),
    {
        degrees_to_radians(self.vfov).div(Scalar { bits: TWO_BITS })
    }

    #[verifier::when_used_as_spec(spec_half_defocus_angle)]
    pub fn half_defocus_angle(&self) -> (angle: Scalar)
        ensures
            angle == self.spec_half_defocus_angle(),
    {
        degrees_to_radians(self.defocus_angle.div(Scalar { bits: TWO_BITS }))
    }

    /// Derives the geometry of the viewport from the fields that the user
    /// sets. `view_tangent` is the tangent of `half_view_angle()`, and
    /// `defocus_tangent` that of `half_defocus_angle()`.
    pub fn initialize(&mut self, view_tangent: Scalar, defocus_tangent: Scalar)
        ensures
            *final(self) == old(self).initialized(view_tangent, defocus_tangent),
            final(self).image_height >= 1,
    {
        let two = Scalar { bits: TWO_BITS };
        let mut image_height = Scalar::from_i32(self.image_width).div(self.aspect_ratio).to_i32();
        image_height = if image_height < 1 {
            1
        } else {
            image_height
        };

        let camera_center = self.lookfrom;

        let h = view_tangent;
        let viewport_height = two.mul(h).mul(self.focus_dist);
        let viewport_width = viewport_height.mul(
            Scalar::from_i32(self.image_width).div(Scalar::from_i32(image_height)),
        );

        self.w = unit_vector(self.lookfrom.sub(self.lookat));
        self.u = unit_vector(cross(self.vup, self.w));
        self.v = cross(self.w, self.u);

        let viewport_u = self.u.scale(viewport_width);
        let viewport_v = self.v.neg().scale(viewport_height);

        let pixel_delta_u = viewport_u.div(Scalar::from_i32(self.image_width));
        let pixel_delta_v = viewport_v.div(Scalar::from_i32(image_height));

        let viewport_upper_left = camera_center.sub(self.w.scale(self.focus_dist)).sub(
            viewport_u.div(two),
        ).sub(viewport_v.div(two));
        let pixel00_loc = viewport_upper_left.add(pixel_delta_u.div(two)).add(
            pixel_delta_v.div(two),
        );

        self.image_height = image_height;
        self.center = camera_center;
        self.pixel00_loc = pixel00_loc;
        self.pixel_delta_u = pixel_delta_u;
        self.pixel_delta_v = pixel_delta_v;

        let defocus_radius = self.focus_dist.mul(defocus_tangent);
        self.defocus_disk_u = self.u.scale(defocus_radius);
        self.defocus_disk_v = self.v.scale(defocus_radius);
    }

    #[verifier::when_used_as_spec(spec_get_ray)]
    pub fn get_ray(&self, i: i32, j: i32, offset: Vec3, disk_point: Vec3) -> (r: Ray)
        ensures
            r == self.spec_get_ray(i, j, offset, disk_point),
    {
        let pixel_sample = self.pixel00_loc.add(
            self.pixel_delta_u.scale(Scalar::from_i32(i).add(offset.x())),
        ).add(self.pixel_delta_v.scale(Scalar::from_i32(j).add(offset.y())));
        let ray_origin = if self.defocus_angle.le(Scalar { bits: 0 }) {
            self.center
        } else {
            self.defocus_disk_sample(disk_point)
        };
        let ray_direction = pixel_sample.sub(ray_origin);
        Ray::new(ray_origin, ray_direction)
    }

    /// A random point of the square from `(-0.5, -0.5)` to `(0.5, 0.5)`.
    pub fn sample_square() -> (offset: Vec3)
        ensures
            exists|w0: u64, w1: u64|
                offset == Vec3::spec_new(
                    spec_unit_interval(w0).sub(Scalar { bits: HALF_BITS }),
                    spec_unit_interval(w1).sub(Scalar { bits: HALF_BITS }),
                    Scalar { bits: 0 },
                ),
    {
        let x = random();
        let y = random();
        let ghost w0 = choose|w: u64| x == spec_unit_interval(w);
        let ghost w1 = choose|w: u64| y == spec_unit_interval(w);
        let offset = Vec3::new(
            x.sub(Scalar { bits: HALF_BITS }),
            y.sub(Scalar { bits: HALF_BITS }),
            Scalar { bits: 0 },
        );
        assert(offset == Vec3::spec_new(
            spec_unit_interval(w0).sub(Scalar { bits: HALF_BITS }),
            spec_unit_interval(w1).sub(Scalar { bits: HALF_BITS }),
            Scalar { bits: 0 },
        ));
        offset
    }

    #[verifier::when_used_as_spec(spec_defocus_disk_sample)]
    pub fn defocus_disk_sample(&self, p: Vec3) -> (point: Point3)
        ensures
            point == self.spec_defocus_disk_sample(p),
    {
        self.center.add(self.defocus_disk_u.scale(p.index(0))).add(
            self.defocus_disk_v.scale(p.index(1)),
        )
    }
}

} // verus!

//! Surface materials: the Phong coefficients, reflectivity, transparency and
//! refractive index, plus the pattern that gives the surface its color.

use vstd::prelude::*;

verus! {

use crate::color::{Color, spec_color_add, spec_color_mul, spec_color_scale};
use crate::fx;
use crate::fx::SCALE;
use crate::light::PointLight;
use crate::matrix::Matrix;
use crate::patterns::{Pattern, spec_color_at_object, floor_units, spec_floor_units};
use crate::tuple::{Tuple, spec_tuple_sub, spec_tuple_neg, spec_tuple_div, spec_dot, spec_magnitude, spec_reflect};

#[derive(Clone, Copy, Debug)]
pub struct Material {
    pub pattern: Pattern,
    pub ambient: i64,
    pub diffuse: i64,
    pub specular: i64,
    pub shininess: i64,
    pub reflective: i64,
    pub transparency: i64,
    pub refractive_index: i64,
}

/// The default material values.
pub open spec fn spec_default_material() -> Material {
    Material {
        pattern: Pattern::Solid(Color { r: SCALE, g: SCALE, b: SCALE }),
        ambient: (SCALE as int / 10) as i64,
        diffuse: (9 * (SCALE as int / 10)) as i64,
        specular: (9 * (SCALE as int / 10)) as i64,
        shininess: (200 * SCALE as int) as i64,
        reflective: 0i64,
        transparency: 0i64,
        refractive_index: SCALE,
    }
}

impl Material {
    pub open spec fn wf(self) -> bool {
        self.pattern.wf()
    }

    pub fn new(
        pattern: Pattern,
        ambient: i64,
        diffuse: i64,
        specular: i64,
        shininess: i64,
        reflective: i64,
        transparency: i64,
        refractive_index: i64,
    ) -> (m: Material)
        ensures
            m == (Material {
                pattern,
                ambient,
                diffuse,
                specular,
                shininess,
                reflective,
                transparency,
                refractive_index,
            }),
    {
        Material {
            pattern,
            ambient,
            diffuse,
            specular,
            shininess,
            reflective,
            transparency,
            refractive_index,
        }
    }
}

impl Default for Material {
    /// White solid pattern, ambient 0.1, diffuse 0.9, specular 0.9,
    /// shininess 200, no reflection, opaque, vacuum refractive index.
    fn default() -> (m: Material)
        ensures
            m == spec_default_material(),
            m.wf(),
    {
        Material {
            pattern: Pattern::solid(Color::white()),
            ambient: SCALE / 10,
            diffuse: 9 * (SCALE / 10),
            specular: 9 * (SCALE / 10),
            shininess: 200 * SCALE,
            reflective: 0,
            transparency: 0,
            refractive_index: SCALE,
        }
    }
}


/// The whole part of the shininess, clipped to an executable exponent.
pub open spec fn spec_shininess_exponent(sh: int) -> nat {
    let w = spec_floor_units(sh);
    if w < 0 {
        0
    } else if w > u32::MAX as int {
        u32::MAX as nat
    } else {
        w as nat
    }
}

/// The Phong model: ambient always applies; in shadow, or with the light
/// behind the surface, diffuse and specular vanish; otherwise diffuse scales
/// with the light's incidence and specular with the reflection-eye alignment
/// raised to the shininess.
pub open spec fn spec_lightning(
    m: Material,
    object_inverse: Matrix,
    light: PointLight,
    point: Tuple,
    eyev: Tuple,
    normalv: Tuple,
    in_shadow: bool,
) -> Color {
    let color = spec_color_at_object(m.pattern, object_inverse, point);
    let effective_color = spec_color_mul(color, light.intensity);
    let to_light = spec_tuple_sub(light.position, point);
    let lightv = spec_tuple_div(to_light, spec_magnitude(to_light));
    let light_dot_normal = spec_dot(lightv, normalv);
    let ambient = spec_color_scale(effective_color, m.ambient as int);
    if in_shadow {
        ambient
    } else if light_dot_normal < 0 {
        spec_color_add(
            spec_color_add(ambient, Color { r: 0i64, g: 0i64, b: 0i64 }),
            Color { r: 0i64, g: 0i64, b: 0i64 },
        )
    } else {
        let diffuse = spec_color_scale(
            spec_color_scale(effective_color, m.diffuse as int),
            light_dot_normal,
        );
        let reflectv = spec_reflect(spec_tuple_neg(lightv), normalv);
        let reflect_dot_eye = spec_dot(reflectv, eyev);
        let specular = if reflect_dot_eye <= 0 {
            Color { r: 0i64, g: 0i64, b: 0i64 }
        } else {
            let factor = fx::spec_powi(
                reflect_dot_eye,
                spec_shininess_exponent(m.shininess as int),
            );
            spec_color_scale(spec_color_scale(light.intensity, m.specular as int), factor)
        };
        spec_color_add(spec_color_add(ambient, diffuse), specular)
    }
}

impl Material {
    /// The Phong shade of a surface point (`object_inverse` is the inverse
    /// transform of the shape being shaded, used to place the pattern).
    pub fn lightning(
        &self,
        object_inverse: &Matrix,
        light: &PointLight,
        point: Tuple,
        eyev: Tuple,
        normalv: Tuple,
        in_shadow: bool,
    ) -> (c: Color)
        ensures
            c == spec_lightning(*self, *object_inverse, *light, point, eyev, normalv, in_shadow),
    {
        let color = self.pattern.color_at_object(object_inverse, point);
        let effective_color = color.mul(light.intensity);
        let to_light = light.position.sub(point);
        let lightv = to_light.normalize();
        let light_dot_normal = lightv.dot(&normalv);

        let ambient = effective_color.mul_scalar(self.ambient);

        if in_shadow {
            return ambient;
        }

        let diffuse: Color;
        let specular: Color;
        if light_dot_normal < 0 {
            diffuse = Color::black();
            specular = Color::black();
        } else {
            diffuse = effective_color.mul_scalar(self.diffuse).mul_scalar(light_dot_normal);

            let reflectv = lightv.neg().reflect(normalv);
            let reflect_dot_eye = reflectv.dot(&eyev);
            if reflect_dot_eye <= 0 {
                specular = Color::black();
            } else {
                let w = floor_units(self.shininess);
                let e: u32 = if w < 0 {
                    0
                } else if w > u32::MAX as i64 {
                    u32::MAX
                } else {
                    w as u32
                };
                let factor = fx::fx_powi(reflect_dot_eye, e);
                specular = light.intensity.mul_scalar(self.specular).mul_scalar(factor);
            }
        }

        ambient.add(diffuse).add(specular)
    }
}

} // verus!

//! The scene and its path integrator: the colour of a ray, of a pixel and of
//! a frame.
//!
//! The integrator decides; the host computes. What the host computes it
//! hands over as the functions of a [`Shader`], over types of its own for
//! cameras, worlds, rays, hit records and colours. Such a function may draw
//! random numbers, so the contracts below do not name *the* colour of a ray:
//! they say which colours the integrator may return for what the host's
//! functions may return.

use vstd::prelude::*;
use crate::material::Bounce;
use crate::scalar::Scalar;
use crate::sky::Sky;

verus! {

/// The pattern of 0.001: a ray ignores what it meets before this parameter,
/// so that a bounced ray does not hit the surface it leaves.
pub const T_MIN_BITS: u64 = 0x3F50_624D_D2F1_A9FC;

/// What is rendered, and how finely: the samples averaged per pixel, the
/// bounces followed per path, the camera, the world and the sky.
#[derive(Clone, Debug)]
pub struct Scene<Cam, W> {
    pub samples: u32,
    pub bounces: u32,
    pub camera: Cam,
    pub world: W,
    pub sky: Sky,
}

/// The numeric work that the host does for the integrator.
pub struct Shader<FP, FH, FS, FK, FT, FA, FD, FZ> {
    /// The ray through a random point of a pixel's footprint, from the
    /// camera, the pixel's column and row, and the frame's width and height.
    pub primary: FP,
    /// The nearest hit of a ray on the world between two ray parameters.
    pub hit: FH,
    /// The bounce that the material hit makes of a ray and its hit.
    pub scatter: FS,
    /// The colour of the sky along a ray.
    pub sky: FK,
    /// The product of two colours, component by component.
    pub tint: FT,
    /// The sum of two colours.
    pub add: FA,
    /// A sum of colours divided by their number.
    pub average: FD,
    /// Black.
    pub zero: FZ,
}

/// Whether each function of the shader accepts every argument.
pub open spec fn callable<Cam, W, R, H, C, FP, FH, FS, FK, FT, FA, FD, FZ>(
    shader: Shader<FP, FH, FS, FK, FT, FA, FD, FZ>,
) -> bool where
    FP: Fn(&Cam, u32, u32, u32, u32) -> R,
    FH: Fn(&W, &R, Scalar, Scalar) -> Option<H>,
    FS: Fn(&R, &H) -> Bounce<C, R>,
    FK: Fn(&Sky, &R) -> C,
    FT: Fn(C, C) -> C,
    FA: Fn(C, C) -> C,
    FD: Fn(C, u32) -> C,
    FZ: Fn() -> C,
 {
    &&& forall|camera: Cam, column: u32, row: u32, width: u32, height: u32| #[trigger]
        shader.primary.requires((&camera, column, row, width, height))
    &&& forall|world: W, ray: R, tmin: Scalar, tmax: Scalar| #[trigger]
        shader.hit.requires((&world, &ray, tmin, tmax))
    &&& forall|ray: R, record: H| #[trigger] shader.scatter.requires((&ray, &record))
    &&& forall|sky: Sky, ray: R| #[trigger] shader.sky.requires((&sky, &ray))
    &&& forall|a: C, b: C| #[trigger] shader.tint.requires((a, b))
    &&& forall|a: C, b: C| #[trigger] shader.add.requires((a, b))
    &&& forall|sum: C, count: u32| #[trigger] shader.average.requires((sum, count))
    &&& shader.zero.requires(())
}

/// Whether `color` is a colour of `ray` with `depth` bounces left. With none
/// left it is black. Else the nearest hit from `T_MIN_BITS` on decides: with
/// no hit it is the sky's colour along the ray; with a hit it is what the
/// scatter says: the colour of a stop, the sky's colour along the ray of a
/// leave, and for a bounce the attenuation alone where this is the last
/// bounce allowed, else the attenuation tinting a colour of the bounced ray
/// with one bounce less.
pub open spec fn is_ray_color<Cam, W, R, H, C, FP, FH, FS, FK, FT, FA, FD, FZ>(
    scene: Scene<Cam, W>,
    shader: Shader<FP, FH, FS, FK, FT, FA, FD, FZ>,
    ray: R,
    depth: nat,
    color: C,
) -> bool where
    FP: Fn(&Cam, u32, u32, u32, u32) -> R,
    FH: Fn(&W, &R, Scalar, Scalar) -> Option<H>,
    FS: Fn(&R, &H) -> Bounce<C, R>,
    FK: Fn(&Sky, &R) -> C,
    FT: Fn(C, C) -> C,
    FA: Fn(C, C) -> C,
    FD: Fn(C, u32) -> C,
    FZ: Fn() -> C,

    decreases depth,
{
    if depth == 0 {
        shader.zero.ensures((), color)
    } else {
        exists|found: Option<H>| #[trigger]
            shader.hit.ensures(
                (&scene.world, &ray, Scalar { bits: T_MIN_BITS }, Scalar::infinity()),
                found,
            ) && match found {
                None => shader.sky.ensures((&scene.sky, &ray), color),
                Some(record) => exists|bounce: Bounce<C, R>| #[trigger]
                    shader.scatter.ensures((&ray, &record), bounce) && match bounce {
                        Bounce::Stop(c) => color == c,
                        Bounce::Sky(leaving) => shader.sky.ensures((&scene.sky, &leaving), color),
                        Bounce::Bounce(c, bounced) => if depth == 1 {
                            color == c
                        } else {
                            exists|inner: C|
                                is_ray_color(scene, shader, bounced, (depth - 1) as nat, inner)
                                    && #[trigger] shader.tint.ensures((c, inner), color)
                        },
                    },
            }
    }
}

/// Whether `total` is a sum of `count` samples of the pixel at `column` and
/// `row`: black where `count` is zero, else a sum of one sample fewer plus a
/// colour of a primary ray of the pixel, followed for the scene's bounces.
pub open spec fn is_sample_sum<Cam, W, R, H, C, FP, FH, FS, FK, FT, FA, FD, FZ>(
    scene: Scene<Cam, W>,
    shader: Shader<FP, FH, FS, FK, FT, FA, FD, FZ>,
    column: u32,
    row: u32,
    width: u32,
    height: u32,
    count: nat,
    total: C,
) -> bool where
    FP: Fn(&Cam, u32, u32, u32, u32) -> R,
    FH: Fn(&W, &R, Scalar, Scalar) -> Option<H>,
    FS: Fn(&R, &H) -> Bounce<C, R>,
    FK: Fn(&Sky, &R) -> C,
    FT: Fn(C, C) -> C,
    FA: Fn(C, C) -> C,
    FD: Fn(C, u32) -> C,
    FZ: Fn() -> C,

    decreases count,
{
    if count == 0 {
        shader.zero.ensures((), total)
    } else {
        exists|before: C, ray: R, sample: C|
            is_sample_sum(scene, shader, column, row, width, height, (count - 1) as nat, before)
                && #[trigger] shader.primary.ensures((&scene.camera, column, row, width, height), ray)
                && is_ray_color(scene, shader, ray, scene.bounces as nat, sample)
                && #[trigger] shader.add.ensures((before, sample), total)
    }
}

/// Whether `color` is a colour of the pixel at `column` and `row`: the
/// average of a sum of as many samples as the scene asks for.
pub open spec fn is_pixel_color<Cam, W, R, H, C, FP, FH, FS, FK, FT, FA, FD, FZ>(
    scene: Scene<Cam, W>,
    shader: Shader<FP, FH, FS, FK, FT, FA, FD, FZ>,
    column: u32,
    row: u32,
    width: u32,
    height: u32,
    color: C,
) -> bool where
    FP: Fn(&Cam, u32, u32, u32, u32) -> R,
    FH: Fn(&W, &R, Scalar, Scalar) -> Option<H>,
    FS: Fn(&R, &H) -> Bounce<C, R>,
    FK: Fn(&Sky, &R) -> C,
    FT: Fn(C, C) -> C,
    FA: Fn(C, C) -> C,
    FD: Fn(C, u32) -> C,
    FZ: Fn() -> C,
 {
    exists|total: C|
        is_sample_sum(scene, shader, column, row, width, height, scene.samples as nat, total)
            && #[trigger] shader.average.ensures((total, scene.samples), color)
}

/// The image row of the `k`-th row that a render produces: the top row of
/// the image, which is its highest, comes first.
pub open spec fn spec_scan_row(height: u32, k: u32) -> u32
    recommends
        k < height,
{
    (height - 1 - k) as u32
}

/// Tells which image row a render produces `k`-th.
#[verifier::when_used_as_spec(spec_scan_row)]
pub fn scan_row(height: u32, k: u32) -> (row: u32)
    requires
        k < height,
    ensures
        row == spec_scan_row(height, k),
        row < height,
{
    height - 1 - k
}

/// Whether `pixels` is a rendering of the image row `row`: one colour of
/// each pixel of the row, from the leftmost column to the rightmost.
pub open spec fn is_row<Cam, W, R, H, C, FP, FH, FS, FK, FT, FA, FD, FZ>(
    scene: Scene<Cam, W>,
    shader: Shader<FP, FH, FS, FK, FT, FA, FD, FZ>,
    row: u32,
    width: u32,
    height: u32,
    pixels: Seq<C>,
) -> bool where
    FP: Fn(&Cam, u32, u32, u32, u32) -> R,
    FH: Fn(&W, &R, Scalar, Scalar) -> Option<H>,
    FS: Fn(&R, &H) -> Bounce<C, R>,
    FK: Fn(&Sky, &R) -> C,
    FT: Fn(C, C) -> C,
    FA: Fn(C, C) -> C,
    FD: Fn(C, u32) -> C,
    FZ: Fn() -> C,
 {
    &&& pixels.len() == width
    &&& forall|column: int|
        0 <= column < width ==> is_pixel_color(
            scene,
            shader,
            column as u32,
            row,
            width,
            height,
            #[trigger] pixels[column],
        )
}

/// Whether `rows` is a rendering of the frame: one rendering of each image
/// row, the top row of the image first.
pub open spec fn is_frame<Cam, W, R, H, C, FP, FH, FS, FK, FT, FA, FD, FZ>(
    scene: Scene<Cam, W>,
    shader: Shader<FP, FH, FS, FK, FT, FA, FD, FZ>,
    width: u32,
    height: u32,
    rows: Seq<Seq<C>>,
) -> bool where
    FP: Fn(&Cam, u32, u32, u32, u32) -> R,
    FH: Fn(&W, &R, Scalar, Scalar) -> Option<H>,
    FS: Fn(&R, &H) -> Bounce<C, R>,
    FK: Fn(&Sky, &R) -> C,
    FT: Fn(C, C) -> C,
    FA: Fn(C, C) -> C,
    FD: Fn(C, u32) -> C,
    FZ: Fn() -> C,
 {
    &&& rows.len() == height
    &&& forall|k: int|
        0 <= k < height ==> is_row(
            scene,
            shader,
            scan_row(height, k as u32),
            width,
            height,
            #[trigger] rows[k],
        )
}

impl<Cam, W> Scene<Cam, W> {
    /// Replaces the world by what `map` makes of it, and keeps the rest.
    pub fn map_world<U, F: FnOnce(W) -> U>(self, map: F) -> (mapped: Scene<Cam, U>)
        requires
            map.requires((self.world,)),
        ensures
            mapped.samples == self.samples,
            mapped.bounces == self.bounces,
            mapped.camera == self.camera,
            mapped.sky == self.sky,
            map.ensures((self.world,), mapped.world),
    {
        let Scene { samples, bounces, camera, world, sky } = self;
        Scene { samples, bounces, camera, world: map(world), sky }
    }

    /// Follows a path from `ray` for at most `depth` bounces and returns its
    /// colour.
    pub fn ray_color<R, H, C, FP, FH, FS, FK, FT, FA, FD, FZ>(
        &self,
        shader: &Shader<FP, FH, FS, FK, FT, FA, FD, FZ>,
        ray: R,
        depth: u32,
    ) -> (color: C) where
        FP: Fn(&Cam, u32, u32, u32, u32) -> R,
        FH: Fn(&W, &R, Scalar, Scalar) -> Option<H>,
        FS: Fn(&R, &H) -> Bounce<C, R>,
        FK: Fn(&Sky, &R) -> C,
        FT: Fn(C, C) -> C,
        FA: Fn(C, C) -> C,
        FD: Fn(C, u32) -> C,
        FZ: Fn() -> C,

        requires
            callable(*shader),
        ensures
            is_ray_color(*self, *shader, ray, depth as nat, color),
        decreases depth,
    {
        if depth == 0 {
            return (shader.zero)();
        }
        let found = (shader.hit)(
            &self.world,
            &ray,
            Scalar::from_bits(T_MIN_BITS),
            Scalar::infinity(),
        );
        match found {
            None => (shader.sky)(&self.sky, &ray),
            Some(record) => {
                let bounce = (shader.scatter)(&ray, &record);
                match bounce {
                    Bounce::Stop(c) => c,
                    Bounce::Sky(leaving) => (shader.sky)(&self.sky, &leaving),
                    Bounce::Bounce(c, bounced) => {
                        if depth == 1 {
                            c
                        } else {
                            let inner = self.ray_color(shader, bounced, depth - 1);
                            (shader.tint)(c, inner)
                        }
                    },
                }
            },
        }
    }

    /// Samples the pixel at `column` and `row` as often as the scene asks
    /// for, each sample a path of the scene's bounces from a fresh primary
    /// ray, and returns the average.
    pub fn pixel_color<R, H, C, FP, FH, FS, FK, FT, FA, FD, FZ>(
        &self,
        shader: &Shader<FP, FH, FS, FK, FT, FA, FD, FZ>,
        column: u32,
        row: u32,
        width: u32,
        height: u32,
    ) -> (color: C) where
        FP: Fn(&Cam, u32, u32, u32, u32) -> R,
        FH: Fn(&W, &R, Scalar, Scalar) -> Option<H>,
        FS: Fn(&R, &H) -> Bounce<C, R>,
        FK: Fn(&Sky, &R) -> C,
        FT: Fn(C, C) -> C,
        FA: Fn(C, C) -> C,
        FD: Fn(C, u32) -> C,
        FZ: Fn() -> C,

        requires
            callable(*shader),
        ensures
            is_pixel_color(*self, *shader, column, row, width, height, color),
    {
        let mut total = (shader.zero)();
        let mut taken: u32 = 0;
        while taken < self.samples
            invariant
                callable(*shader),
                taken <= self.samples,
                is_sample_sum(*self, *shader, column, row, width, height, taken as nat, total),
            decreases self.samples - taken,
        {
            let ray = (shader.primary)(&self.camera, column, row, width, height);
            let sample = self.ray_color(shader, ray, self.bounces);
            total = (shader.add)(total, sample);
            taken = taken + 1;
        }
        (shader.average)(total, self.samples)
    }

    /// Renders one image row, from the leftmost column to the rightmost.
    pub fn render_row<R, H, C, FP, FH, FS, FK, FT, FA, FD, FZ>(
        &self,
        shader: &Shader<FP, FH, FS, FK, FT, FA, FD, FZ>,
        row: u32,
        width: u32,
        height: u32,
    ) -> (pixels: Vec<C>) where
        FP: Fn(&Cam, u32, u32, u32, u32) -> R,
        FH: Fn(&W, &R, Scalar, Scalar) -> Option<H>,
        FS: Fn(&R, &H) -> Bounce<C, R>,
        FK: Fn(&Sky, &R) -> C,
        FT: Fn(C, C) -> C,
        FA: Fn(C, C) -> C,
        FD: Fn(C, u32) -> C,
        FZ: Fn() -> C,

        requires
            callable(*shader),
        ensures
            is_row(*self, *shader, row, width, height, pixels@),
    {
        let mut pixels: Vec<C> = Vec::new();
        let mut column: u32 = 0;
        while column < width
            invariant
                callable(*shader),
                column <= width,
                pixels@.len() == column,
                forall|c: int|
                    0 <= c < column ==> is_pixel_color(
                        *self,
                        *shader,
                        c as u32,
                        row,
                        width,
                        height,
                        #[trigger] pixels@[c],
                    ),
            decreases width - column,
        {
            let color = self.pixel_color(shader, column, row, width, height);
            pixels.push(color);
            column = column + 1;
        }
        pixels
    }

    /// Renders the frame: its rows from the top of the image down, each from
    /// left to right.
    pub fn run<R, H, C, FP, FH, FS, FK, FT, FA, FD, FZ>(
        &self,
        shader: &Shader<FP, FH, FS, FK, FT, FA, FD, FZ>,
        width: u32,
        height: u32,
    ) -> (rows: Vec<Vec<C>>) where
        FP: Fn(&Cam, u32, u32, u32, u32) -> R,
        FH: Fn(&W, &R, Scalar, Scalar) -> Option<H>,
        FS: Fn(&R, &H) -> Bounce<C, R>,
        FK: Fn(&Sky, &R) -> C,
        FT: Fn(C, C) -> C,
        FA: Fn(C, C) -> C,
        FD: Fn(C, u32) -> C,
        FZ: Fn() -> C,

        requires
            callable(*shader),
        ensures
            is_frame(*self, *shader, width, height, rows@.map_values(|row: Vec<C>| row@)),
    {
        let mut rows: Vec<Vec<C>> = Vec::new();
        let mut k: u32 = 0;
        while k < height
            invariant
                callable(*shader),
                k <= height,
                rows@.len() == k,
                forall|n: int|
                    0 <= n < k ==> is_row(
                        *self,
                        *shader,
                        scan_row(height, n as u32),
                        width,
                        height,
                        (#[trigger] rows@[n])@,
                    ),
            decreases height - k,
        {
            let pixels = self.render_row(shader, scan_row(height, k), width, height);
            rows.push(pixels);
            k = k + 1;
        }
        proof {
            let views = rows@.map_values(|row: Vec<C>| row@);
            assert forall|n: int| 0 <= n < height implies is_row(
                *self,
                *shader,
                scan_row(height, n as u32),
                width,
                height,
                #[trigger] views[n],
            ) by {
                assert(views[n] == rows@[n]@);
            }
        }
        rows
    }
}

} // verus!

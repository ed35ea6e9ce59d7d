//! What holds of every render: laws of the integrator.

use vstd::prelude::*;
use crate::material::Bounce;
use crate::scalar::Scalar;
use crate::scene::{
    is_frame, is_ray_color, is_row, is_sample_sum, scan_row, Scene, Shader, T_MIN_BITS,
};
use crate::sky::Sky;

verus! {

/// Whether each function of the shader returns one result per argument: it
/// draws no random number and keeps no state.
pub open spec fn deterministic<Cam, W, R, H, C, FP, FH, FS, FK, FT, FA, FD, FZ>(
    shader: Shader<FP, FH, FS, FK, FT, FA, FD, FZ>,
) -> bool where
    FP: Fn(&Cam, u32, u32, u32, u32) -> R,
    FH: Fn(&W, &R, Scalar, Scalar) -> Option<H>,
    FS: Fn(&R, &H) -> Bounce<C, R>,
    FK: Fn(&Sky, &R) -> C,
    FT: Fn(C, C) -> C,
    FA: Fn(C, C) -> C,
    FD: Fn(C, u32) -> C,
    FZ: Fn() -> C,
 {
    &&& forall|camera: Cam, column: u32, row: u32, width: u32, height: u32, a: R, b: R|
        #![trigger
            shader.primary.ensures((&camera, column, row, width, height), a),
            shader.primary.ensures((&camera, column, row, width, height), b)
        ]
        shader.primary.ensures((&camera, column, row, width, height), a)
            && shader.primary.ensures((&camera, column, row, width, height), b) ==> a == b
    &&& forall|world: W, ray: R, tmin: Scalar, tmax: Scalar, a: Option<H>, b: Option<H>|
        #![trigger
            shader.hit.ensures((&world, &ray, tmin, tmax), a),
            shader.hit.ensures((&world, &ray, tmin, tmax), b)
        ]
        shader.hit.ensures((&world, &ray, tmin, tmax), a) && shader.hit.ensures(
            (&world, &ray, tmin, tmax),
            b,
        ) ==> a == b
    &&& forall|ray: R, record: H, a: Bounce<C, R>, b: Bounce<C, R>|
        #![trigger
            shader.scatter.ensures((&ray, &record), a),
            shader.scatter.ensures((&ray, &record), b)
        ]
        shader.scatter.ensures((&ray, &record), a) && shader.scatter.ensures((&ray, &record), b)
            ==> a == b
    &&& forall|sky: Sky, ray: R, a: C, b: C|
        #![trigger shader.sky.ensures((&sky, &ray), a), shader.sky.ensures((&sky, &ray), b)]
        shader.sky.ensures((&sky, &ray), a) && shader.sky.ensures((&sky, &ray), b) ==> a == b
    &&& forall|x: C, y: C, a: C, b: C|
        #![trigger shader.tint.ensures((x, y), a), shader.tint.ensures((x, y), b)]
        shader.tint.ensures((x, y), a) && shader.tint.ensures((x, y), b) ==> a == b
    &&& forall|x: C, y: C, a: C, b: C|
        #![trigger shader.add.ensures((x, y), a), shader.add.ensures((x, y), b)]
        shader.add.ensures((x, y), a) && shader.add.ensures((x, y), b) ==> a == b
    &&& forall|sum: C, count: u32, a: C, b: C|
        #![trigger shader.average.ensures((sum, count), a), shader.average.ensures((sum, count), b)]
        shader.average.ensures((sum, count), a) && shader.average.ensures((sum, count), b) ==> a
            == b
    &&& forall|a: C, b: C|
        #![trigger shader.zero.ensures((), a), shader.zero.ensures((), b)]
        shader.zero.ensures((), a) && shader.zero.ensures((), b) ==> a == b
}

/// In an empty world every path ends in the sky at once: with a bounce
/// left, a colour of a ray is the sky's colour along that very ray, however
/// many bounces the budget holds.
pub proof fn lemma_empty_world_shows_sky<Cam, W, R, H, C, FP, FH, FS, FK, FT, FA, FD, FZ>(
    scene: Scene<Cam, W>,
    shader: Shader<FP, FH, FS, FK, FT, FA, FD, FZ>,
    ray: R,
    depth: nat,
    color: C,
) where
    FP: Fn(&Cam, u32, u32, u32, u32) -> R,
    FH: Fn(&W, &R, Scalar, Scalar) -> Option<H>,
    FS: Fn(&R, &H) -> Bounce<C, R>,
    FK: Fn(&Sky, &R) -> C,
    FT: Fn(C, C) -> C,
    FA: Fn(C, C) -> C,
    FD: Fn(C, u32) -> C,
    FZ: Fn() -> C,

    requires
        depth >= 1,
        is_ray_color(scene, shader, ray, depth, color),
        forall|r: R, tmin: Scalar, tmax: Scalar, found: Option<H>| #[trigger]
            shader.hit.ensures((&scene.world, &r, tmin, tmax), found) ==> found is None,
    ensures
        shader.sky.ensures((&scene.sky, &ray), color),
{
}

/// Where every ray hits a surface that stops the path with one colour, as a
/// holdout filling the frame does, that colour is the colour of every ray,
/// whatever the budget above zero.
pub proof fn lemma_stop_gives_its_colour<Cam, W, R, H, C, FP, FH, FS, FK, FT, FA, FD, FZ>(
    scene: Scene<Cam, W>,
    shader: Shader<FP, FH, FS, FK, FT, FA, FD, FZ>,
    ray: R,
    depth: nat,
    color: C,
    albedo: C,
) where
    FP: Fn(&Cam, u32, u32, u32, u32) -> R,
    FH: Fn(&W, &R, Scalar, Scalar) -> Option<H>,
    FS: Fn(&R, &H) -> Bounce<C, R>,
    FK: Fn(&Sky, &R) -> C,
    FT: Fn(C, C) -> C,
    FA: Fn(C, C) -> C,
    FD: Fn(C, u32) -> C,
    FZ: Fn() -> C,

    requires
        depth >= 1,
        is_ray_color(scene, shader, ray, depth, color),
        forall|r: R, tmin: Scalar, tmax: Scalar, found: Option<H>| #[trigger]
            shader.hit.ensures((&scene.world, &r, tmin, tmax), found) ==> found is Some,
        forall|r: R, record: H, bounce: Bounce<C, R>| #[trigger]
            shader.scatter.ensures((&r, &record), bounce) ==> bounce == Bounce::<C, R>::Stop(albedo),
    ensures
        color == albedo,
{
}

/// The last bounce returns its attenuation alone: with one bounce left, a
/// ray that hits a surface which bounces it has the attenuation of that
/// bounce as its colour, and no light from further on is gathered.
pub proof fn lemma_last_bounce_is_attenuation<Cam, W, R, H, C, FP, FH, FS, FK, FT, FA, FD, FZ>(
    scene: Scene<Cam, W>,
    shader: Shader<FP, FH, FS, FK, FT, FA, FD, FZ>,
    ray: R,
    color: C,
    albedo: C,
) where
    FP: Fn(&Cam, u32, u32, u32, u32) -> R,
    FH: Fn(&W, &R, Scalar, Scalar) -> Option<H>,
    FS: Fn(&R, &H) -> Bounce<C, R>,
    FK: Fn(&Sky, &R) -> C,
    FT: Fn(C, C) -> C,
    FA: Fn(C, C) -> C,
    FD: Fn(C, u32) -> C,
    FZ: Fn() -> C,

    requires
        is_ray_color(scene, shader, ray, 1, color),
        forall|tmin: Scalar, tmax: Scalar, found: Option<H>| #[trigger]
            shader.hit.ensures((&scene.world, &ray, tmin, tmax), found) ==> found is Some,
        forall|record: H, bounce: Bounce<C, R>| #[trigger]
            shader.scatter.ensures((&ray, &record), bounce) ==> (bounce matches Bounce::Bounce(c, _)
                && c == albedo),
    ensures
        color == albedo,
{
}

/// Whether `total` is a sum of `count` samples of the pixel at `column` and
/// `row`, each of them a colour that is `good` for the primary ray it was
/// taken along.
pub open spec fn is_sum_where<Cam, W, R, H, C, FP, FH, FS, FK, FT, FA, FD, FZ>(
    scene: Scene<Cam, W>,
    shader: Shader<FP, FH, FS, FK, FT, FA, FD, FZ>,
    column: u32,
    row: u32,
    width: u32,
    height: u32,
    count: nat,
    total: C,
    good: spec_fn(R, C) -> bool,
) -> bool where
    FP: Fn(&Cam, u32, u32, u32, u32) -> R,
    FH: Fn(&W, &R, Scalar, Scalar) -> Option<H>,
    FS: Fn(&R, &H) -> Bounce<C, R>,
    FK: Fn(&Sky, &R) -> C,
    FT: Fn(C, C) -> C,
    FA: Fn(C, C) -> C,
    FD: Fn(C, u32) -> C,
    FZ: Fn() -> C,

    decreases count,
{
    if count == 0 {
        shader.zero.ensures((), total)
    } else {
        exists|before: C, ray: R, sample: C|
            is_sum_where(scene, shader, column, row, width, height, (count - 1) as nat, before, good)
                && #[trigger] shader.primary.ensures((&scene.camera, column, row, width, height), ray)
                && good(ray, sample) && #[trigger] shader.add.ensures((before, sample), total)
    }
}

/// What holds of every colour of every ray holds of every sample of every
/// pixel: a pixel sums nothing but colours of its primary rays, followed for
/// the scene's bounces.
pub proof fn lemma_samples_are_ray_colours<Cam, W, R, H, C, FP, FH, FS, FK, FT, FA, FD, FZ>(
    scene: Scene<Cam, W>,
    shader: Shader<FP, FH, FS, FK, FT, FA, FD, FZ>,
    column: u32,
    row: u32,
    width: u32,
    height: u32,
    count: nat,
    total: C,
    good: spec_fn(R, C) -> bool,
) where
    FP: Fn(&Cam, u32, u32, u32, u32) -> R,
    FH: Fn(&W, &R, Scalar, Scalar) -> Option<H>,
    FS: Fn(&R, &H) -> Bounce<C, R>,
    FK: Fn(&Sky, &R) -> C,
    FT: Fn(C, C) -> C,
    FA: Fn(C, C) -> C,
    FD: Fn(C, u32) -> C,
    FZ: Fn() -> C,

    requires
        is_sample_sum(scene, shader, column, row, width, height, count, total),
        forall|ray: R, color: C| #[trigger]
            is_ray_color(scene, shader, ray, scene.bounces as nat, color) ==> good(ray, color),
    ensures
        is_sum_where(scene, shader, column, row, width, height, count, total, good),
    decreases count,
{
    if count > 0 {
        let (before, ray, sample) = choose|before: C, ray: R, sample: C|
            is_sample_sum(scene, shader, column, row, width, height, (count - 1) as nat, before)
                && #[trigger] shader.primary.ensures((&scene.camera, column, row, width, height), ray)
                && is_ray_color(scene, shader, ray, scene.bounces as nat, sample)
                && #[trigger] shader.add.ensures((before, sample), total);
        lemma_samples_are_ray_colours(
            scene,
            shader,
            column,
            row,
            width,
            height,
            (count - 1) as nat,
            before,
            good,
        );
    }
}

/// A pixel of an empty world sums the sky's colours along its primary rays
/// and nothing else, whatever the count of samples and the budget of
/// bounces above zero.
pub proof fn lemma_empty_world_samples_sky<Cam, W, R, H, C, FP, FH, FS, FK, FT, FA, FD, FZ>(
    scene: Scene<Cam, W>,
    shader: Shader<FP, FH, FS, FK, FT, FA, FD, FZ>,
    column: u32,
    row: u32,
    width: u32,
    height: u32,
    count: nat,
    total: C,
) where
    FP: Fn(&Cam, u32, u32, u32, u32) -> R,
    FH: Fn(&W, &R, Scalar, Scalar) -> Option<H>,
    FS: Fn(&R, &H) -> Bounce<C, R>,
    FK: Fn(&Sky, &R) -> C,
    FT: Fn(C, C) -> C,
    FA: Fn(C, C) -> C,
    FD: Fn(C, u32) -> C,
    FZ: Fn() -> C,

    requires
        scene.bounces >= 1,
        is_sample_sum(scene, shader, column, row, width, height, count, total),
        forall|r: R, tmin: Scalar, tmax: Scalar, found: Option<H>| #[trigger]
            shader.hit.ensures((&scene.world, &r, tmin, tmax), found) ==> found is None,
    ensures
        is_sum_where(
            scene,
            shader,
            column,
            row,
            width,
            height,
            count,
            total,
            |ray: R, color: C| shader.sky.ensures((&scene.sky, &ray), color),
        ),
{
    let good = |ray: R, color: C| shader.sky.ensures((&scene.sky, &ray), color);
    assert forall|ray: R, color: C| #[trigger]
        is_ray_color(scene, shader, ray, scene.bounces as nat, color) implies good(ray, color) by {
        lemma_empty_world_shows_sky(scene, shader, ray, scene.bounces as nat, color);
    }
    lemma_samples_are_ray_colours(scene, shader, column, row, width, height, count, total, good);
}

/// The integrator adds no chance of its own: with a deterministic shader a
/// ray has one colour.
pub proof fn lemma_ray_color_is_unique<Cam, W, R, H, C, FP, FH, FS, FK, FT, FA, FD, FZ>(
    scene: Scene<Cam, W>,
    shader: Shader<FP, FH, FS, FK, FT, FA, FD, FZ>,
    ray: R,
    depth: nat,
    first: C,
    second: C,
) where
    FP: Fn(&Cam, u32, u32, u32, u32) -> R,
    FH: Fn(&W, &R, Scalar, Scalar) -> Option<H>,
    FS: Fn(&R, &H) -> Bounce<C, R>,
    FK: Fn(&Sky, &R) -> C,
    FT: Fn(C, C) -> C,
    FA: Fn(C, C) -> C,
    FD: Fn(C, u32) -> C,
    FZ: Fn() -> C,

    requires
        deterministic(shader),
        is_ray_color(scene, shader, ray, depth, first),
        is_ray_color(scene, shader, ray, depth, second),
    ensures
        first == second,
    decreases depth,
{
    if depth >= 2 {
        let tmin = Scalar { bits: T_MIN_BITS };
        let tmax = Scalar::infinity();
        let found = choose|found: Option<H>| #[trigger]
            shader.hit.ensures((&scene.world, &ray, tmin, tmax), found);
        if let Some(record) = found {
            let bounce = choose|bounce: Bounce<C, R>| #[trigger]
                shader.scatter.ensures((&ray, &record), bounce);
            if let Bounce::Bounce(c, bounced) = bounce {
                let inner_first = choose|inner: C|
                    is_ray_color(scene, shader, bounced, (depth - 1) as nat, inner)
                        && #[trigger] shader.tint.ensures((c, inner), first);
                let inner_second = choose|inner: C|
                    is_ray_color(scene, shader, bounced, (depth - 1) as nat, inner)
                        && #[trigger] shader.tint.ensures((c, inner), second);
                lemma_ray_color_is_unique(
                    scene,
                    shader,
                    bounced,
                    (depth - 1) as nat,
                    inner_first,
                    inner_second,
                );
            }
        }
    }
}

/// With a deterministic shader the samples of a pixel have one sum.
pub proof fn lemma_sample_sum_is_unique<Cam, W, R, H, C, FP, FH, FS, FK, FT, FA, FD, FZ>(
    scene: Scene<Cam, W>,
    shader: Shader<FP, FH, FS, FK, FT, FA, FD, FZ>,
    column: u32,
    row: u32,
    width: u32,
    height: u32,
    count: nat,
    first: C,
    second: C,
) where
    FP: Fn(&Cam, u32, u32, u32, u32) -> R,
    FH: Fn(&W, &R, Scalar, Scalar) -> Option<H>,
    FS: Fn(&R, &H) -> Bounce<C, R>,
    FK: Fn(&Sky, &R) -> C,
    FT: Fn(C, C) -> C,
    FA: Fn(C, C) -> C,
    FD: Fn(C, u32) -> C,
    FZ: Fn() -> C,

    requires
        deterministic(shader),
        is_sample_sum(scene, shader, column, row, width, height, count, first),
        is_sample_sum(scene, shader, column, row, width, height, count, second),
    ensures
        first == second,
    decreases count,
{
    if count > 0 {
        let (before1, ray1, sample1) = choose|before: C, ray: R, sample: C|
            is_sample_sum(scene, shader, column, row, width, height, (count - 1) as nat, before)
                && #[trigger] shader.primary.ensures((&scene.camera, column, row, width, height), ray)
                && is_ray_color(scene, shader, ray, scene.bounces as nat, sample)
                && #[trigger] shader.add.ensures((before, sample), first);
        let (before2, ray2, sample2) = choose|before: C, ray: R, sample: C|
            is_sample_sum(scene, shader, column, row, width, height, (count - 1) as nat, before)
                && #[trigger] shader.primary.ensures((&scene.camera, column, row, width, height), ray)
                && is_ray_color(scene, shader, ray, scene.bounces as nat, sample)
                && #[trigger] shader.add.ensures((before, sample), second);
        lemma_sample_sum_is_unique(
            scene,
            shader,
            column,
            row,
            width,
            height,
            (count - 1) as nat,
            before1,
            before2,
        );
        lemma_ray_color_is_unique(scene, shader, ray1, scene.bounces as nat, sample1, sample2);
    }
}

/// With a deterministic shader an image row has one rendering.
pub proof fn lemma_row_is_unique<Cam, W, R, H, C, FP, FH, FS, FK, FT, FA, FD, FZ>(
    scene: Scene<Cam, W>,
    shader: Shader<FP, FH, FS, FK, FT, FA, FD, FZ>,
    row: u32,
    width: u32,
    height: u32,
    first: Seq<C>,
    second: Seq<C>,
) where
    FP: Fn(&Cam, u32, u32, u32, u32) -> R,
    FH: Fn(&W, &R, Scalar, Scalar) -> Option<H>,
    FS: Fn(&R, &H) -> Bounce<C, R>,
    FK: Fn(&Sky, &R) -> C,
    FT: Fn(C, C) -> C,
    FA: Fn(C, C) -> C,
    FD: Fn(C, u32) -> C,
    FZ: Fn() -> C,

    requires
        deterministic(shader),
        is_row(scene, shader, row, width, height, first),
        is_row(scene, shader, row, width, height, second),
    ensures
        first == second,
{
    assert forall|column: int| 0 <= column < width implies first[column] == second[column] by {
        let total1 = choose|total: C|
            is_sample_sum(
                scene,
                shader,
                column as u32,
                row,
                width,
                height,
                scene.samples as nat,
                total,
            ) && #[trigger] shader.average.ensures((total, scene.samples), first[column]);
        let total2 = choose|total: C|
            is_sample_sum(
                scene,
                shader,
                column as u32,
                row,
                width,
                height,
                scene.samples as nat,
                total,
            ) && #[trigger] shader.average.ensures((total, scene.samples), second[column]);
        lemma_sample_sum_is_unique(
            scene,
            shader,
            column as u32,
            row,
            width,
            height,
            scene.samples as nat,
            total1,
            total2,
        );
    }
}

/// Rendering twice gives the same picture: with a deterministic shader a
/// scene has one rendering at each size.
pub proof fn lemma_render_is_repeatable<Cam, W, R, H, C, FP, FH, FS, FK, FT, FA, FD, FZ>(
    scene: Scene<Cam, W>,
    shader: Shader<FP, FH, FS, FK, FT, FA, FD, FZ>,
    width: u32,
    height: u32,
    first: Seq<Seq<C>>,
    second: Seq<Seq<C>>,
) where
    FP: Fn(&Cam, u32, u32, u32, u32) -> R,
    FH: Fn(&W, &R, Scalar, Scalar) -> Option<H>,
    FS: Fn(&R, &H) -> Bounce<C, R>,
    FK: Fn(&Sky, &R) -> C,
    FT: Fn(C, C) -> C,
    FA: Fn(C, C) -> C,
    FD: Fn(C, u32) -> C,
    FZ: Fn() -> C,

    requires
        deterministic(shader),
        is_frame(scene, shader, width, height, first),
        is_frame(scene, shader, width, height, second),
    ensures
        first == second,
{
    assert forall|k: int| 0 <= k < height implies first[k] == second[k] by {
        lemma_row_is_unique(
            scene,
            shader,
            scan_row(height, k as u32),
            width,
            height,
            first[k],
            second[k],
        );
    }
    assert(first =~= second);
}

} // verus!

//! Collision detection helpers for rotated rectangles, in fixed point.
//!
//! Positions and sizes are in world units. A rotation is the pair of its
//! cosine and sine, each times `ROTATION_ONE`. No function here divides, so
//! none rounds: a point that a rotation has been applied to is kept in finer
//! units instead. The corners of a rectangle are in sub-units, of which a
//! world unit has `ROTATION_ONE`; a point in the local space of a rectangle is
//! in local units, of which a world unit has `LOCAL_ONE`.

use vstd::prelude::*;

verus! {

/// The value that stands for a cosine or sine of one.
pub const ROTATION_ONE: i16 = 10_000;

/// How many local units make one world unit: `ROTATION_ONE` squared.
pub const LOCAL_ONE: i128 = 100_000_000;

/// A point or a displacement in world units.
#[derive(Clone, Copy, PartialEq, Eq, Debug, Structural)]
pub struct Vec2 {
    pub x: i32,
    pub y: i32,
}

/// A rotation about the axis that points out of the plane: its cosine and
/// sine, each times `ROTATION_ONE`.
#[derive(Clone, Copy, PartialEq, Eq, Debug, Structural)]
pub struct Rotation {
    pub cos: i16,
    pub sin: i16,
}

/// The pose of a rectangle: where its centre is, and how it is turned.
#[derive(Clone, Copy, PartialEq, Eq, Debug, Structural)]
pub struct Transform {
    pub translation: Vec2,
    pub rotation: Rotation,
}

/// A point of the world in sub-units.
#[derive(Clone, Copy, PartialEq, Eq, Debug, Structural)]
pub struct WorldPoint {
    pub x: i64,
    pub y: i64,
}

/// A point in the local space of a rectangle, in local units.
#[derive(Clone, Copy, PartialEq, Eq, Debug, Structural)]
pub struct LocalPoint {
    pub x: i128,
    pub y: i128,
}

impl View for WorldPoint {
    type V = (int, int);

    open spec fn view(&self) -> (int, int) {
        (self.x as int, self.y as int)
    }
}

impl View for LocalPoint {
    type V = (int, int);

    open spec fn view(&self) -> (int, int) {
        (self.x as int, self.y as int)
    }
}

impl Rotation {
    /// The rotation that turns nothing.
    pub fn identity() -> (rotation: Rotation)
        ensures
            rotation.cos == ROTATION_ONE,
            rotation.sin == 0,
    {
        Rotation { cos: ROTATION_ONE, sin: 0 }
    }

    /// The square of the rotation's length; `ROTATION_ONE` squared for a
    /// rotation that does not stretch.
    pub open spec fn norm_squared(self) -> int {
        self.cos * self.cos + self.sin * self.sin
    }

    /// The vector `v` turned by the rotation, times `ROTATION_ONE`.
    pub open spec fn apply(self, v: (int, int)) -> (int, int) {
        (self.cos * v.0 - self.sin * v.1, self.sin * v.0 + self.cos * v.1)
    }

    /// The vector `v` turned back by the rotation, times `ROTATION_ONE`.
    pub open spec fn apply_inverse(self, v: (int, int)) -> (int, int) {
        (self.cos * v.0 + self.sin * v.1, self.cos * v.1 - self.sin * v.0)
    }
}

impl Transform {
    /// The pose at `(x, y)` that is not turned.
    pub fn from_xy(x: i32, y: i32) -> (transform: Transform)
        ensures
            transform.translation == (Vec2 { x, y }),
            transform.rotation.cos == ROTATION_ONE,
            transform.rotation.sin == 0,
    {
        Transform { translation: Vec2 { x, y }, rotation: Rotation::identity() }
    }

    /// The same pose, turned by `rotation` instead.
    pub fn with_rotation(self, rotation: Rotation) -> (transform: Transform)
        ensures
            transform.translation == self.translation,
            transform.rotation == rotation,
    {
        Transform { translation: self.translation, rotation }
    }

    /// Where the point `local`, given in world units relative to the centre,
    /// lies in the world, in sub-units.
    pub open spec fn local_to_world(self, local: (int, int)) -> (int, int) {
        let turned = self.rotation.apply(local);
        (self.translation.x * ROTATION_ONE + turned.0, self.translation.y * ROTATION_ONE + turned.1)
    }

    /// Where the point `world`, given in sub-units, lies relative to the
    /// rectangle, in local units.
    pub open spec fn world_to_local(self, world: (int, int)) -> (int, int) {
        self.rotation.apply_inverse(
            (world.0 - self.translation.x * ROTATION_ONE, world.1 - self.translation.y * ROTATION_ONE),
        )
    }
}

/// The corner with index `index` of a rectangle with the given half extents,
/// relative to its centre: front-left, front-right, back-right, back-left.
pub open spec fn local_corner(index: int, half_width: int, half_height: int) -> (int, int) {
    if index == 0 {
        (-half_width, half_height)
    } else if index == 1 {
        (half_width, half_height)
    } else if index == 2 {
        (half_width, -half_height)
    } else {
        (-half_width, -half_height)
    }
}

/// The product of two bounded numbers is bounded by the product of the bounds.
pub proof fn lemma_product_bound(a: int, b: int, bound_a: int, bound_b: int)
    requires
        -bound_a <= a <= bound_a,
        -bound_b <= b <= bound_b,
    ensures
        -(bound_a * bound_b) <= a * b <= bound_a * bound_b,
{
    assert(-(bound_a * bound_b) <= a * b <= bound_a * bound_b) by (nonlinear_arith)
        requires
            -bound_a <= a <= bound_a,
            -bound_b <= b <= bound_b,
    ;
}

/// One corner of a rectangle in world space.
fn rect_corner(transform: &Transform, local_x: i64, local_y: i64) -> (corner: WorldPoint)
    requires
        -0x8000_0000 <= local_x <= 0x8000_0000,
        -0x8000_0000 <= local_y <= 0x8000_0000,
    ensures
        corner@ == transform.local_to_world((local_x as int, local_y as int)),
{
    let cos = transform.rotation.cos as i64;
    let sin = transform.rotation.sin as i64;
    let x = transform.translation.x as i64;
    let y = transform.translation.y as i64;
    proof {
        lemma_product_bound(cos as int, local_x as int, 0x8000, 0x8000_0000);
        lemma_product_bound(sin as int, local_y as int, 0x8000, 0x8000_0000);
        lemma_product_bound(sin as int, local_x as int, 0x8000, 0x8000_0000);
        lemma_product_bound(cos as int, local_y as int, 0x8000, 0x8000_0000);
        assert(0x8000 * 0x8000_0000 == 0x4000_0000_0000int);
        lemma_product_bound(x as int, ROTATION_ONE as int, 0x8000_0000, 10_000);
        lemma_product_bound(y as int, ROTATION_ONE as int, 0x8000_0000, 10_000);
        assert(0x8000_0000 * 10_000 == 21_474_836_480_000int);
    }
    WorldPoint {
        x: x * (ROTATION_ONE as i64) + cos * local_x - sin * local_y,
        y: y * (ROTATION_ONE as i64) + sin * local_x + cos * local_y,
    }
}

/// Get the four corners of a rectangle in world space based on its transform,
/// in sub-units. Returns corners in order: front-left, front-right,
/// back-right, back-left. Their centroid is the centre of the rectangle.
pub fn get_rect_corners(transform: &Transform, half_width: i32, half_height: i32) -> (corners: [WorldPoint; 4])
    ensures
        forall|i: int|
            0 <= i < 4 ==> (#[trigger] corners[i])@ == transform.local_to_world(
                local_corner(i, half_width as int, half_height as int),
            ),
        corners[0].x + corners[1].x + corners[2].x + corners[3].x == 4 * (transform.translation.x
            * ROTATION_ONE),
        corners[0].y + corners[1].y + corners[2].y + corners[3].y == 4 * (transform.translation.y
            * ROTATION_ONE),
{
    let w = half_width as i64;
    let h = half_height as i64;
    let front_left = rect_corner(transform, -w, h);
    let front_right = rect_corner(transform, w, h);
    let back_right = rect_corner(transform, w, -h);
    let back_left = rect_corner(transform, -w, -h);
    proof {
        let c = transform.rotation.cos as int;
        let s = transform.rotation.sin as int;
        let wi = w as int;
        let hi = h as int;
        assert(c * (-wi) == -(c * wi)) by (nonlinear_arith);
        assert(s * (-wi) == -(s * wi)) by (nonlinear_arith);
        assert(c * (-hi) == -(c * hi)) by (nonlinear_arith);
        assert(s * (-hi) == -(s * hi)) by (nonlinear_arith);
    }
    [front_left, front_right, back_right, back_left]
}

/// Transform a world-space point, given in sub-units, to local coordinates
/// relative to a transform, in local units.
pub fn world_to_local_2d(transform: &Transform, world_point: WorldPoint) -> (local: LocalPoint)
    ensures
        local@ == transform.world_to_local(world_point@),
{
    let cos = transform.rotation.cos as i128;
    let sin = transform.rotation.sin as i128;
    proof {
        lemma_product_bound(transform.translation.x as int, ROTATION_ONE as int, 0x8000_0000, 10_000);
        lemma_product_bound(transform.translation.y as int, ROTATION_ONE as int, 0x8000_0000, 10_000);
        assert(0x8000_0000 * 10_000 == 21_474_836_480_000int);
    }
    let dx: i128 = world_point.x as i128 - (transform.translation.x as i128) * (ROTATION_ONE as i128);
    let dy: i128 = world_point.y as i128 - (transform.translation.y as i128) * (ROTATION_ONE as i128);
    proof {
        lemma_product_bound(cos as int, dx as int, 0x8000, 0x1_0000_0000_0000_0000);
        lemma_product_bound(sin as int, dy as int, 0x8000, 0x1_0000_0000_0000_0000);
        lemma_product_bound(cos as int, dy as int, 0x8000, 0x1_0000_0000_0000_0000);
        lemma_product_bound(sin as int, dx as int, 0x8000, 0x1_0000_0000_0000_0000);
        assert(0x8000 * 0x1_0000_0000_0000_0000 == 0x8000_0000_0000_0000_0000int);
    }
    LocalPoint { x: cos * dx + sin * dy, y: cos * dy - sin * dx }
}

/// Turning a vector back and then forward again gives the vector, times the
/// square of the rotation's length.
pub proof fn lemma_rotation_round_trip(rotation: Rotation, v: (int, int))
    ensures
        rotation.apply(rotation.apply_inverse(v)) == (
            rotation.norm_squared() * v.0,
            rotation.norm_squared() * v.1,
        ),
{
    let c = rotation.cos as int;
    let s = rotation.sin as int;
    assert(c * (c * v.0 + s * v.1) - s * (c * v.1 - s * v.0) == (c * c + s * s) * v.0)
        by (nonlinear_arith);
    assert(s * (c * v.0 + s * v.1) + c * (c * v.1 - s * v.0) == (c * c + s * s) * v.1)
        by (nonlinear_arith);
}

/// World to local and forward again, for every pose: turning the local
/// point of a world point forward gives the world point relative to the
/// centre, times the square of the rotation's length. For a rotation that
/// does not stretch that factor is `LOCAL_ONE`, and the point comes back as it
/// was, in local units.
pub proof fn lemma_world_local_round_trip(transform: Transform, world: (int, int))
    ensures
        transform.rotation.apply(transform.world_to_local(world)) == (
            transform.rotation.norm_squared() * (world.0 - transform.translation.x * ROTATION_ONE),
            transform.rotation.norm_squared() * (world.1 - transform.translation.y * ROTATION_ONE),
        ),
{
    let dx = world.0 - transform.translation.x * ROTATION_ONE;
    let dy = world.1 - transform.translation.y * ROTATION_ONE;
    lemma_rotation_round_trip(transform.rotation, (dx, dy));
}

/// Whether a local point lies in the rectangle around the origin with the
/// given half extents, its border included.
pub open spec fn point_in_rect(local: (int, int), half_width: int, half_height: int) -> bool {
    &&& -half_width * LOCAL_ONE <= local.0 <= half_width * LOCAL_ONE
    &&& -half_height * LOCAL_ONE <= local.1 <= half_height * LOCAL_ONE
}

/// Check if a point (in local space) is inside an axis-aligned rectangle. The
/// rectangle is centered at the origin with the given half-dimensions, in
/// world units.
pub fn is_point_in_rect(local_pos: LocalPoint, half_width: i32, half_height: i32) -> (inside: bool)
    ensures
        inside == point_in_rect(local_pos@, half_width as int, half_height as int),
{
    let bound_x: i128 = (half_width as i128) * LOCAL_ONE;
    let bound_y: i128 = (half_height as i128) * LOCAL_ONE;
    -bound_x <= local_pos.x && local_pos.x <= bound_x && -bound_y <= local_pos.y && local_pos.y
        <= bound_y
}

/// Whether some corner of the first rectangle lies in the second.
pub open spec fn some_corner_inside(
    transform_a: Transform,
    half_width_a: int,
    half_height_a: int,
    transform_b: Transform,
    half_width_b: int,
    half_height_b: int,
) -> bool {
    exists|i: int|
        0 <= i < 4 && point_in_rect(
            transform_b.world_to_local(
                transform_a.local_to_world(#[trigger] local_corner(i, half_width_a, half_height_a)),
            ),
            half_width_b,
            half_height_b,
        )
}

/// Whether two rectangles collide: a corner of one lies in the other.
pub open spec fn obb_collision(
    transform_a: Transform,
    half_width_a: int,
    half_height_a: int,
    transform_b: Transform,
    half_width_b: int,
    half_height_b: int,
) -> bool {
    ||| some_corner_inside(
        transform_a,
        half_width_a,
        half_height_a,
        transform_b,
        half_width_b,
        half_height_b,
    )
    ||| some_corner_inside(
        transform_b,
        half_width_b,
        half_height_b,
        transform_a,
        half_width_a,
        half_height_a,
    )
}

/// Whether any of the corners of rectangle A lies inside rectangle B.
fn any_corner_inside(
    transform_a: &Transform,
    half_width_a: i32,
    half_height_a: i32,
    transform_b: &Transform,
    half_width_b: i32,
    half_height_b: i32,
) -> (inside: bool)
    ensures
        inside == some_corner_inside(
            *transform_a,
            half_width_a as int,
            half_height_a as int,
            *transform_b,
            half_width_b as int,
            half_height_b as int,
        ),
{
    let corners = get_rect_corners(transform_a, half_width_a, half_height_a);
    let mut i: usize = 0;
    while i < 4
        invariant
            i <= 4,
            forall|k: int|
                0 <= k < 4 ==> (#[trigger] corners[k])@ == transform_a.local_to_world(
                    local_corner(k, half_width_a as int, half_height_a as int),
                ),
            forall|k: int|
                0 <= k < i ==> !point_in_rect(
                    transform_b.world_to_local(
                        transform_a.local_to_world(
                            #[trigger] local_corner(k, half_width_a as int, half_height_a as int),
                        ),
                    ),
                    half_width_b as int,
                    half_height_b as int,
                ),
        decreases 4 - i,
    {
        let local = world_to_local_2d(transform_b, corners[i]);
        if is_point_in_rect(local, half_width_b, half_height_b) {
            assert(corners[i as int]@ == transform_a.local_to_world(
                local_corner(i as int, half_width_a as int, half_height_a as int),
            ));
            return true;
        }
        i = i + 1;
    }
    false
}

/// Check collision between two oriented bounding boxes (rotated rectangles).
/// Uses a point-in-box approach: checks if any corner of rectangle A is
/// inside rectangle B, and vice versa. Rectangles that overlap without a
/// corner of one inside the other are not found.
pub fn check_obb_collision(
    transform_a: &Transform,
    half_width_a: i32,
    half_height_a: i32,
    transform_b: &Transform,
    half_width_b: i32,
    half_height_b: i32,
) -> (collide: bool)
    ensures
        collide == obb_collision(
            *transform_a,
            half_width_a as int,
            half_height_a as int,
            *transform_b,
            half_width_b as int,
            half_height_b as int,
        ),
{
    if any_corner_inside(
        transform_a,
        half_width_a,
        half_height_a,
        transform_b,
        half_width_b,
        half_height_b,
    ) {
        return true;
    }
    any_corner_inside(transform_b, half_width_b, half_height_b, transform_a, half_width_a, half_height_a)
}

} // verus!

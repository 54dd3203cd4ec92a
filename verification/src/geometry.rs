//! Lattice vectors, the rotations that keep the lattice, and axis-aligned extents.

use vstd::prelude::*;

verus! {

/// A vector with mathematical integer components: the model of [`Vec3`].
pub struct Vector {
    pub x: int,
    pub y: int,
    pub z: int,
}

/// A vector with machine integer components.
#[derive(Clone, Copy, PartialEq, Eq, Debug, Structural)]
pub struct Vec3 {
    pub x: i64,
    pub y: i64,
    pub z: i64,
}

/// One of the three coordinate axes.
#[derive(Clone, Copy, PartialEq, Eq, Debug, Structural)]
pub enum Axis {
    X,
    Y,
    Z,
}

/// One of the six directions along the coordinate axes.
#[derive(Clone, Copy, PartialEq, Eq, Debug, Structural)]
pub enum Direction {
    PosX,
    NegX,
    PosY,
    NegY,
    PosZ,
    NegZ,
}

impl Vector {
    pub open spec fn new(x: int, y: int, z: int) -> Vector {
        Vector { x, y, z }
    }

    /// The component along `axis`.
    pub open spec fn along(self, axis: Axis) -> int {
        match axis {
            Axis::X => self.x,
            Axis::Y => self.y,
            Axis::Z => self.z,
        }
    }

    pub open spec fn plus(self, other: Vector) -> Vector {
        Vector { x: self.x + other.x, y: self.y + other.y, z: self.z + other.z }
    }

    pub open spec fn minus(self, other: Vector) -> Vector {
        Vector { x: self.x - other.x, y: self.y - other.y, z: self.z - other.z }
    }

    pub open spec fn times(self, factor: int) -> Vector {
        Vector { x: factor * self.x, y: factor * self.y, z: factor * self.z }
    }

    /// The scalar product.
    pub open spec fn dot(self, other: Vector) -> int {
        self.x * other.x + self.y * other.y + self.z * other.z
    }

    /// The vector product.
    pub open spec fn cross(self, other: Vector) -> Vector {
        Vector {
            x: self.y * other.z - self.z * other.y,
            y: self.z * other.x - self.x * other.z,
            z: self.x * other.y - self.y * other.x,
        }
    }

    /// Every component has magnitude at most `bound`.
    pub open spec fn within(self, bound: int) -> bool {
        &&& -bound <= self.x <= bound
        &&& -bound <= self.y <= bound
        &&& -bound <= self.z <= bound
    }

    /// Every component has magnitude at most the same component of `size`.
    pub open spec fn within_box(self, size: Vector) -> bool {
        &&& -size.x <= self.x <= size.x
        &&& -size.y <= self.y <= size.y
        &&& -size.z <= self.z <= size.z
    }

    /// Every component is at most the same component of `other`.
    pub open spec fn le(self, other: Vector) -> bool {
        self.x <= other.x && self.y <= other.y && self.z <= other.z
    }

    /// Every component is below the same component of `other`.
    pub open spec fn lt(self, other: Vector) -> bool {
        self.x < other.x && self.y < other.y && self.z < other.z
    }
}

impl View for Vec3 {
    type V = Vector;

    open spec fn view(&self) -> Vector {
        Vector { x: self.x as int, y: self.y as int, z: self.z as int }
    }
}

impl Vec3 {
    pub fn new(x: i64, y: i64, z: i64) -> (v: Vec3)
        ensures
            v == (Vec3 { x, y, z }),
    {
        Vec3 { x, y, z }
    }

    pub fn component(&self, axis: Axis) -> (c: i64)
        ensures
            c == self@.along(axis),
    {
        match axis {
            Axis::X => self.x,
            Axis::Y => self.y,
            Axis::Z => self.z,
        }
    }
}

impl Direction {
    pub open spec fn axis(self) -> Axis {
        match self {
            Direction::PosX | Direction::NegX => Axis::X,
            Direction::PosY | Direction::NegY => Axis::Y,
            Direction::PosZ | Direction::NegZ => Axis::Z,
        }
    }

    pub open spec fn is_positive(self) -> bool {
        self == Direction::PosX || self == Direction::PosY || self == Direction::PosZ
    }

    /// The direction along `axis` with the given sign.
    pub open spec fn along(axis: Axis, positive: bool) -> Direction {
        match axis {
            Axis::X => if positive { Direction::PosX } else { Direction::NegX },
            Axis::Y => if positive { Direction::PosY } else { Direction::NegY },
            Axis::Z => if positive { Direction::PosZ } else { Direction::NegZ },
        }
    }

    pub open spec fn opposite(self) -> Direction {
        Direction::along(self.axis(), !self.is_positive())
    }

    /// The vector of the given length that points this way.
    pub open spec fn scaled(self, length: int) -> Vector {
        let l = if self.is_positive() { length } else { -length };
        match self.axis() {
            Axis::X => Vector { x: l, y: 0, z: 0 },
            Axis::Y => Vector { x: 0, y: l, z: 0 },
            Axis::Z => Vector { x: 0, y: 0, z: l },
        }
    }

    /// The unit vector that points this way.
    pub open spec fn unit(self) -> Vector {
        self.scaled(1)
    }

    /// The vector product of two directions on different axes.
    pub open spec fn cross(self, other: Direction) -> Direction
        recommends
            self.axis() != other.axis(),
    {
        let cyclic = match (self.axis(), other.axis()) {
            (Axis::X, Axis::Y) | (Axis::Y, Axis::Z) | (Axis::Z, Axis::X) => true,
            _ => false,
        };
        let third = match (self.axis(), other.axis()) {
            (Axis::X, Axis::Y) | (Axis::Y, Axis::X) => Axis::Z,
            (Axis::Y, Axis::Z) | (Axis::Z, Axis::Y) => Axis::X,
            _ => Axis::Y,
        };
        Direction::along(third, cyclic == (self.is_positive() == other.is_positive()))
    }

    pub fn get_axis(&self) -> (a: Axis)
        ensures
            a == self.axis(),
    {
        match self {
            Direction::PosX | Direction::NegX => Axis::X,
            Direction::PosY | Direction::NegY => Axis::Y,
            Direction::PosZ | Direction::NegZ => Axis::Z,
        }
    }

    pub fn positive(&self) -> (p: bool)
        ensures
            p == self.is_positive(),
    {
        match self {
            Direction::PosX | Direction::PosY | Direction::PosZ => true,
            _ => false,
        }
    }

    pub fn on_axis(axis: Axis, positive: bool) -> (d: Direction)
        ensures
            d == Direction::along(axis, positive),
    {
        match axis {
            Axis::X => if positive { Direction::PosX } else { Direction::NegX },
            Axis::Y => if positive { Direction::PosY } else { Direction::NegY },
            Axis::Z => if positive { Direction::PosZ } else { Direction::NegZ },
        }
    }

    pub fn reversed(&self) -> (d: Direction)
        ensures
            d == self.opposite(),
    {
        Direction::on_axis(self.get_axis(), !self.positive())
    }

    pub fn to_unit(&self) -> (v: Vec3)
        ensures
            v@ == self.unit(),
    {
        match self {
            Direction::PosX => Vec3 { x: 1, y: 0, z: 0 },
            Direction::NegX => Vec3 { x: -1, y: 0, z: 0 },
            Direction::PosY => Vec3 { x: 0, y: 1, z: 0 },
            Direction::NegY => Vec3 { x: 0, y: -1, z: 0 },
            Direction::PosZ => Vec3 { x: 0, y: 0, z: 1 },
            Direction::NegZ => Vec3 { x: 0, y: 0, z: -1 },
        }
    }

    pub fn cross_with(&self, other: Direction) -> (d: Direction)
        requires
            self.axis() != other.axis(),
        ensures
            d == self.cross(other),
    {
        let a: Axis = self.get_axis();
        let b: Axis = other.get_axis();
        let cyclic: bool = match (a, b) {
            (Axis::X, Axis::Y) | (Axis::Y, Axis::Z) | (Axis::Z, Axis::X) => true,
            _ => false,
        };
        let third: Axis = match (a, b) {
            (Axis::X, Axis::Y) | (Axis::Y, Axis::X) => Axis::Z,
            (Axis::Y, Axis::Z) | (Axis::Z, Axis::Y) => Axis::X,
            _ => Axis::Y,
        };
        Direction::on_axis(third, cyclic == (self.positive() == other.positive()))
    }
}

/// A rotation that maps the lattice onto itself, given by the directions into
/// which it turns the three coordinate axes.
#[derive(Clone, Copy, PartialEq, Eq, Debug, Structural)]
pub struct Rotation {
    pub x_image: Direction,
    pub y_image: Direction,
    pub z_image: Direction,
}

impl Rotation {
    /// The images of the axes are mutually orthogonal and right-handed.
    pub open spec fn orthonormal(self) -> bool {
        &&& self.x_image.axis() != self.y_image.axis()
        &&& self.z_image == self.x_image.cross(self.y_image)
    }

    /// The rotated vector: the combination of the images weighted by `v`.
    pub open spec fn apply(self, v: Vector) -> Vector {
        self.x_image.scaled(v.x).plus(self.y_image.scaled(v.y)).plus(self.z_image.scaled(v.z))
    }

    /// The image of a direction.
    pub open spec fn turn(self, d: Direction) -> Direction {
        let image = match d.axis() {
            Axis::X => self.x_image,
            Axis::Y => self.y_image,
            Axis::Z => self.z_image,
        };
        if d.is_positive() {
            image
        } else {
            image.opposite()
        }
    }

    /// The direction that the rotation turns into `d`.
    pub open spec fn source(self, d: Direction) -> Direction {
        if self.turn(Direction::PosX) == d {
            Direction::PosX
        } else if self.turn(Direction::NegX) == d {
            Direction::NegX
        } else if self.turn(Direction::PosY) == d {
            Direction::PosY
        } else if self.turn(Direction::NegY) == d {
            Direction::NegY
        } else if self.turn(Direction::PosZ) == d {
            Direction::PosZ
        } else {
            Direction::NegZ
        }
    }

    /// The size of the axis-aligned box that a box of size `size` fills once rotated.
    pub open spec fn permute(self, size: Vector) -> Vector {
        let a = self.apply(size);
        Vector {
            x: if a.x < 0 { -a.x } else { a.x },
            y: if a.y < 0 { -a.y } else { a.y },
            z: if a.z < 0 { -a.z } else { a.z },
        }
    }

    /// The rotation that turns as `first` does and then as this one does.
    pub open spec fn after(self, first: Rotation) -> Rotation {
        Rotation {
            x_image: self.turn(first.x_image),
            y_image: self.turn(first.y_image),
            z_image: self.turn(first.z_image),
        }
    }

    pub open spec fn identity() -> Rotation {
        Rotation { x_image: Direction::PosX, y_image: Direction::PosY, z_image: Direction::PosZ }
    }

    pub fn new_identity() -> (r: Rotation)
        ensures
            r == Rotation::identity(),
            r.orthonormal(),
    {
        Rotation { x_image: Direction::PosX, y_image: Direction::PosY, z_image: Direction::PosZ }
    }

    /// The rotation that turns the x axis into `x_image` and the y axis into
    /// `y_image`, if the two are orthogonal.
    pub fn from_images(x_image: Direction, y_image: Direction) -> (r: Option<Rotation>)
        ensures
            r.is_some() <==> x_image.axis() != y_image.axis(),
            r matches Some(rot) ==> rot.orthonormal() && rot.x_image == x_image && rot.y_image
                == y_image,
    {
        if x_image.get_axis() == y_image.get_axis() {
            None
        } else {
            Some(Rotation { x_image, y_image, z_image: x_image.cross_with(y_image) })
        }
    }

    pub fn is_orthonormal(&self) -> (b: bool)
        ensures
            b == self.orthonormal(),
    {
        self.x_image.get_axis() != self.y_image.get_axis() && self.z_image
            == self.x_image.cross_with(self.y_image)
    }

    pub fn turn_direction(&self, d: Direction) -> (t: Direction)
        ensures
            t == self.turn(d),
    {
        let image: Direction = match d.get_axis() {
            Axis::X => self.x_image,
            Axis::Y => self.y_image,
            Axis::Z => self.z_image,
        };
        if d.positive() {
            image
        } else {
            image.reversed()
        }
    }

    pub fn compose(&self, first: &Rotation) -> (r: Rotation)
        ensures
            r == self.after(*first),
    {
        Rotation {
            x_image: self.turn_direction(first.x_image),
            y_image: self.turn_direction(first.y_image),
            z_image: self.turn_direction(first.z_image),
        }
    }

    pub fn source_of(&self, d: Direction) -> (s: Direction)
        ensures
            s == self.source(d),
    {
        if self.turn_direction(Direction::PosX) == d {
            Direction::PosX
        } else if self.turn_direction(Direction::NegX) == d {
            Direction::NegX
        } else if self.turn_direction(Direction::PosY) == d {
            Direction::PosY
        } else if self.turn_direction(Direction::NegY) == d {
            Direction::NegY
        } else if self.turn_direction(Direction::PosZ) == d {
            Direction::PosZ
        } else {
            Direction::NegZ
        }
    }

    /// The size of the axis-aligned box that a box of size `size` fills once rotated.
    pub fn permuted(&self, size: Vec3) -> (w: Vec3)
        requires
            self.orthonormal(),
            size.x > i64::MIN && size.y > i64::MIN && size.z > i64::MIN,
        ensures
            w@ == self.permute(size@),
    {
        let a: Vec3 = self.rotate(size);
        Vec3 {
            x: if a.x < 0 { -a.x } else { a.x },
            y: if a.y < 0 { -a.y } else { a.y },
            z: if a.z < 0 { -a.z } else { a.z },
        }
    }

    /// Rotates a vector.
    pub fn rotate(&self, v: Vec3) -> (w: Vec3)
        requires
            self.orthonormal(),
            v.x > i64::MIN && v.y > i64::MIN && v.z > i64::MIN,
        ensures
            w@ == self.apply(v@),
    {
        let sx: i64 = if self.x_image.positive() { v.x } else { -v.x };
        let sy: i64 = if self.y_image.positive() { v.y } else { -v.y };
        let sz: i64 = if self.z_image.positive() { v.z } else { -v.z };
        let ax: Axis = self.x_image.get_axis();
        let ay: Axis = self.y_image.get_axis();
        Vec3 {
            x: if ax == Axis::X { sx } else if ay == Axis::X { sy } else { sz },
            y: if ax == Axis::Y { sx } else if ay == Axis::Y { sy } else { sz },
            z: if ax == Axis::Z { sx } else if ay == Axis::Z { sy } else { sz },
        }
    }
}

/// Where a solid stands and how it is turned.
#[derive(Clone, Copy, PartialEq, Eq, Debug, Structural)]
pub struct Placement {
    /// The centre of the solid, in thousandths of a scene unit.
    pub position: Vec3,
    pub rotation: Rotation,
}

/// A rotation keeps scalar products.
pub proof fn lemma_rotation_keeps_dot(r: Rotation, a: Vector, b: Vector)
    requires
        r.orthonormal(),
    ensures
        r.apply(a).dot(r.apply(b)) == a.dot(b),
{
    assert(a.x * b.x == (-a.x) * (-b.x)) by (nonlinear_arith);
    assert(a.y * b.y == (-a.y) * (-b.y)) by (nonlinear_arith);
    assert(a.z * b.z == (-a.z) * (-b.z)) by (nonlinear_arith);
}

/// Products with negated factors.
pub proof fn lemma_signs(x: int, y: int)
    by (nonlinear_arith)
    ensures
        (-x) * y == -(x * y),
        x * (-y) == -(x * y),
        (-x) * (-y) == x * y,
{
}

/// A rotation keeps vector products: it is right-handed.
pub proof fn lemma_rotation_keeps_cross(r: Rotation, a: Vector, b: Vector)
    requires
        r.orthonormal(),
    ensures
        r.apply(a).cross(r.apply(b)) == r.apply(a.cross(b)),
{
    lemma_signs(a.x, b.y);
    lemma_signs(a.x, b.z);
    lemma_signs(a.y, b.x);
    lemma_signs(a.y, b.z);
    lemma_signs(a.z, b.x);
    lemma_signs(a.z, b.y);
    let (p, q) = (r.apply(a), r.apply(b));
    lemma_zero_products(p, q);
    match r.x_image {
        Direction::PosX => match r.y_image {
            Direction::PosX => {},
            Direction::NegX => {},
            Direction::PosY => {},
            Direction::NegY => {},
            Direction::PosZ => {},
            Direction::NegZ => {},
        },
        Direction::NegX => match r.y_image {
            Direction::PosX => {},
            Direction::NegX => {},
            Direction::PosY => {},
            Direction::NegY => {},
            Direction::PosZ => {},
            Direction::NegZ => {},
        },
        Direction::PosY => match r.y_image {
            Direction::PosX => {},
            Direction::NegX => {},
            Direction::PosY => {},
            Direction::NegY => {},
            Direction::PosZ => {},
            Direction::NegZ => {},
        },
        Direction::NegY => match r.y_image {
            Direction::PosX => {},
            Direction::NegX => {},
            Direction::PosY => {},
            Direction::NegY => {},
            Direction::PosZ => {},
            Direction::NegZ => {},
        },
        Direction::PosZ => match r.y_image {
            Direction::PosX => {},
            Direction::NegX => {},
            Direction::PosY => {},
            Direction::NegY => {},
            Direction::PosZ => {},
            Direction::NegZ => {},
        },
        Direction::NegZ => match r.y_image {
            Direction::PosX => {},
            Direction::NegX => {},
            Direction::PosY => {},
            Direction::NegY => {},
            Direction::PosZ => {},
            Direction::NegZ => {},
        },
    }
}

/// Products in which a factor is zero.
pub proof fn lemma_zero_products(p: Vector, q: Vector)
    by (nonlinear_arith)
    ensures
        p.x == 0 || q.y == 0 ==> p.x * q.y == 0,
        p.x == 0 || q.z == 0 ==> p.x * q.z == 0,
        p.y == 0 || q.x == 0 ==> p.y * q.x == 0,
        p.y == 0 || q.z == 0 ==> p.y * q.z == 0,
        p.z == 0 || q.x == 0 ==> p.z * q.x == 0,
        p.z == 0 || q.y == 0 ==> p.z * q.y == 0,
{
}

/// A rotation turns a difference into the difference of what it turns the two into.
pub proof fn lemma_rotation_keeps_differences(r: Rotation, a: Vector, b: Vector)
    requires
        r.orthonormal(),
    ensures
        r.apply(a.minus(b)) == r.apply(a).minus(r.apply(b)),
{
}

/// The vector product of two vectors stretched by the same factor.
pub proof fn lemma_cross_of_stretched(a: Vector, b: Vector, m: int)
    ensures
        a.times(m).cross(b.times(m)) == a.cross(b).times(m * m),
{
    lemma_stretched_product(a.y, b.z, m);
    lemma_stretched_product(a.z, b.y, m);
    lemma_stretched_product(a.z, b.x, m);
    lemma_stretched_product(a.x, b.z, m);
    lemma_stretched_product(a.x, b.y, m);
    lemma_stretched_product(a.y, b.x, m);
    lemma_stretched_difference(m * m, a.y * b.z, a.z * b.y);
    lemma_stretched_difference(m * m, a.z * b.x, a.x * b.z);
    lemma_stretched_difference(m * m, a.x * b.y, a.y * b.x);
}

proof fn lemma_stretched_product(x: int, y: int, m: int)
    by (nonlinear_arith)
    ensures
        (m * x) * (m * y) == (m * m) * (x * y),
{
}

proof fn lemma_stretched_difference(k: int, x: int, y: int)
    by (nonlinear_arith)
    ensures
        k * (x - y) == k * x - k * y,
        k * (x + y) == k * x + k * y,
{
}

/// The scalar product with a stretched vector.
pub proof fn lemma_dot_of_stretched(n: Vector, a: Vector, k: int)
    ensures
        n.dot(a.times(k)) == k * n.dot(a),
{
    lemma_dot_term(n.x, a.x, k);
    lemma_dot_term(n.y, a.y, k);
    lemma_dot_term(n.z, a.z, k);
    lemma_stretched_difference(k, n.x * a.x, n.y * a.y);
    lemma_stretched_difference(k, n.x * a.x + n.y * a.y, n.z * a.z);
}

proof fn lemma_dot_term(n: int, a: int, k: int)
    by (nonlinear_arith)
    ensures
        n * (k * a) == k * (n * a),
{
}

/// The terms of a scalar product in which a component of the first vector is
/// zero, one or minus one.
pub proof fn lemma_dot_simple(n: Vector, v: Vector)
    by (nonlinear_arith)
    ensures
        n.x == 0 ==> n.x * v.x == 0,
        n.y == 0 ==> n.y * v.y == 0,
        n.z == 0 ==> n.z * v.z == 0,
        n.x == 1 ==> n.x * v.x == v.x,
        n.y == 1 ==> n.y * v.y == v.y,
        n.z == 1 ==> n.z * v.z == v.z,
        n.x == -1 ==> n.x * v.x == -v.x,
        n.y == -1 ==> n.y * v.y == -v.y,
        n.z == -1 ==> n.z * v.z == -v.z,
{
}

/// A box of positive size fills, once rotated, a box of positive size with
/// the same edge lengths in another order.
pub proof fn lemma_permute(r: Rotation, size: Vector)
    requires
        r.orthonormal(),
        size.x > 0 && size.y > 0 && size.z > 0,
    ensures
        ({
            let p = r.permute(size);
            &&& p.x > 0 && p.y > 0 && p.z > 0
            &&& p.along(r.x_image.axis()) == size.x
            &&& p.along(r.y_image.axis()) == size.y
            &&& p.along(r.z_image.axis()) == size.z
            &&& r.x_image.axis() != r.y_image.axis()
            &&& r.x_image.axis() != r.z_image.axis()
            &&& r.y_image.axis() != r.z_image.axis()
        }),
{
}

/// The mathematical model of an [`Extent`]: the box between two corners.
pub struct Region {
    pub low: Vector,
    pub high: Vector,
}

impl Region {
    /// The box has positive volume.
    pub open spec fn solid(self) -> bool {
        self.low.lt(self.high)
    }

    pub open spec fn size(self) -> Vector {
        self.high.minus(self.low)
    }

    pub open spec fn volume(self) -> int {
        self.size().x * self.size().y * self.size().z
    }

    /// The point lies in the box or on its boundary.
    pub open spec fn contains(self, point: Vector) -> bool {
        self.low.le(point) && point.le(self.high)
    }

    /// Both corners have coordinates of magnitude at most `bound`.
    pub open spec fn within(self, bound: int) -> bool {
        self.low.within(bound) && self.high.within(bound)
    }

    /// The coordinate of the side of the box that faces `side`.
    pub open spec fn bound(self, side: Direction) -> int {
        if side.is_positive() {
            self.high.along(side.axis())
        } else {
            self.low.along(side.axis())
        }
    }

    /// The two boxes touch along `axis`, this one below, face to face: they
    /// have the same extent along the other two axes, and this one ends
    /// where the other begins.
    pub open spec fn meets(self, other: Region, axis: Axis) -> bool {
        &&& self.high.along(axis) == other.low.along(axis)
        &&& forall|a: Axis|
            a != axis ==> self.low.along(a) == other.low.along(a) && self.high.along(a)
                == other.high.along(a)
    }

    /// The box that spans both of two boxes that meet.
    pub open spec fn joined(self, other: Region) -> Region {
        Region { low: self.low, high: other.high }
    }
}

/// An axis-aligned box, given by its lowest and its highest corner.
#[derive(Clone, Copy, PartialEq, Eq, Debug, Structural)]
pub struct Extent {
    pub low: Vec3,
    pub high: Vec3,
}

impl View for Extent {
    type V = Region;

    open spec fn view(&self) -> Region {
        Region { low: self.low@, high: self.high@ }
    }
}

impl Extent {
    pub fn is_solid(&self) -> (b: bool)
        ensures
            b == self@.solid(),
    {
        self.low.x < self.high.x && self.low.y < self.high.y && self.low.z < self.high.z
    }

    pub fn side(&self, side: Direction) -> (c: i64)
        ensures
            c == self@.bound(side),
    {
        if side.positive() {
            self.high.component(side.get_axis())
        } else {
            self.low.component(side.get_axis())
        }
    }

    /// Whether this box meets `other` along `axis`, this one below.
    pub fn meets(&self, other: &Extent, axis: Axis) -> (b: bool)
        ensures
            b == self@.meets(other@, axis),
    {
        let x_same: bool = self.low.x == other.low.x && self.high.x == other.high.x;
        let y_same: bool = self.low.y == other.low.y && self.high.y == other.high.y;
        let z_same: bool = self.low.z == other.low.z && self.high.z == other.high.z;
        let b: bool = match axis {
            Axis::X => self.high.x == other.low.x && y_same && z_same,
            Axis::Y => self.high.y == other.low.y && x_same && z_same,
            Axis::Z => self.high.z == other.low.z && x_same && y_same,
        };
        proof {
            if b {
                assert forall|a: Axis| a != axis implies self@.low.along(a) == other@.low.along(a)
                    && self@.high.along(a) == other@.high.along(a) by {}
            } else if self@.meets(other@, axis) {
                assert(Axis::X != axis ==> self@.low.along(Axis::X) == other@.low.along(Axis::X));
                assert(Axis::Y != axis ==> self@.low.along(Axis::Y) == other@.low.along(Axis::Y));
                assert(Axis::Z != axis ==> self@.low.along(Axis::Z) == other@.low.along(Axis::Z));
            }
        }
        b
    }

    pub fn join(&self, other: &Extent) -> (e: Extent)
        ensures
            e@ == self@.joined(other@),
    {
        Extent { low: self.low, high: other.high }
    }
}

/// Two boxes that meet fill, together, exactly the box that spans both.
pub proof fn lemma_joined_volume(a: Region, b: Region, axis: Axis)
    requires
        a.meets(b, axis),
    ensures
        a.joined(b).volume() == a.volume() + b.volume(),
        a.solid() && b.solid() ==> a.joined(b).solid(),
{
    assert(Axis::X != axis ==> a.low.along(Axis::X) == b.low.along(Axis::X) && a.high.along(
        Axis::X,
    ) == b.high.along(Axis::X));
    assert(Axis::Y != axis ==> a.low.along(Axis::Y) == b.low.along(Axis::Y) && a.high.along(
        Axis::Y,
    ) == b.high.along(Axis::Y));
    assert(Axis::Z != axis ==> a.low.along(Axis::Z) == b.low.along(Axis::Z) && a.high.along(
        Axis::Z,
    ) == b.high.along(Axis::Z));
    let (ax, ay, az) = (a.size().x, a.size().y, a.size().z);
    let (bx, by, bz) = (b.size().x, b.size().y, b.size().z);
    assert((ax + bx) * ay * az == ax * ay * az + bx * ay * az) by (nonlinear_arith);
    assert(ax * (ay + by) * az == ax * ay * az + ax * by * az) by (nonlinear_arith);
    assert(ax * ay * (az + bz) == ax * ay * az + ax * ay * bz) by (nonlinear_arith);
}

} // verus!

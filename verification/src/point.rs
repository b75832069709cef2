//! Spatial keyframe primitives: a 3D point, a timestamped 4D point and
//! a point cloud. Coordinates and timestamps are fixed-point integers
//! in domain units, bounded so that every deviation computation in the
//! simplification engine stays exact.

use vstd::prelude::*;
use crate::series::Timed;

verus! {

/// Bound on coordinates, timestamps and angles; keeps all interpolation
/// arithmetic exactly representable in 128-bit intermediates.
pub const COORD_LIMIT: i64 = 0x8000_0000;

/// A 3D point in space (fixed-point meters).
#[derive(Clone, Copy, PartialEq, Eq, Structural, Debug)]
pub struct Point3D {
    pub x: i64,
    pub y: i64,
    pub z: i64,
}

impl Point3D {
    pub open spec fn wf(self) -> bool {
        &&& -COORD_LIMIT <= self.x <= COORD_LIMIT
        &&& -COORD_LIMIT <= self.y <= COORD_LIMIT
        &&& -COORD_LIMIT <= self.z <= COORD_LIMIT
    }

    pub fn new(x: i64, y: i64, z: i64) -> (p: Self)
        requires
            -COORD_LIMIT <= x <= COORD_LIMIT,
            -COORD_LIMIT <= y <= COORD_LIMIT,
            -COORD_LIMIT <= z <= COORD_LIMIT,
        ensures
            p == (Point3D { x, y, z }),
            p.wf(),
    {
        Point3D { x, y, z }
    }

    /// A copy of this point placed at the given timestamp.
    pub fn at_time(&self, t: i64) -> (p: Point4D)
        requires
            -COORD_LIMIT <= t <= COORD_LIMIT,
        ensures
            p == (Point4D { t, x: self.x, y: self.y, z: self.z }),
    {
        Point4D { t, x: self.x, y: self.y, z: self.z }
    }

    pub fn get_x(&self) -> (r: i64)
        ensures
            r == self.x,
    {
        self.x
    }

    pub fn get_y(&self) -> (r: i64)
        ensures
            r == self.y,
    {
        self.y
    }

    pub fn get_z(&self) -> (r: i64)
        ensures
            r == self.z,
    {
        self.z
    }
}

/// A point in space and time (fixed-point meters and seconds).
#[derive(Clone, Copy, PartialEq, Eq, Structural, Debug)]
pub struct Point4D {
    pub t: i64,
    pub x: i64,
    pub y: i64,
    pub z: i64,
}

impl Point4D {
    pub open spec fn wf(self) -> bool {
        &&& -COORD_LIMIT <= self.t <= COORD_LIMIT
        &&& -COORD_LIMIT <= self.x <= COORD_LIMIT
        &&& -COORD_LIMIT <= self.y <= COORD_LIMIT
        &&& -COORD_LIMIT <= self.z <= COORD_LIMIT
    }

    pub fn new(t: i64, x: i64, y: i64, z: i64) -> (p: Self)
        requires
            -COORD_LIMIT <= t <= COORD_LIMIT,
            -COORD_LIMIT <= x <= COORD_LIMIT,
            -COORD_LIMIT <= y <= COORD_LIMIT,
            -COORD_LIMIT <= z <= COORD_LIMIT,
        ensures
            p == (Point4D { t, x, y, z }),
            p.wf(),
    {
        Point4D { t, x, y, z }
    }

    /// The spatial coordinate of this point, with the timestamp dropped.
    pub fn as_3d(&self) -> (p: Point3D)
        ensures
            p == (Point3D { x: self.x, y: self.y, z: self.z }),
    {
        Point3D { x: self.x, y: self.y, z: self.z }
    }

    pub fn get_t(&self) -> (r: i64)
        ensures
            r == self.t,
    {
        self.t
    }

    pub fn get_x(&self) -> (r: i64)
        ensures
            r == self.x,
    {
        self.x
    }

    pub fn get_y(&self) -> (r: i64)
        ensures
            r == self.y,
    {
        self.y
    }

    pub fn get_z(&self) -> (r: i64)
        ensures
            r == self.z,
    {
        self.z
    }
}

impl Timed for Point4D {
    open spec fn time(self) -> int {
        self.t as int
    }

    fn time_exec(&self) -> (t: i64)
        ensures
            t as int == self.time(),
    {
        self.t
    }
}

/// A keyframe kind that can contribute a spatial point to a cloud.
pub trait CloudMember<T>: Sized {
    /// The point this value contributes, as seen by contracts.
    spec fn cloud_point(self) -> T;

    fn to_cloud_point(&self) -> (p: T)
        ensures
            p == self.cloud_point(),
    ;
}

impl CloudMember<Point3D> for Point3D {
    open spec fn cloud_point(self) -> Point3D {
        self
    }

    fn to_cloud_point(&self) -> (p: Point3D)
        ensures
            p == self.cloud_point(),
    {
        Point3D { x: self.x, y: self.y, z: self.z }
    }
}

impl CloudMember<Point3D> for Point4D {
    open spec fn cloud_point(self) -> Point3D {
        Point3D { x: self.x, y: self.y, z: self.z }
    }

    fn to_cloud_point(&self) -> (p: Point3D)
        ensures
            p == self.cloud_point(),
    {
        self.as_3d()
    }
}

/// A list of 3D points.
pub struct PointCloud {
    pub points: Vec<Point3D>,
}

impl PointCloud {
    pub fn new<T: CloudMember<Point3D>>(points: &Vec<T>) -> (c: Self)
        ensures
            c.points@.len() == points@.len(),
            forall|i: int|
                0 <= i < points@.len() ==> c.points@[i] == #[trigger] points@[i].cloud_point(),
    {
        let mut my_points: Vec<Point3D> = Vec::new();
        let mut i: usize = 0;
        while i < points.len()
            invariant
                i <= points@.len(),
                my_points@.len() == i,
                forall|k: int|
                    0 <= k < i ==> my_points@[k] == #[trigger] points@[k].cloud_point(),
            decreases points@.len() - i,
        {
            my_points.push(points[i].to_cloud_point());
            i = i + 1;
        }
        PointCloud { points: my_points }
    }

    /// The point at `index`, or the last point when `index` is out of
    /// range.
    pub fn get_item(&self, index: usize) -> (p: Point3D)
        requires
            self.points@.len() > 0,
        ensures
            p == if index < self.points@.len() {
                self.points@[index as int]
            } else {
                self.points@.last()
            },
    {
        if index >= self.points.len() {
            self.points[self.points.len() - 1]
        } else {
            self.points[index]
        }
    }

    pub fn append<T: CloudMember<Point3D>>(&mut self, point: T)
        ensures
            final (self).points@ == old(self).points@.push(point.cloud_point()),
    {
        self.points.push(point.to_cloud_point());
    }

    pub fn count(&self) -> (n: usize)
        ensures
            n == self.points@.len(),
    {
        self.points.len()
    }
}

} // verus!

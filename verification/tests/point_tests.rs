use keyframes::point::{Point3D, Point4D, PointCloud};

#[test]
fn point_accessors() {
    let q = Point4D::new(1, 2, 3, 4);
    assert_eq!(q.get_t(), 1);
    assert_eq!(q.get_x(), 2);
    assert_eq!(q.get_y(), 3);
    assert_eq!(q.get_z(), 4);
    let p3 = q.as_3d();
    assert_eq!((p3.get_x(), p3.get_y(), p3.get_z()), (2, 3, 4));
    let placed = p3.at_time(77);
    assert_eq!(placed, Point4D::new(77, 2, 3, 4));
}

#[test]
fn point_cloud_from_members() {
    let pts4 = vec![Point4D::new(0, 1, 2, 3), Point4D::new(1, 4, 5, 6)];
    let cloud = PointCloud::new(&pts4);
    assert_eq!(cloud.count(), 2);
    assert_eq!(cloud.get_item(0), Point3D::new(1, 2, 3));
    assert_eq!(cloud.get_item(1), Point3D::new(4, 5, 6));
    // out-of-range indices hand back the last point
    assert_eq!(cloud.get_item(17), Point3D::new(4, 5, 6));
}

#[test]
fn point_cloud_append() {
    let seed = vec![Point3D::new(0, 0, 0)];
    let mut cloud = PointCloud::new(&seed);
    cloud.append(Point4D::new(9, 7, 8, 9));
    assert_eq!(cloud.count(), 2);
    assert_eq!(cloud.get_item(1), Point3D::new(7, 8, 9));
}

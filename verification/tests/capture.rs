use bima::record::Line;
use bima::record::Record;
use bima::record::Vec3;
use bima::store::Store;
use bima::store::StoreErr;
use bima::store::chunk_name;
use bima::store::object_group_path;
use bima::store::to_columns;
use bima::store::unpack;

fn v3(x: f64, y: f64, z: f64) -> Vec3 {
    Vec3 { x: x.to_bits(), y: y.to_bits(), z: z.to_bits() }
}

fn line(t: f64, r: (f64, f64, f64), v: (f64, f64, f64)) -> Line {
    Line { t: t.to_bits(), r: v3(r.0, r.1, r.2), v: v3(v.0, v.1, v.2), a: None }
}

fn line_acc(t: f64, r: (f64, f64, f64), v: (f64, f64, f64), a: (f64, f64, f64)) -> Line {
    Line { t: t.to_bits(), r: v3(r.0, r.1, r.2), v: v3(v.0, v.1, v.2), a: Some(v3(a.0, a.1, a.2)) }
}

#[test]
fn record_new_len_matches_object_count() {
    assert_eq!(Record::new(0, false).len(), 0);
    assert_eq!(Record::new(3, false).len(), 3);
    assert_eq!(Record::new(7, true).len(), 7);
}

#[test]
fn record_add_then_take_returns_samples_in_order() {
    let mut rec = Record::new(3, false);
    let a = line(0.0, (1.0, 2.0, 3.0), (0.1, 0.2, 0.3));
    let b = line(1.0, (1.5, 2.5, 3.5), (0.4, 0.5, 0.6));
    let c = line(2.0, (2.0, 3.0, 4.0), (0.7, 0.8, 0.9));
    rec.add(1, a);
    rec.add(1, b);
    rec.add(1, c);
    rec.add(0, c);
    let taken = rec.take(1);
    assert_eq!(taken, vec![a, b, c]);
    let again = rec.take(1);
    assert!(again.is_empty());
    // the other object's buffer is untouched
    assert_eq!(rec.take(0), vec![c]);
}

#[test]
fn record_add_many_appends_batch() {
    let mut rec = Record::new(1, false);
    let a = line(0.0, (1.0, 0.0, 0.0), (0.0, 0.0, 0.0));
    let b = line(1.0, (2.0, 0.0, 0.0), (0.0, 0.0, 0.0));
    let c = line(2.0, (3.0, 0.0, 0.0), (0.0, 0.0, 0.0));
    rec.add(0, a);
    rec.add_many(0, vec![b, c]);
    assert_eq!(rec.take(0), vec![a, b, c]);
}

#[test]
fn record_drain_folds_and_empties() {
    let mut acc = Record::new(2, false);
    let mut work = Record::new(2, false);
    let a = line(0.0, (1.0, 0.0, 0.0), (0.0, 0.0, 0.0));
    let b = line(1.0, (2.0, 0.0, 0.0), (0.0, 0.0, 0.0));
    acc.add(0, a);
    work.add(0, b);
    work.add(1, a);
    acc.drain(&mut work);
    assert!(work.take(0).is_empty());
    assert!(work.take(1).is_empty());
    assert_eq!(acc.take(0), vec![a, b]);
    assert_eq!(acc.take(1), vec![a]);
}

#[test]
fn store_new_rejects_existing_file_without_redo() {
    let r = Store::new("run/res.h5".to_string(), 2, false, false, true);
    match r {
        Err(StoreErr::AlreadyExists) => {}
        _ => panic!("expected the already-exists refusal"),
    }
}

#[test]
fn store_new_overwrites_with_redo() {
    let r = Store::new("run/res.h5".to_string(), 2, true, false, true);
    let s = match r {
        Ok(s) => s,
        Err(_) => panic!("redo must allow an existing file"),
    };
    assert_eq!(s.n_objects(), 2);
    assert_eq!(s.chunk_count(0), 0);
    assert_eq!(s.chunk_count(1), 0);
    assert_eq!(s.path().as_str(), "run/res.h5");
}

#[test]
fn store_new_accepts_fresh_path() {
    assert!(Store::new("run/res.h5".to_string(), 1, false, true, false).is_ok());
}

#[test]
fn store_round_trip_offsets_positions_only() {
    let mut s = Store::new("run/res.h5".to_string(), 2, false, false, false).unwrap();
    let cm = v3(0.25, -1.0, 2.0);
    let l0 = line(0.5, (1.5, 2.0, -3.0), (0.125, 0.25, 0.375));
    let l1 = line(1.5, (4.0, 5.0, 6.0), (-0.5, -0.25, 0.0));
    s.append(0, vec![l0, l1], cm);
    let c = s.read_chunk(0, 0);
    assert_eq!(c.t, vec![(0.5f64).to_bits(), (1.5f64).to_bits()]);
    // positions come back offset by the center of mass, component-wise
    assert_eq!(c.x, vec![(1.5f64 + 0.25).to_bits(), (4.0f64 + 0.25).to_bits()]);
    assert_eq!(c.y, vec![(2.0f64 - 1.0).to_bits(), (5.0f64 - 1.0).to_bits()]);
    assert_eq!(c.z, vec![(-3.0f64 + 2.0).to_bits(), (6.0f64 + 2.0).to_bits()]);
    // velocities come back exactly as submitted
    assert_eq!(c.vx, vec![(0.125f64).to_bits(), (-0.5f64).to_bits()]);
    assert_eq!(c.vy, vec![(0.25f64).to_bits(), (-0.25f64).to_bits()]);
    assert_eq!(c.vz, vec![(0.375f64).to_bits(), (0.0f64).to_bits()]);
    // no acceleration columns for a run that does not retain them
    assert!(c.ax.is_none() && c.ay.is_none() && c.az.is_none());
    // the other object is untouched
    assert_eq!(s.chunk_count(1), 0);
}

#[test]
fn store_round_trip_keeps_acceleration_unmodified() {
    let mut s = Store::new("run/res.h5".to_string(), 1, false, true, false).unwrap();
    let cm = v3(1.0, 1.0, 1.0);
    let l = line_acc(0.0, (0.5, 0.5, 0.5), (1.0, 2.0, 3.0), (7.0, 8.0, 9.0));
    s.append(0, vec![l], cm);
    let c = s.read_chunk(0, 0);
    assert_eq!(c.x, vec![(1.5f64).to_bits()]);
    assert_eq!(c.ax.as_ref().unwrap(), &vec![(7.0f64).to_bits()]);
    assert_eq!(c.ay.as_ref().unwrap(), &vec![(8.0f64).to_bits()]);
    assert_eq!(c.az.as_ref().unwrap(), &vec![(9.0f64).to_bits()]);
}

#[test]
fn store_chunk_numbering_is_dense_and_append_only() {
    let mut s = Store::new("run/res.h5".to_string(), 1, false, false, false).unwrap();
    let cm = v3(0.0, 0.0, 0.0);
    let l0 = line(0.0, (1.0, 0.0, 0.0), (0.0, 0.0, 0.0));
    let l1 = line(1.0, (2.0, 0.0, 0.0), (0.0, 0.0, 0.0));
    let l2 = line(2.0, (3.0, 0.0, 0.0), (0.0, 0.0, 0.0));
    s.append(0, vec![l0], cm);
    let first_t = s.read_chunk(0, 0).t.clone();
    s.append(0, vec![l1], cm);
    s.append(0, vec![l2], cm);
    // exactly chunks 0..3 exist after three appends
    assert_eq!(s.chunk_count(0), 3);
    // and no later append overwrote an earlier chunk
    assert_eq!(s.read_chunk(0, 0).t, first_t);
    assert_eq!(s.read_chunk(0, 1).t, vec![(1.0f64).to_bits()]);
    assert_eq!(s.read_chunk(0, 2).t, vec![(2.0f64).to_bits()]);
}

#[test]
fn store_append_of_empty_batch_still_numbers_a_chunk() {
    let mut s = Store::new("run/res.h5".to_string(), 1, false, false, false).unwrap();
    s.append(0, Vec::new(), v3(0.0, 0.0, 0.0));
    assert_eq!(s.chunk_count(0), 1);
    assert!(s.read_chunk(0, 0).t.is_empty());
    assert!(s.read_chunk(0, 0).x.is_empty());
}

#[test]
fn store_with_zero_objects_is_allowed() {
    let s = Store::new("run/res.h5".to_string(), 0, false, false, false).unwrap();
    assert_eq!(s.n_objects(), 0);
}

#[test]
fn unpack_splits_columns_in_sample_order() {
    let lines = vec![
        line(0.0, (1.0, 2.0, 3.0), (4.0, 5.0, 6.0)),
        line(1.0, (7.0, 8.0, 9.0), (10.0, 11.0, 12.0)),
    ];
    let c = unpack(&lines, v3(0.0, 0.0, 0.0), false);
    assert_eq!(c.t.len(), 2);
    assert_eq!(c.x, vec![(1.0f64).to_bits(), (7.0f64).to_bits()]);
    assert_eq!(c.vz, vec![(6.0f64).to_bits(), (12.0f64).to_bits()]);
}

#[test]
fn to_columns_reports_whole_record_with_offset() {
    let mut rec = Record::new(2, false);
    rec.add(0, line(0.0, (1.0, 2.0, 3.0), (4.0, 5.0, 6.0)));
    rec.add(1, line(1.0, (-1.0, -2.0, -3.0), (0.0, 0.0, 0.0)));
    let cols = to_columns(&rec, v3(10.0, 20.0, 30.0));
    assert_eq!(cols.len(), 2);
    assert_eq!(cols[0].x, vec![(11.0f64).to_bits()]);
    assert_eq!(cols[0].vy, vec![(5.0f64).to_bits()]);
    assert_eq!(cols[1].z, vec![(27.0f64).to_bits()]);
    // the record itself is left intact
    assert_eq!(rec.lines(0).len(), 1);
}

#[test]
fn dataset_names_follow_the_layout() {
    assert_eq!(chunk_name(0), "0");
    assert_eq!(chunk_name(1234), "1234");
    assert_eq!(object_group_path(0), "objects/0");
    assert_eq!(object_group_path(42), "objects/42");
}

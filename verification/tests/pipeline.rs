use bima::effect::Cancelled;
use bima::effect::Effect;
use bima::effect::InDisk;
use bima::effect::InMemory;
use bima::pipeline::BodyState;
use bima::pipeline::Consumer;
use bima::pipeline::some_acc;
use bima::progress::Wrt;
use bima::record::Line;
use bima::record::Record;
use bima::record::Vec3;
use bima::store::Store;
use bima::store::to_columns;

struct Sink {
    lines: Vec<String>,
}

impl Wrt for Sink {
    fn write(&mut self, s: &str) {
        self.lines.push(s.to_string());
    }
}

fn sink() -> Sink {
    Sink { lines: Vec::new() }
}

fn v3(x: f64, y: f64, z: f64) -> Vec3 {
    Vec3 { x: x.to_bits(), y: y.to_bits(), z: z.to_bits() }
}

fn line(t: f64, x: f64) -> Line {
    Line { t: t.to_bits(), r: v3(x, 0.0, 0.0), v: v3(0.0, 0.0, 0.0), a: None }
}

fn body(x: f64) -> BodyState {
    BodyState { r: v3(x, 0.0, 0.0), v: v3(0.0, 0.0, 0.0), a: None }
}

fn disk_sink(total: u64, n_objects: usize) -> InDisk<Sink> {
    InDisk::new(
        sink(),
        total,
        "run/res.h5".to_string(),
        false,
        n_objects,
        false,
        v3(0.0, 0.0, 0.0),
        false,
        0,
    )
    .unwrap()
}

fn store_of(consumer: Consumer<Sink>) -> Store {
    match consumer.into_effect() {
        Effect::InDisk(d) => d.store,
        Effect::InMemory(_) => panic!("disk sink expected"),
    }
}

#[test]
fn some_acc_follows_the_run_policy() {
    let a = Some(v3(1.0, 2.0, 3.0));
    assert_eq!(some_acc(a, true), a);
    assert_eq!(some_acc(a, false), None);
    assert_eq!(some_acc(None, false), None);
}

#[test]
fn in_memory_sink_drains_on_done() {
    let mut mem = InMemory::new(sink(), 10, 2, false, 0);
    let mut rec = Record::new(2, false);
    rec.add(0, line(0.0, 1.0));
    rec.add(1, line(0.0, 2.0));
    // reaching the total fires Done, which always flushes
    let r = mem.update(10, 5, false, &mut rec);
    assert!(r.is_ok());
    assert!(rec.take(0).is_empty());
    assert!(rec.take(1).is_empty());
    assert_eq!(mem.record.lines(0), &vec![line(0.0, 1.0)]);
    assert_eq!(mem.record.lines(1), &vec![line(0.0, 2.0)]);
}

#[test]
fn in_memory_sink_keeps_buffer_when_throttled() {
    let mut mem = InMemory::new(sink(), 10, 1, false, 0);
    let mut rec = Record::new(1, false);
    rec.add(0, line(0.0, 1.0));
    // short of the total and within the render window: no flush
    let r = mem.update(5, 5, false, &mut rec);
    assert!(r.is_ok());
    assert_eq!(rec.lines(0).len(), 1);
    assert_eq!(mem.record.lines(0).len(), 0);
}

#[test]
fn sink_update_aborts_on_cancellation() {
    let mut mem = InMemory::new(sink(), 10, 1, false, 0);
    let mut rec = Record::new(1, false);
    rec.add(0, line(0.0, 1.0));
    let r = mem.update(10, 5, true, &mut rec);
    assert_eq!(r, Err(Cancelled));
    // nothing moved
    assert_eq!(rec.lines(0).len(), 1);
    assert_eq!(mem.record.lines(0).len(), 0);
}

#[test]
fn in_disk_sink_flushes_past_its_threshold() {
    let mut disk = disk_sink(1000, 1);
    let mut rec = Record::new(1, false);
    for k in 0..12u64 {
        rec.add(0, line(k as f64, k as f64));
    }
    // eleven throttled updates, then a render: Print(12) > 10 flushes
    for k in 1..=11u64 {
        let r = disk.update(k, k, false, &mut rec);
        assert!(r.is_ok());
        assert_eq!(disk.store.chunk_count(0), 0);
    }
    let r = disk.update(12, 200, false, &mut rec);
    assert!(r.is_ok());
    assert_eq!(disk.store.chunk_count(0), 1);
    assert_eq!(disk.store.read_chunk(0, 0).t.len(), 12);
    assert_eq!(rec.lines(0).len(), 0);
}

#[test]
fn in_disk_sink_holds_back_at_its_threshold() {
    let mut disk = disk_sink(1000, 1);
    let mut rec = Record::new(1, false);
    rec.add(0, line(0.0, 0.0));
    // nine throttled updates, then a render: Print(10) is not past 10
    for k in 1..=9u64 {
        let r = disk.update(k, k, false, &mut rec);
        assert!(r.is_ok());
    }
    let r = disk.update(10, 200, false, &mut rec);
    assert!(r.is_ok());
    assert_eq!(disk.store.chunk_count(0), 0);
    assert_eq!(rec.lines(0).len(), 1);
}

#[test]
fn pipeline_flushes_repeatedly_and_persists_every_sample_in_order() {
    // 3 objects, no acceleration, 20 samples per object, and a flush
    // threshold of 5 buffered samples in total
    let disk = disk_sink(20, 3);
    let mut consumer = Consumer::new(Effect::InDisk(disk), Some(5));
    for i in 1..=20u64 {
        let t = i as f64;
        let bodies = vec![body(t), body(t + 0.5), body(t + 0.25)];
        let r = consumer.step(t.to_bits(), i, &bodies, 10, false);
        assert!(r.is_ok());
    }
    let flushes_before_final = match consumer.effect_ref() {
        Effect::InDisk(d) => d.store.chunk_count(0),
        Effect::InMemory(_) => panic!("disk sink expected"),
    };
    assert!(flushes_before_final >= 4);
    consumer.finish(10);
    let store = store_of(consumer);
    let expect: Vec<u64> = (1..=20u64).map(|i| (i as f64).to_bits()).collect();
    for obj in 0..3usize {
        let mut ts: Vec<u64> = Vec::new();
        for k in 0..store.chunk_count(obj) {
            ts.extend(store.read_chunk(obj, k).t.iter().copied());
        }
        // all chunks concatenated in chunk-index order give exactly the
        // 20 samples, in the order produced
        assert_eq!(ts, expect);
    }
}

#[test]
fn pipeline_cancellation_halts_cleanly_and_keeps_flushed_data() {
    let disk = disk_sink(20, 3);
    let mut consumer = Consumer::new(Effect::InDisk(disk), Some(5));
    for i in 1..=2u64 {
        let t = i as f64;
        let bodies = vec![body(t), body(t), body(t)];
        assert!(consumer.step(t.to_bits(), i, &bodies, 10, false).is_ok());
    }
    // the signal arrives before the third message is consumed
    let bodies = vec![body(3.0), body(3.0), body(3.0)];
    let r = consumer.step((3.0f64).to_bits(), 3, &bodies, 10, true);
    assert_eq!(r, Err(Cancelled));
    // the caller still gets everything that was flushed before the
    // signal: the step that crossed the threshold wrote one chunk
    let store = store_of(consumer);
    assert_eq!(store.chunk_count(0), 1);
    assert_eq!(
        store.read_chunk(0, 0).t,
        vec![(1.0f64).to_bits(), (2.0f64).to_bits()]
    );
}

#[test]
fn acceleration_is_retained_end_to_end_when_asked() {
    let mut mem = InMemory::new(sink(), 4, 1, true, 0);
    let mut consumer = Consumer::new(Effect::InMemory(mem), None);
    for i in 1..=4u64 {
        let t = i as f64;
        let bodies = vec![BodyState {
            r: v3(t, 0.0, 0.0),
            v: v3(0.0, 0.0, 0.0),
            a: Some(v3(0.5 * t, 0.0, 0.0)),
        }];
        assert!(consumer.step(t.to_bits(), i, &bodies, 10, false).is_ok());
    }
    consumer.finish(10);
    mem = match consumer.into_effect() {
        Effect::InMemory(m) => m,
        Effect::InDisk(_) => panic!("memory sink expected"),
    };
    let lines = mem.record.lines(0);
    assert_eq!(lines.len(), 4);
    assert_eq!(lines[1].a.unwrap().x, (1.0f64).to_bits());
    let cols = to_columns(&mem.record, v3(0.0, 0.0, 0.0));
    let ax = cols[0].ax.as_ref().unwrap();
    assert_eq!(ax[3], (2.0f64).to_bits());
}

#[test]
fn memory_pipeline_accumulates_everything() {
    let mem = InMemory::new(sink(), 5, 2, false, 0);
    let mut consumer = Consumer::new(Effect::InMemory(mem), None);
    for i in 1..=5u64 {
        let t = i as f64;
        let bodies = vec![body(t), body(-t)];
        assert!(consumer.step(t.to_bits(), i, &bodies, 10, false).is_ok());
    }
    consumer.finish(10);
    let mem = match consumer.into_effect() {
        Effect::InMemory(m) => m,
        Effect::InDisk(_) => panic!("memory sink expected"),
    };
    assert_eq!(mem.record.lines(0).len(), 5);
    assert_eq!(mem.record.lines(1).len(), 5);
    assert_eq!(mem.record.lines(0)[0], line(1.0, 1.0));
    assert_eq!(mem.record.lines(1)[4], line(5.0, -5.0));
    // the in-memory outcome as per-object columns, positions offset
    let cols = to_columns(&mem.record, v3(100.0, 0.0, 0.0));
    assert_eq!(cols[0].x[2], (3.0f64 + 100.0).to_bits());
    assert_eq!(cols[1].x[2], (-3.0f64 + 100.0).to_bits());
    assert_eq!(cols[0].t[4], (5.0f64).to_bits());
}

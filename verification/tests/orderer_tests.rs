use mikumarimaker::orderer::Orderer;
use rand::RngExt;

#[test]
fn construct_1() {
    let o = Orderer::new();
    assert!(o.hits().is_empty());
}

#[test]
fn order_1() {
    // No hits gives an empty orderer:

    let mut o = Orderer::new();
    let order = o.order();
    assert!(order.is_empty());
}

#[test]
fn hit_1() {
    // I can add a hit and it's there.

    let mut o = Orderer::new();
    o.add_hit(true, 1, 12345, 666);
    assert_eq!(o.hits().len(), 1); // there is a hit.

    assert_eq!(o.hits()[0], (true, 1, 12345, 666));
}

#[test]
fn order_2() {
    // If I add one hit and order it it'll come out unscathed.

    let mut o = Orderer::new();
    o.add_hit(true, 1, 12345, 666);
    let ordered = o.order();
    assert_eq!(ordered.len(), 1);
    assert_eq!(ordered[0], (true, 1, 12345, 666));
}

#[test]
fn order_3() {
    // Adding some ordered hits they come out with the same order
    // they were put in.

    let mut o = Orderer::new();
    for i in 0..10 {
        o.add_hit(true, i as u16 % 2, i as u64, 666);
    }
    let ordered = o.order();
    assert_eq!(ordered.len(), 10);

    for i in 0..10 {
        assert_eq!(ordered[i], (true, i as u16 % 2, i as u64, 666));
    }
}

#[test]
fn order_4() {
    // Fully backwards times are properly ordered.
    let mut o = Orderer::new();
    for i in 0..10 {
        o.add_hit(true, i as u16 % 2, (9 - i) as u64, 666);
    }
    println!("{:?}", o.hits());
    let ordered = o.order();
    assert_eq!(ordered.len(), 10);
    println!("{:?}", ordered);
    for i in 0..10 {
        assert_eq!(ordered[i].2, i as u64);
    }
}

#[test]
fn order_5() {
    // put a few random hit times in...they come out ordered.

    let mut o = Orderer::new();
    let mut times: Vec<u64> = Vec::new(); // Store generated times here.
    let mut r = rand::rng();
    for _ in 0..50 {
        let t: u64 = r.random();
        times.push(t);
        o.add_hit(true, 0, t, 666);
    }
    times.sort();
    let ordered = o.order();
    assert_eq!(ordered.len(), 50);
    for i in 0..50 {
        assert_eq!(ordered[i].2, times[i]);
    }
}

#[test]
fn order_ties_keep_arrival_order() {
    // equal times keep the order in which they were added — the pinned
    // tie-break of the stable sort
    let mut o = Orderer::new();
    o.add_hit(true, 5, 100, 1);
    o.add_hit(false, 3, 100, 2);
    o.add_hit(true, 1, 50, 3);
    let ordered = o.order();
    assert_eq!(ordered.len(), 3);
    assert_eq!(ordered[0], (true, 1, 50, 3));
    assert_eq!(ordered[1], (true, 5, 100, 1));
    assert_eq!(ordered[2], (false, 3, 100, 2));
}

#[test]
fn order_clears_for_next_frame() {
    let mut o = Orderer::new();
    o.add_hit(true, 1, 2, 3);
    let _ = o.order();
    assert!(o.hits().is_empty());
    assert!(o.order().is_empty());
}

#[test]
fn grouped_channels_break_ties_by_channel() {
    // per-channel streams fed one channel at a time: the tie at t=100
    // comes out with channel 0 before channel 1
    let mut o = Orderer::new();
    o.add_hit(true, 0, 100, 1);
    o.add_hit(true, 0, 150, 2);
    o.add_hit(true, 1, 100, 3);
    o.add_hit(true, 1, 120, 4);
    let ordered = o.order();
    assert_eq!(ordered.len(), 4);
    assert_eq!(ordered[0], (true, 0, 100, 1));
    assert_eq!(ordered[1], (true, 1, 100, 3));
    assert_eq!(ordered[2], (true, 1, 120, 4));
    assert_eq!(ordered[3], (true, 0, 150, 2));
}

#[test]
fn merge_two_channels() {
    // channel 0 at times 10 and 30, channel 1 at 20 and 40: the merged
    // stream is 10, 20, 30, 40 with each hit's channel tag preserved
    let mut o = Orderer::new();
    o.add_hit(true, 0, 10, 666);
    o.add_hit(true, 0, 30, 666);
    o.add_hit(true, 1, 20, 666);
    o.add_hit(true, 1, 40, 666);
    let ordered = o.order();
    assert_eq!(ordered.len(), 4);
    assert_eq!(ordered[0], (true, 0, 10, 666));
    assert_eq!(ordered[1], (true, 1, 20, 666));
    assert_eq!(ordered[2], (true, 0, 30, 666));
    assert_eq!(ordered[3], (true, 1, 40, 666));
}

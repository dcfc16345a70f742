use mikumarimaker::mikumari_format::{
    Delimeter1, Delimeter2, HRTDCLeading, HRTDCTrailing, MikumariDatum, TDC_LEADING_DATA,
    TDC_TRAILING_DATA,
};

#[test]
fn lib_new_1() {
    let d = Delimeter1::new(0, 0);
    assert_eq!(d.get(), 0x7000000000000000)
}

#[test]
fn lib_new_2() {
    let d = Delimeter1::new(0, 1234);
    assert_eq!(d.get() & 0xfffff, 1234u64);
}

#[test]
fn lib_new_3() {
    let d = Delimeter1::new(65535, 0);
    assert_eq!((d.get() >> 24) & 0xffff, 65535);
}

#[test]
fn new_1() {
    let d = Delimeter2::new(0); // Just the id is set.
    assert_eq!(d.get(), 0x7800000000000000);
}

#[test]
fn new_2() {
    let d = Delimeter2::new(12345);
    assert_eq!(d.get() & 0xfffff, 12345u64);
}

#[test]
fn new_3() {
    let d = Delimeter2::new(12345);
    assert_eq!((d.get() >> 20) & 0xfffff, 12345u64);
}

#[test]
fn leading_new() {
    let leading = HRTDCLeading::new(10, 100, 12345);

    // See that the fields got properly set as well as the type:

    assert_eq!(leading.get() >> 58, TDC_LEADING_DATA);
    assert_eq!(leading.get() & 0x1fffffff, 12345);
    assert_eq!((leading.get() >> 29) & 0x3fffff, 100);
}

#[test]
fn chan_1() {
    let leading = HRTDCLeading::new(10, 100, 12345);
    assert_eq!(leading.channel(), 10);
}

#[test]
fn tot_1() {
    let leading = HRTDCLeading::new(10, 100, 12345);
    assert_eq!(leading.TOT(), 100);
}

#[test]
fn time_1() {
    let leading = HRTDCLeading::new(10, 100, 12345);
    assert_eq!(leading.Time(), 12345);
}

#[test]
fn trailing_new() {
    let trailing = HRTDCTrailing::new(10, 100, 12345);

    // See that the fields got properly set as well as the type:

    assert_eq!(trailing.get() >> 58, TDC_TRAILING_DATA);
    assert_eq!(trailing.get() & 0x1fffffff, 12345);
    assert_eq!((trailing.get() >> 29) & 0x3fffff, 100);
}

#[test]
fn chan_2() {
    let trailing = HRTDCTrailing::new(10, 100, 12345);
    assert_eq!(trailing.channel(), 10);
}

#[test]
fn tot_2() {
    let trailing = HRTDCTrailing::new(10, 100, 12345);
    assert_eq!(trailing.TOT(), 100);
}

#[test]
fn time_2() {
    let trailing = HRTDCTrailing::new(10, 100, 12345);
    assert_eq!(trailing.Time(), 12345);
}

#[test]
fn round_trip_delim1() {
    let d = Delimeter1::new(5, 77);
    match MikumariDatum::from_u64(d.get()) {
        MikumariDatum::Heartbeat0(x) => {
            assert_eq!(x.frame(), 77);
            assert_eq!(x.time_offset(), 5);
            assert_eq!(x.get(), d.get());
        }
        _ => panic!("a first-delimiter word must decode to Heartbeat0"),
    }
}

#[test]
fn round_trip_delim2() {
    let d = Delimeter2::new(0xabcde);
    match MikumariDatum::from_u64(d.get()) {
        MikumariDatum::Heartbeat1(x) => {
            assert_eq!(x.datasize(), 0xabcde);
            // the documented dual placement holds too
            assert_eq!((x.get() >> 20) & 0xfffff, 0xabcde);
        }
        _ => panic!("a second-delimiter word must decode to Heartbeat1"),
    }
}

#[test]
fn round_trip_leading() {
    let l = HRTDCLeading::new(127, 0x3fffff, 0x1fffffff);
    match MikumariDatum::from_u64(l.get()) {
        MikumariDatum::LeadingEdge(x) => {
            assert_eq!(x.channel(), 127);
            assert_eq!(x.TOT(), 0x3fffff);
            assert_eq!(x.Time(), 0x1fffffff);
        }
        _ => panic!("a leading-edge word must decode to LeadingEdge"),
    }
}

#[test]
fn round_trip_trailing() {
    let t = HRTDCTrailing::new(127, 0x3fffff, 0x1fffffff);
    match MikumariDatum::from_u64(t.get()) {
        MikumariDatum::TrailingEdge(x) => {
            assert_eq!(x.channel(), 127);
            assert_eq!(x.TOT(), 0x3fffff);
            assert_eq!(x.Time(), 0x1fffffff);
        }
        _ => panic!("a trailing-edge word must decode to TrailingEdge"),
    }
}

#[test]
fn round_trip_other() {
    // tag 0 matches no known type: the word must come back opaquely
    let w: u64 = 0x0123_4567_89ab_cdef & 0x03ff_ffff_ffff_ffff;
    match MikumariDatum::from_u64(w) {
        MikumariDatum::Other(x) => assert_eq!(x, w),
        _ => panic!("an unknown tag must decode to Other"),
    }
}

#[test]
fn tag_discrimination() {
    // identical payload bits, different tag: the decodes must not cross
    let l = HRTDCLeading::new(10, 100, 12345);
    let t = HRTDCTrailing::new(10, 100, 12345);
    assert_eq!(l.get() & 0x03ff_ffff_ffff_ffff, t.get() & 0x03ff_ffff_ffff_ffff);
    assert_ne!(l.get(), t.get());
    assert!(matches!(
        MikumariDatum::from_u64(l.get()),
        MikumariDatum::LeadingEdge(_)
    ));
    assert!(matches!(
        MikumariDatum::from_u64(t.get()),
        MikumariDatum::TrailingEdge(_)
    ));
}

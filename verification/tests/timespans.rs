use reservation::{ReservationError, Timespan, UtcDateTime};

fn at(secs: i64) -> UtcDateTime {
    UtcDateTime::from_timestamp(secs, 0).unwrap()
}

fn span(start: i64, end: i64) -> Timespan {
    Timespan::new(at(start), at(end)).unwrap()
}

#[test]
fn timespan_keeps_its_endpoints() {
    let s = span(10, 20);
    assert_eq!(s.start, at(10));
    assert_eq!(s.end, at(20));
    assert_eq!(s, Timespan { start: at(10), end: at(20) });
}

#[test]
fn timespan_of_no_length_is_refused() {
    assert_eq!(Timespan::new(at(10), at(10)), Err(ReservationError::InvalidTime));
}

#[test]
fn inverted_timespan_is_refused() {
    assert_eq!(Timespan::new(at(20), at(10)), Err(ReservationError::InvalidTime));
    let late = UtcDateTime::from_timestamp(10, 1).unwrap();
    assert_eq!(Timespan::new(late, at(10)), Err(ReservationError::InvalidTime));
}

#[test]
fn timespan_of_one_nanosecond_is_accepted() {
    let end = UtcDateTime::from_timestamp(10, 1).unwrap();
    assert_eq!(Timespan::new(at(10), end), Ok(Timespan { start: at(10), end }));
}

#[test]
fn overlapping_timespans_overlap() {
    // partial overlap
    assert!(span(10, 20).overlaps(&span(15, 25)));
    assert!(span(15, 25).overlaps(&span(10, 20)));
    // one inside the other
    assert!(span(10, 40).overlaps(&span(20, 30)));
    assert!(span(20, 30).overlaps(&span(10, 40)));
    // identical
    assert!(span(10, 20).overlaps(&span(10, 20)));
    // shared start or shared end
    assert!(span(10, 20).overlaps(&span(10, 15)));
    assert!(span(10, 20).overlaps(&span(15, 20)));
    // one second in common
    assert!(span(10, 20).overlaps(&span(19, 30)));
}

#[test]
fn back_to_back_timespans_do_not_overlap() {
    assert!(!span(10, 20).overlaps(&span(20, 30)));
    assert!(!span(20, 30).overlaps(&span(10, 20)));
}

#[test]
fn timespans_apart_do_not_overlap() {
    assert!(!span(10, 20).overlaps(&span(21, 30)));
    assert!(!span(21, 30).overlaps(&span(10, 20)));
    assert!(!span(-30, -20).overlaps(&span(10, 20)));
}

#[test]
fn overlap_goes_down_to_the_nanosecond() {
    let a = Timespan::new(at(10), UtcDateTime::from_timestamp(20, 1).unwrap()).unwrap();
    let b = span(20, 30);
    assert!(a.overlaps(&b));
    assert!(b.overlaps(&a));
    let c = Timespan::new(UtcDateTime::from_timestamp(20, 1).unwrap(), at(30)).unwrap();
    assert!(!a.overlaps(&c));
}

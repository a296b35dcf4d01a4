use ringbuffer::bumsti;
use ringbuffer::ringbuffer::RingError;
use ringbuffer::ringbuffer::Ringbuffer;

fn drain(rb: &Ringbuffer<i32>) -> Vec<i32> {
    let mut out: Vec<i32> = Vec::new();
    let mut iter = rb.into_iter();
    while let Some(v) = iter.next() {
        out.push(*v);
    }
    out
}

#[test]
fn zero_capacity_is_rejected() {
    let r: Result<Ringbuffer<i32>, RingError> = Ringbuffer::new(0, 0);
    assert_eq!(Some(RingError::InvalidCapacity), r.err());
}

#[test]
fn yields_min_of_pushes_and_capacity() {
    for cap in 1..8usize {
        for n in 0..12i32 {
            let mut rb: Ringbuffer<i32> = Ringbuffer::new(cap, 0).unwrap();
            for i in 0..n {
                rb.push(i);
            }
            let expected = if (n as usize) < cap { n as usize } else { cap };
            assert_eq!(expected, drain(&rb).len());
        }
    }
}

#[test]
fn order_is_newest_to_oldest() {
    let mut rb: Ringbuffer<i32> = Ringbuffer::new(5, 0).unwrap();
    rb.push(1);
    rb.push(2);
    rb.push(3);
    assert_eq!(vec![3, 2, 1], drain(&rb));
}

#[test]
fn overwrite_keeps_only_last_capacity_values() {
    let mut rb: Ringbuffer<i32> = Ringbuffer::new(3, 0).unwrap();
    for i in 1..6 {
        rb.push(i);
    }
    assert_eq!(vec![5, 4, 3], drain(&rb));
}

#[test]
fn iteration_is_restartable() {
    let mut rb: Ringbuffer<i32> = Ringbuffer::new(4, 0).unwrap();
    for i in 1..7 {
        rb.push(i);
    }
    assert_eq!(drain(&rb), drain(&rb));
    assert_eq!(vec![6, 5, 4, 3], drain(&rb));
}

#[test]
fn early_termination_has_no_side_effects() {
    let mut rb: Ringbuffer<i32> = Ringbuffer::new(4, 0).unwrap();
    rb.push(1);
    rb.push(2);
    rb.push(3);

    let mut iter = rb.into_iter();
    assert_eq!(3, *iter.next().unwrap());
    drop(iter);

    assert_eq!(vec![3, 2, 1], drain(&rb));
    rb.push(4);
    assert_eq!(vec![4, 3, 2, 1], drain(&rb));
}

#[test]
fn exhausted_iterator_stays_exhausted() {
    let mut rb: Ringbuffer<i32> = Ringbuffer::new(2, 0).unwrap();
    rb.push(7);
    let mut iter = rb.into_iter();
    assert_eq!(7, *iter.next().unwrap());
    assert!(iter.next().is_none());
    assert!(iter.next().is_none());
    assert!(iter.next().is_none());
}

#[test]
fn fill_placeholder_is_never_yielded() {
    let mut rb: Ringbuffer<i32> = Ringbuffer::new(3, 99).unwrap();
    rb.push(1);
    assert_eq!(vec![1], drain(&rb));
}

#[test]
fn bumsti_formula() {
    assert_eq!(1134, bumsti(17));
    assert_eq!(420, bumsti(0));
    assert_eq!(378, bumsti(-1));
    assert_eq!(42 * -100 + 420, bumsti(-100));
}

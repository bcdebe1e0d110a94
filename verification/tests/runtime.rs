use name_it::{align_of_fut, size_of_fut, FutParams, Named};

struct ReadyU64;

impl FutParams for ReadyU64 {
    type Fut = core::future::Ready<u64>;
    type Output = u64;
}

struct Pending16;

impl FutParams for Pending16 {
    type Fut = core::future::Ready<[u16; 3]>;
    type Output = [u16; 3];
}

#[test]
fn size_of_fut_is_the_future_size() {
    assert_eq!(
        size_of_fut(&ReadyU64),
        core::mem::size_of::<core::future::Ready<u64>>()
    );
    assert_eq!(
        size_of_fut(&Pending16),
        core::mem::size_of::<core::future::Ready<[u16; 3]>>()
    );
}

#[test]
fn align_of_fut_is_the_future_alignment() {
    assert_eq!(
        align_of_fut(&ReadyU64),
        core::mem::align_of::<core::future::Ready<u64>>()
    );
    assert_eq!(align_of_fut(&Pending16), 2);
}

#[test]
fn size_is_a_multiple_of_alignment() {
    let s = size_of_fut(&Pending16);
    let a = align_of_fut(&Pending16);
    assert!(a.is_power_of_two());
    assert_eq!(s % a, 0);
}

#[test]
fn named_wraps_any_value() {
    let n = Named::new(5u8);
    let moved = n;
    assert_eq!(moved.into_inner(), 5u8);
    let m = Named::new(String::from("fut"));
    assert_eq!(m.into_inner(), "fut");
}

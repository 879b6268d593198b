use exif::MutOnce;

#[test]
fn repeated_muts() {
    let mut mo = MutOnce::new(Vec::new());
    {
        let mutvec = mo.get_mut();
        mutvec.push(1);
        mutvec.push(2);
    }
    {
        let mutvec = mo.get_mut();
        mutvec.push(3);
    }
    let vec = mo.get_ref();
    assert_eq!(vec[0], 1);
    assert_eq!(vec[1], 2);
    assert_eq!(vec[2], 3);
}

#[test]
fn temporary_value() {
    let mut mo = MutOnce::new(Vec::new());
    mo.get_mut().push(1);
    mo.get_mut().push(2);
    assert_eq!(mo.get_ref()[0], 1);
    assert_eq!(mo.get_ref()[1], 2);
}

#[test]
fn into_inner() {
    let mut mo = MutOnce::new(Vec::new());
    mo.get_mut().push(1);
    mo.get_mut().push(7);
    assert_eq!(mo.into_inner(), vec![1, 7])
}

#[test]
fn fixed_after_get_ref() {
    let mut mo = MutOnce::new(5u32);
    assert!(!mo.is_fixed());
    *mo.get_mut() += 2;
    assert!(!mo.is_fixed());
    assert_eq!(*mo.get_ref(), 7);
    assert!(mo.is_fixed());
    assert_eq!(*mo.peek(), 7);
}

#[test]
fn default() {
    let mut mo = MutOnce::<u32>::default();
    *mo.get_mut() += 9;
    assert_eq!(*mo.get_ref(), 9);
}

#[test]
fn from() {
    let mut mo: MutOnce<_> = From::from(0);
    *mo.get_mut() += 9;
    assert_eq!(*mo.get_ref(), 9);
    let mut mo: MutOnce<_> = 0.into();
    *mo.get_mut() += 9;
    assert_eq!(*mo.get_ref(), 9);
}

#[test]
fn clone_keeps_state() {
    let mut mo = MutOnce::new(vec![1u8]);
    mo.get_mut().push(2);
    let open = mo.clone_custom();
    assert!(!open.is_fixed());
    let _ = mo.get_ref();
    let fixed = mo.clone_custom();
    assert!(fixed.is_fixed());
    assert_eq!(fixed.into_inner(), vec![1, 2]);
    assert_eq!(open.into_inner(), vec![1, 2]);
}

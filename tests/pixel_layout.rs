use xbrz::pixel::{argb_from_bytes, argb_to_bytes};

#[test]
fn reinterpret_as_argb() {
    let arr = vec![0u8, 1, 2, 3, 4, 5, 6, 7];
    let b = argb_from_bytes(&arr);
    // Every byte is read, from the first on: writing the pixels back gives
    // the bytes again, and nothing is left over after the last pixel.
    let s: &[u8] = &arr[b.len() * 4..];
    assert_eq!(argb_to_bytes(&b), arr);
    assert_eq!(s.len(), 0);
    assert_eq!(b.len(), 2);
    assert_eq!((1, 2, 3, 0), b[0].to_rgba_parts());
    assert_eq!((5, 6, 7, 4), b[1].to_rgba_parts());
}

#[test]
fn transmute_argb_vec() {
    let source = vec![0u8, 1, 2, 3, 4, 5, 6, 7];
    let new_u8 = {
        let argb_slice = argb_from_bytes(&source);
        let new_argb = argb_slice.to_owned();
        argb_to_bytes(&new_argb)
    };

    assert_eq!(source, new_u8);
}

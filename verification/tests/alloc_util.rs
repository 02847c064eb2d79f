use zenraw::alloc_util::{alloc_filled, resolve_fallible, vec_with_capacity, AllocPref};
use zenraw::error::{RawError, RawLimitKind};

#[test]
fn codec_default_keeps_site_default_true() {
    assert!(resolve_fallible(AllocPref::CodecDefault, true));
}

#[test]
fn codec_default_keeps_site_default_false() {
    assert!(!resolve_fallible(AllocPref::CodecDefault, false));
}

#[test]
fn explicit_fallible_overrides_any_site_default() {
    assert!(resolve_fallible(AllocPref::Fallible, false));
    assert!(resolve_fallible(AllocPref::Fallible, true));
}

#[test]
fn explicit_infallible_overrides_any_site_default() {
    assert!(!resolve_fallible(AllocPref::Infallible, true));
    assert!(!resolve_fallible(AllocPref::Infallible, false));
}

#[test]
fn alloc_filled_all_modes_equal_bytes() {
    let a = alloc_filled(AllocPref::CodecDefault, true, 0.0f32, 4096).unwrap();
    let b = alloc_filled(AllocPref::Infallible, true, 0.0f32, 4096).unwrap();
    let c = alloc_filled(AllocPref::Fallible, false, 0.0f32, 4096).unwrap();
    assert_eq!(a.len(), 4096);
    assert_eq!(a, b);
    assert_eq!(a, c);
    assert!(a.iter().all(|&x| x == 0.0));
}

#[test]
fn alloc_filled_nonzero_fill() {
    let v = alloc_filled(AllocPref::Fallible, true, 0.5f32, 8).unwrap();
    assert_eq!(v, vec![0.5f32; 8]);
}

#[test]
fn vec_with_capacity_reserves_and_is_empty() {
    let a: Vec<f32> = vec_with_capacity(AllocPref::Infallible, false, 1024).unwrap();
    let b: Vec<f32> = vec_with_capacity(AllocPref::Fallible, false, 1024).unwrap();
    assert_eq!(a.len(), 0);
    assert_eq!(b.len(), 0);
    assert!(a.capacity() >= 1024);
    assert!(b.capacity() >= 1024);
}

#[test]
fn alloc_filled_fallible_oom_returns_err() {
    let r = alloc_filled(AllocPref::Fallible, true, 0.0f32, usize::MAX / 8);
    assert!(r.is_err());
    assert!(matches!(
        r.unwrap_err(),
        RawError::LimitExceeded(RawLimitKind::Memory, _)
    ));
}

#[test]
fn vec_with_capacity_fallible_oom_returns_err() {
    let r: Result<Vec<f32>, _> = vec_with_capacity(AllocPref::Fallible, true, usize::MAX / 8);
    assert!(r.is_err());
    assert!(matches!(
        r.unwrap_err(),
        RawError::LimitExceeded(RawLimitKind::Memory, _)
    ));
}

#[test]
fn alloc_pref_default_is_codec_default() {
    assert_eq!(AllocPref::default(), AllocPref::CodecDefault);
}

#[test]
fn out_of_memory_message_names_the_count() {
    match alloc_filled(AllocPref::Fallible, true, 0u64, usize::MAX / 16) {
        Err(RawError::LimitExceeded(RawLimitKind::Memory, msg)) => {
            assert!(msg.contains(&(usize::MAX / 16).to_string()), "{msg}");
        }
        other => panic!("unexpected {other:?}"),
    }
}

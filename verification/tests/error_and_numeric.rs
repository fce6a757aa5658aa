use rotex_wgpu::registry::BridgeState;
use rotex_wgpu::error::{surface_not_attached_error, Error, ErrorKind, Severity};
use rotex_wgpu::numeric::{align_to, align_to_u64};

#[test]
fn error_constructors_set_severity() {
    let e = Error::new(ErrorKind::SurfaceLost, Severity::Warning);
    assert_eq!(e.severity, Severity::Warning);
    assert!(matches!(e.kind, ErrorKind::SurfaceLost));
    let f = Error::fatal(ErrorKind::Backend("x"));
    assert_eq!(f.severity, Severity::Fatal);
    assert!(matches!(f.kind, ErrorKind::Backend("x")));
    let r = Error::recoverable(ErrorKind::SurfaceTimeout);
    assert_eq!(r.severity, Severity::Recoverable);
    assert!(matches!(r.kind, ErrorKind::SurfaceTimeout));
}

#[test]
fn surface_not_attached_error_is_fatal() {
    let e = surface_not_attached_error();
    assert_eq!(e.severity, Severity::Fatal);
    assert!(matches!(e.kind, ErrorKind::SurfaceNotAttached));
}

#[test]
fn error_to_string_prints_severity_and_kind() {
    let e = Error::recoverable(ErrorKind::ResourceNotFound("material"));
    assert_eq!(e.to_string(), "Recoverable: ResourceNotFound(\"material\")");
    let f = Error::fatal(ErrorKind::NoCompatibleDevice);
    assert_eq!(f.to_string(), "Fatal: NoCompatibleDevice");
    let q = Error::new(ErrorKind::Unsupported("a\"b"), Severity::Info);
    assert_eq!(q.to_string(), format!("{:?}: {:?}", Severity::Info, ErrorKind::Unsupported("a\"b")));
}

#[test]
fn align_to_rounds_up_to_multiples() {
    assert_eq!(align_to(5, 4), 8);
    assert_eq!(align_to(8, 4), 8);
    assert_eq!(align_to(0, 4), 0);
    assert_eq!(align_to(7, 0), 7);
    assert_eq!(align_to(257, 256), 512);
    assert_eq!(align_to(1, 3), 3);
}

#[test]
fn align_to_u64_rounds_up_to_multiples() {
    assert_eq!(align_to_u64(5, 4), 8);
    assert_eq!(align_to_u64(4, 4), 4);
    assert_eq!(align_to_u64(0, 4), 0);
    assert_eq!(align_to_u64(9, 0), 9);
    assert_eq!(align_to_u64(1 << 40, 256), 1 << 40);
}

#[test]
fn object_buffer_grows_to_next_power_of_two() {
    let mut s = BridgeState::new(4, 3);
    assert_eq!(s.ensure_object_buffer_capacity(5), Some(32));
    assert_eq!(s.object_buffer_capacity, 8);
    let mut t = BridgeState::new(4, 1);
    assert_eq!(t.ensure_object_buffer_capacity(0x8000_0000), Some(4 * 0x8000_0000));
    assert_eq!(t.object_buffer_capacity, 0x8000_0000);
}

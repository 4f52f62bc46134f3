use rage_of_mages::screens::g_init;

#[test]
fn kinds_configure_their_arms() {
    let k0 = g_init(0);
    assert_eq!(k0.b, 0);
    assert!(k0.f67a.is_none());
    assert!(k0.f68k);
    assert_eq!(k0.f103e, 15);

    let k8 = g_init(8);
    assert_eq!(k8.f67a.as_ref().map(|v| v.len()), Some(280));
    assert_eq!((k8.z, k8.c_upper), (279, 100));

    let k3 = g_init(3);
    assert_eq!(k3.b, 3);
    assert!(k3.f67a.is_none());
}

#[test]
fn field_initializers_hold_for_every_kind() {
    for kind in [0, 1, 7, 8, 22, -1] {
        let s = g_init(kind);
        assert_eq!(s.b, kind);
        assert_eq!(s.f65h.len(), 13);
        assert_eq!(s.f65h[0], vec![10, 42, 0]);
        assert_eq!(s.f76i.len(), 16);
        assert_eq!(s.f76i[14], vec![39, 4]);
        assert_eq!(s.f95a, vec![0x20u16; 8]);
        assert_eq!(s.f99r, vec![0, 2, 3, 4]);
        assert_eq!(s.f100s, vec![0, 1, 3, 4]);
        assert_eq!(s.f114w, vec![53, 94, 147, 204, 279]);
        assert_eq!(s.f102c, vec![0i8; 13]);
    }
    let k8 = g_init(8);
    assert!(k8.f67a.unwrap().iter().all(|&b| b == 0));
    assert_eq!((k8.x, k8.y, k8.a_upper, k8.b_upper), (0, 0, 0, 0));
    let k1 = g_init(1);
    assert_eq!((k1.z, k1.c_upper), (0, 0));
}

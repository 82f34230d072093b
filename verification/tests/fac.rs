use wasmer_support::fac::{
    c1_l84_action_invoke, c2_l85_action_invoke, c3_l86_action_invoke, c4_l87_action_invoke,
    c5_l88_action_invoke, create_module_1, fac_iter, fac_opt, fac_rec, start_module_1,
};

#[test]
fn test_module_1() {
    let result_object = create_module_1();
    // We group the calls together
    start_module_1(&result_object);
    assert_eq!(c1_l84_action_invoke(&result_object), 7034535277573963776i64);
    assert_eq!(c2_l85_action_invoke(&result_object), 7034535277573963776i64);
    assert_eq!(c3_l86_action_invoke(&result_object), 7034535277573963776i64);
    assert_eq!(c4_l87_action_invoke(&result_object), 7034535277573963776i64);
    assert_eq!(c5_l88_action_invoke(&result_object), 7034535277573963776i64);
}

#[test]
fn fac_small_values() {
    for (n, expected) in [(0i64, 1i64), (1, 1), (2, 2), (5, 120), (20, 2432902008176640000)] {
        assert_eq!(fac_rec(n), expected);
        assert_eq!(fac_iter(n), expected);
        assert_eq!(fac_opt(n), expected);
    }
}

#[test]
fn fac_wraps_like_i64() {
    let mut expected: i64 = 1;
    for n in 1..=40i64 {
        expected = expected.wrapping_mul(n);
        assert_eq!(fac_rec(n), expected);
        assert_eq!(fac_iter(n), expected);
        assert_eq!(fac_opt(n), expected);
    }
}

#[test]
fn fac_opt_of_negative_is_one() {
    assert_eq!(fac_opt(-7), 1);
    assert_eq!(fac_opt(i64::MIN), 1);
}

#[test]
fn fac_exports_by_name() {
    let m = create_module_1();
    assert_eq!(m.export_index("fac-rec"), Some(0));
    assert_eq!(m.export_index("fac-opt"), Some(4));
    assert_eq!(m.export_index("fac"), None);
    assert_eq!(m.invoke("fac-iter-named", 6), Some(720));
    assert_eq!(m.invoke("missing", 6), None);
    assert_eq!(m.call(4, 3), 6);
}

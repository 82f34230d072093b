use wasmer_support::linking::{_dlclose, _dlerror, _dlopen, _dlsym};

#[test]
fn linking_always_fails() {
    assert_eq!(_dlopen(0, 0), -1);
    assert_eq!(_dlopen(1234, 2), -1);
    assert_eq!(_dlclose(7), -1);
    assert_eq!(_dlsym(1, 2), -1);
    assert_eq!(_dlerror(), -1);
}

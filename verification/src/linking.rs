//! The dynamic-linking imports of the emscripten environment. Dynamic
//! loading is not provided, so each import reports failure.

use vstd::prelude::*;

verus! {

/// `dlopen(filename, flag)`: no library can be opened; the null handle
/// is reported as -1.
pub fn _dlopen(_filename: u32, _flag: u32) -> (r: i32)
    ensures
        r == -1,
{
    -1
}

/// `dlclose(handle)`: there is nothing to close; fails with -1.
pub fn _dlclose(_filename: u32) -> (r: i32)
    ensures
        r == -1,
{
    -1
}

/// `dlsym(handle, symbol)`: no symbol can be found; -1.
pub fn _dlsym(_filepath: u32, _symbol: u32) -> (r: i32)
    ensures
        r == -1,
{
    -1
}

/// `dlerror()`: no error message is available; -1.
pub fn _dlerror() -> (r: i32)
    ensures
        r == -1,
{
    -1
}

} // verus!

//! Program start-up: where `argv` and `envp` lie on the initial stack, and
//! the unwinding personality routine.
use vstd::prelude::*;

verus! {

/// The personality routine for unwinding. Nothing here unwinds, so it does nothing.
pub fn rust_eh_personality() {
}

/// Offsets, in machine words from the initial stack pointer, of `argv` and
/// `envp`: the stack holds `argc`, then the `argc` argument pointers and a
/// null, then the environment.
pub fn entry_offsets(argc: usize) -> (r: (isize, isize))
    requires
        argc + 2 <= isize::MAX,
    ensures
        r.0 == 1,
        r.1 == argc + 2,
{
    let envp_offset: isize = 2 + (argc as isize);
    (1, envp_offset)
}

} // verus!

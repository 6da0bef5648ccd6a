//! Fixed-size handles that foreign callers hold without seeing inside.
use vstd::prelude::*;

verus! {

/// A borrowed hello closure: three machine words.
#[allow(non_camel_case_types)]
#[derive(Clone, Copy, Debug, PartialEq, Eq)]
pub struct z_loaned_closure_hello_t {
    _0: [usize; 3],
}

/// A borrowed query closure: three machine words.
#[allow(non_camel_case_types)]
#[derive(Clone, Copy, Debug, PartialEq, Eq)]
pub struct z_loaned_closure_query_t {
    _0: [usize; 3],
}

/// A borrowed owned-query closure: three machine words.
#[allow(non_camel_case_types)]
#[derive(Clone, Copy, Debug, PartialEq, Eq)]
pub struct z_loaned_closure_owned_query_t {
    _0: [usize; 3],
}

/// A borrowed reply-channel closure: three machine words.
#[allow(non_camel_case_types)]
#[derive(Clone, Copy, Debug, PartialEq, Eq)]
pub struct z_loaned_reply_channel_closure_t {
    _0: [usize; 3],
}

/// A borrowed id closure: three machine words.
#[allow(non_camel_case_types)]
#[derive(Clone, Copy, Debug, PartialEq, Eq)]
pub struct z_loaned_closure_zid_t {
    _0: [usize; 3],
}

/// The attributes of a task (none are read yet).
#[allow(non_camel_case_types)]
#[derive(Clone, Copy, Debug, PartialEq, Eq)]
pub struct z_task_attr_t(pub usize);

} // verus!

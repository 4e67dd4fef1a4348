//! The dialogs of the window that hold state of their own.

use vstd::prelude::*;

verus! {

/// The dialog that is to show the details of a task; it holds nothing yet.
pub struct DetailDialog {}

} // verus!

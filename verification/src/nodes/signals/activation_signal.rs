use vstd::prelude::*;
use crate::base::nodes::base::node::{Node, NodeRef};

verus! {

/// A signal that is raised (`Some(())`) for one turn to make a process act.
pub type ActivationSignal = Option<()>;

/// A node holding an activation signal.
pub type ActivationSignalNode = Node<ActivationSignal>;

/// A reference to an activation signal node.
pub type ActivationSignalNRef<'a> = NodeRef<'a, ActivationSignal>;

} // verus!

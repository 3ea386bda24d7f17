//! The state a validator publishes on the network: an identifier, a
//! name, and the node it runs.

use vstd::prelude::*;

use crate::numtext::{dec_rep, push_dec_u64};

verus! {

/// A node of the network; it carries no data of its own.
#[derive(Debug, Clone)]
pub struct Node {}

impl Default for Node {
    /// The one value a node can take.
    fn default() -> (r: Node) {
        Node {  }
    }
}

/// The state of one validator.
#[derive(Debug, Clone)]
pub struct NetworkState {
    /// The validator's numeric identifier.
    pub validator_id: u64,
    /// The validator's name.
    pub validator_name: String,
    /// The node the validator runs.
    pub node: Node,
}

impl NetworkState {
    /// The rendered state line: the identifier, a space, the name.
    pub open spec fn spec_display(self) -> Seq<char> {
        "network state: "@ + dec_rep(self.validator_id as nat) + " "@ + self.validator_name@
    }

    /// Render the state line.
    pub fn display(&self) -> (r: String)
        ensures
            r@ == self.spec_display(),
    {
        let mut s = String::from_str("network state: ");
        push_dec_u64(&mut s, self.validator_id);
        s.append(" ");
        s.append(self.validator_name.as_str());
        proof {
            assert(s@ =~= self.spec_display());
        }
        s
    }

    /// Rename the validator; the identifier and the node stay.
    pub fn modify(&mut self)
        ensures
            final (self).validator_name@ == "other"@,
            final (self).validator_id == old(self).validator_id,
    {
        self.validator_name = String::from_str("other");
    }
}

impl Default for NetworkState {
    /// A fresh state: identifier zero, empty name.
    fn default() -> (r: NetworkState)
        ensures
            r.validator_id == 0,
            r.validator_name@ == Seq::<char>::empty(),
    {
        NetworkState { validator_id: 0, validator_name: String::new(), node: Node {  } }
    }
}

/// The network states a region can be in.
pub enum NetworkStates {
    /// A region run by one validator.
    ForestCity(NetworkState),
    /// A region named by a label alone.
    Zuitzerland(String),
    /// A region known by a number.
    Prospera(u32),
}

impl NetworkStates {
    /// Presentation hook for the state variants.
    pub fn display(&self) {
    }
}

} // verus!

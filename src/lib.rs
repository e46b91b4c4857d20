//! The account-leaf part of a Merkle-Patricia-Trie proof circuit: the RLC and
//! RLP decoding of leaf rows, the key and parent memory that links a leaf to
//! its ancestors, witness assignment and the identities of an account leaf
//! region (with its drifted-leaf and wrong-leaf cases), and the automaton that
//! orders the rows of the whole table.
use vstd::prelude::*;

pub mod account_leaf;
pub mod error;
pub mod field;
pub mod memory;
pub mod rlc;
pub mod rlp;
pub mod selectors;

verus! {

} // verus!

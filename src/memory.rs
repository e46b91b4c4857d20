use vstd::prelude::*;
use crate::error::AssignError;
use crate::field::Fp;

verus! {

/// The key accumulation that a leaf receives from its ancestor branches.
#[derive(Clone, Copy, Debug, PartialEq, Eq, Structural)]
pub struct KeyData {
    /// RLC of the key nibbles consumed so far.
    pub rlc: Fp,
    /// The multiplier at which the next key byte stands.
    pub mult: Fp,
    /// How many nibbles the ancestors consumed.
    pub num_nibbles: u64,
    /// Whether that count is odd (a key byte is half filled).
    pub is_odd: bool,
    pub is_placeholder_leaf_s: bool,
    pub is_placeholder_leaf_c: bool,
    /// The key RLC of the path to the slot of a drifted leaf: the path
    /// through the last branch to the leaf's slot in it.
    pub drifted_rlc: Fp,
    pub drifted_mult: Fp,
    pub drifted_num_nibbles: u64,
    pub drifted_is_odd: bool,
}

impl KeyData {
    /// The state at the root of a trie: nothing consumed yet.
    pub open spec fn is_start(self) -> bool {
        &&& self.rlc.val() == 0
        &&& self.mult.val() == 1
        &&& self.num_nibbles == 0
        &&& !self.is_odd
        &&& !self.is_placeholder_leaf_s
        &&& !self.is_placeholder_leaf_c
        &&& self.drifted_rlc.val() == 0
        &&& self.drifted_mult.val() == 1
        &&& self.drifted_num_nibbles == 0
        &&& !self.drifted_is_odd
    }

    /// The start state, with its cells fixed.
    pub open spec fn start_spec() -> KeyData {
        KeyData {
            rlc: Fp::zero_spec(),
            mult: Fp::one_spec(),
            num_nibbles: 0,
            is_odd: false,
            is_placeholder_leaf_s: false,
            is_placeholder_leaf_c: false,
            drifted_rlc: Fp::zero_spec(),
            drifted_mult: Fp::one_spec(),
            drifted_num_nibbles: 0,
            drifted_is_odd: false,
        }
    }

    pub fn start() -> (r: KeyData)
        ensures
            r.is_start(),
            r == KeyData::start_spec(),
    {
        KeyData {
            rlc: Fp::zero(),
            mult: Fp::one(),
            num_nibbles: 0,
            is_odd: false,
            is_placeholder_leaf_s: false,
            is_placeholder_leaf_c: false,
            drifted_rlc: Fp::zero(),
            drifted_mult: Fp::one(),
            drifted_num_nibbles: 0,
            drifted_is_odd: false,
        }
    }
}

/// The hash and placeholder status of a node's parent.
#[derive(Clone, Copy, Debug, PartialEq, Eq, Structural)]
pub struct ParentData {
    /// RLC of the hash that the child must hash to.
    pub rlc: Fp,
    /// The parent is a placeholder branch (the branch exists on one side only).
    pub is_placeholder: bool,
    /// The child is a placeholder leaf.
    pub is_placeholder_leaf: bool,
    /// RLC of the hash that a drifted leaf must hash to.
    pub hash_rlc: Fp,
}

/// An append-only log of stored records for one trie side. A load at depth
/// `d` reads the record stored `d` stores ago, so that deeper stores are
/// read before shallower ones, as a depth-first walk of the trie needs.
pub struct MemoryChannel<T> {
    log: Vec<T>,
}

impl<T: Copy> View for MemoryChannel<T> {
    type V = Seq<T>;

    closed spec fn view(&self) -> Seq<T> {
        self.log@
    }
}

/// The result of a load at `depth` from a channel holding `log`.
pub open spec fn load_spec<T>(log: Seq<T>, depth: nat) -> Result<T, AssignError> {
    if depth < log.len() {
        Ok(log[log.len() - 1 - depth])
    } else {
        Err(AssignError::MissingStore)
    }
}

/// A load at depth zero reads the record just stored, and a store pushes
/// every earlier record one depth down.
pub proof fn lemma_load_after_store<T>(log: Seq<T>, value: T, depth: nat)
    ensures
        load_spec(log.push(value), 0) == Ok::<T, AssignError>(value),
        load_spec(log.push(value), depth + 1) == load_spec(log, depth),
{
}

impl<T: Copy> MemoryChannel<T> {
    pub fn new() -> (r: MemoryChannel<T>)
        ensures
            r@ == Seq::<T>::empty(),
    {
        MemoryChannel { log: Vec::new() }
    }

    /// Appends a record.
    pub fn store(&mut self, value: T)
        ensures
            final(self)@ == old(self)@.push(value),
    {
        self.log.push(value);
    }

    /// Reads the record stored `depth` stores ago.
    pub fn load(&self, depth: usize) -> (r: Result<T, AssignError>)
        ensures
            r == load_spec(self@, depth as nat),
    {
        if depth < self.log.len() {
            Ok(self.log[self.log.len() - 1 - depth])
        } else {
            Err(AssignError::MissingStore)
        }
    }

    pub fn len(&self) -> (r: usize)
        ensures
            r == self@.len(),
    {
        self.log.len()
    }
}

/// Some store of the channel holding `log` wrote `value`.
pub open spec fn stored<T>(log: Seq<T>, value: T) -> bool {
    exists|i: int| 0 <= i < log.len() && #[trigger] log[i] == value
}

impl MemoryChannel<KeyData> {
    /// Whether some store wrote `value`.
    pub fn holds(&self, value: KeyData) -> (r: bool)
        ensures
            r == stored(self@, value),
    {
        let mut i: usize = 0;
        while i < self.log.len()
            invariant
                i <= self.log@.len(),
                forall|j: int| 0 <= j < i ==> self.log@[j] != value,
            decreases self.log@.len() - i,
        {
            if self.log[i] == value {
                assert(self.log@[i as int] == value);
                return true;
            }
            i = i + 1;
        }
        false
    }
}

impl MemoryChannel<ParentData> {
    /// Whether some store wrote `value`.
    pub fn holds(&self, value: ParentData) -> (r: bool)
        ensures
            r == stored(self@, value),
    {
        let mut i: usize = 0;
        while i < self.log.len()
            invariant
                i <= self.log@.len(),
                forall|j: int| 0 <= j < i ==> self.log@[j] != value,
            decreases self.log@.len() - i,
        {
            if self.log[i] == value {
                assert(self.log@[i as int] == value);
                return true;
            }
            i = i + 1;
        }
        false
    }
}

/// The four channels of one proof: key and parent state, for the state
/// before (S) and after (C) the modification.
pub struct ProofMemory {
    pub key_s: MemoryChannel<KeyData>,
    pub key_c: MemoryChannel<KeyData>,
    pub parent_s: MemoryChannel<ParentData>,
    pub parent_c: MemoryChannel<ParentData>,
}

impl ProofMemory {
    pub fn new() -> (r: ProofMemory)
        ensures
            r.key_s@.len() == 0,
            r.key_c@.len() == 0,
            r.parent_s@.len() == 0,
            r.parent_c@.len() == 0,
    {
        ProofMemory {
            key_s: MemoryChannel::new(),
            key_c: MemoryChannel::new(),
            parent_s: MemoryChannel::new(),
            parent_c: MemoryChannel::new(),
        }
    }

    /// The key channel of one side.
    pub open spec fn key(self, is_s: bool) -> Seq<KeyData> {
        if is_s {
            self.key_s@
        } else {
            self.key_c@
        }
    }

    /// The parent channel of one side.
    pub open spec fn parent(self, is_s: bool) -> Seq<ParentData> {
        if is_s {
            self.parent_s@
        } else {
            self.parent_c@
        }
    }
}

} // verus!

use vstd::prelude::*;

verus! {

/// The row types, in the order of their selector columns.
#[derive(Clone, Copy, Debug, PartialEq, Eq, Structural)]
pub enum RowType {
    BranchInit,
    BranchChild,
    ExtS,
    ExtC,
    LeafSKey,
    LeafSValue,
    LeafCKey,
    LeafCValue,
    LeafInAddedBranch,
    LeafNonExisting,
    AccKeyS,
    AccKeyC,
    AccNonExistRow,
    AccNonceBalS,
    AccNonceBalC,
    AccStorCodeS,
    AccStorCodeC,
    AccInAddedBranch,
}

/// The number of row-type selector columns.
pub const NUM_ROW_TYPES: usize = 18;
/// The number of proof-type selector columns.
pub const NUM_PROOF_TYPES: usize = 7;

/// The row type of the selector column at `k`.
pub open spec fn row_type_at(k: int) -> RowType {
    if k == 0 {
        RowType::BranchInit
    } else if k == 1 {
        RowType::BranchChild
    } else if k == 2 {
        RowType::ExtS
    } else if k == 3 {
        RowType::ExtC
    } else if k == 4 {
        RowType::LeafSKey
    } else if k == 5 {
        RowType::LeafSValue
    } else if k == 6 {
        RowType::LeafCKey
    } else if k == 7 {
        RowType::LeafCValue
    } else if k == 8 {
        RowType::LeafInAddedBranch
    } else if k == 9 {
        RowType::LeafNonExisting
    } else if k == 10 {
        RowType::AccKeyS
    } else if k == 11 {
        RowType::AccKeyC
    } else if k == 12 {
        RowType::AccNonExistRow
    } else if k == 13 {
        RowType::AccNonceBalS
    } else if k == 14 {
        RowType::AccNonceBalC
    } else if k == 15 {
        RowType::AccStorCodeS
    } else if k == 16 {
        RowType::AccStorCodeC
    } else {
        RowType::AccInAddedBranch
    }
}

impl RowType {
    pub fn from_index(k: usize) -> (r: RowType)
        requires
            k < NUM_ROW_TYPES,
        ensures
            r == row_type_at(k as int),
    {
        match k {
            0 => RowType::BranchInit,
            1 => RowType::BranchChild,
            2 => RowType::ExtS,
            3 => RowType::ExtC,
            4 => RowType::LeafSKey,
            5 => RowType::LeafSValue,
            6 => RowType::LeafCKey,
            7 => RowType::LeafCValue,
            8 => RowType::LeafInAddedBranch,
            9 => RowType::LeafNonExisting,
            10 => RowType::AccKeyS,
            11 => RowType::AccKeyC,
            12 => RowType::AccNonExistRow,
            13 => RowType::AccNonceBalS,
            14 => RowType::AccNonceBalC,
            15 => RowType::AccStorCodeS,
            16 => RowType::AccStorCodeC,
            _ => RowType::AccInAddedBranch,
        }
    }
}

/// The kinds of proof, in the order of their selector columns; exactly one
/// holds for each proof.
#[derive(Clone, Copy, Debug, PartialEq, Eq, Structural)]
pub enum ProofType {
    NonceChanged,
    BalanceChanged,
    CodeHashExists,
    AccountDoesNotExist,
    AccountDeleteMod,
    StorageChanged,
    StorageDoesNotExist,
}

/// The proof type of the selector column at `k`.
pub open spec fn proof_type_at(k: int) -> ProofType {
    if k == 0 {
        ProofType::NonceChanged
    } else if k == 1 {
        ProofType::BalanceChanged
    } else if k == 2 {
        ProofType::CodeHashExists
    } else if k == 3 {
        ProofType::AccountDoesNotExist
    } else if k == 4 {
        ProofType::AccountDeleteMod
    } else if k == 5 {
        ProofType::StorageChanged
    } else {
        ProofType::StorageDoesNotExist
    }
}

impl ProofType {
    /// The numeric code of the proof type in the MPT table.
    pub open spec fn code_spec(self) -> u64 {
        match self {
            ProofType::NonceChanged => 1,
            ProofType::BalanceChanged => 2,
            ProofType::CodeHashExists => 3,
            ProofType::AccountDoesNotExist => 4,
            ProofType::AccountDeleteMod => 5,
            ProofType::StorageChanged => 6,
            ProofType::StorageDoesNotExist => 7,
        }
    }

    /// The one row type on which the proof type's code may be published.
    pub open spec fn lookup_row_type(self) -> RowType {
        match self {
            ProofType::NonceChanged => RowType::AccNonceBalS,
            ProofType::BalanceChanged => RowType::AccNonceBalC,
            ProofType::CodeHashExists => RowType::AccStorCodeC,
            ProofType::AccountDoesNotExist => RowType::AccNonExistRow,
            ProofType::AccountDeleteMod => RowType::AccKeyS,
            ProofType::StorageChanged => RowType::LeafCValue,
            ProofType::StorageDoesNotExist => RowType::LeafNonExisting,
        }
    }

    pub fn code(&self) -> (r: u64)
        ensures
            r == self.code_spec(),
    {
        match self {
            ProofType::NonceChanged => 1,
            ProofType::BalanceChanged => 2,
            ProofType::CodeHashExists => 3,
            ProofType::AccountDoesNotExist => 4,
            ProofType::AccountDeleteMod => 5,
            ProofType::StorageChanged => 6,
            ProofType::StorageDoesNotExist => 7,
        }
    }

    pub fn from_index(k: usize) -> (r: ProofType)
        requires
            k < NUM_PROOF_TYPES,
        ensures
            r == proof_type_at(k as int),
    {
        match k {
            0 => ProofType::NonceChanged,
            1 => ProofType::BalanceChanged,
            2 => ProofType::CodeHashExists,
            3 => ProofType::AccountDoesNotExist,
            4 => ProofType::AccountDeleteMod,
            5 => ProofType::StorageChanged,
            _ => ProofType::StorageDoesNotExist,
        }
    }
}

/// The selector cells of one table row, as field values.
#[derive(Clone, Debug)]
pub struct SelectorRow {
    /// One column per row type, in the order of `RowType`.
    pub row_type: Vec<u64>,
    /// One column per proof type, in the order of `ProofType`.
    pub proof_type: Vec<u64>,
    /// The proof-type code published on this row, or zero.
    pub proof_type_id: u64,
    pub not_first_level: u64,
    pub is_last_child: u64,
    pub sel1: u64,
    pub sel2: u64,
    pub is_modified: u64,
    pub is_at_drifted_pos: u64,
}

pub open spec fn is_bool(x: u64) -> bool {
    x == 0 || x == 1
}

/// Column `k` is the only one set in `s`, and it holds one.
pub open spec fn one_hot(s: Seq<u64>, k: int) -> bool {
    &&& 0 <= k < s.len()
    &&& s[k] == 1
    &&& forall|j: int| 0 <= j < s.len() && j != k ==> s[j] == 0
}

/// The index of the set column of a one-hot sequence.
pub open spec fn hot_index(s: Seq<u64>) -> int {
    choose|k: int| one_hot(s, k)
}

pub open spec fn has_one_hot(s: Seq<u64>) -> bool {
    exists|k: int| one_hot(s, k)
}

impl SelectorRow {
    /// The row type that the row's selectors choose.
    pub open spec fn kind(self) -> RowType {
        row_type_at(hot_index(self.row_type@))
    }

    /// The proof type that the row's selectors choose.
    pub open spec fn proof_kind(self) -> ProofType {
        proof_type_at(hot_index(self.proof_type@))
    }

    /// The identities that hold on every enabled row: every selector is
    /// boolean, exactly one row type and one proof type are set, and a
    /// proof-type code stands only on the proof type's own lookup row, where
    /// it is that proof type's code.
    pub open spec fn well_formed(self) -> bool {
        &&& self.row_type@.len() == NUM_ROW_TYPES
        &&& self.proof_type@.len() == NUM_PROOF_TYPES
        &&& is_bool(self.not_first_level)
        &&& is_bool(self.is_last_child)
        &&& (self.row_type@[1] == 0 || is_bool(self.sel1))
        &&& (self.row_type@[1] == 0 || is_bool(self.sel2))
        &&& is_bool(self.is_modified)
        &&& is_bool(self.is_at_drifted_pos)
        &&& has_one_hot(self.row_type@)
        &&& has_one_hot(self.proof_type@)
        &&& (self.proof_type_id == 0 || (self.kind() == self.proof_kind().lookup_row_type()
            && self.proof_type_id == self.proof_kind().code_spec()))
    }
}

/// A row may follow `prev` (with its last-branch-child flag) only as the
/// transition table allows.
pub open spec fn transition_ok(prev: RowType, prev_last_child: bool, cur: RowType) -> bool {
    &&& (cur == RowType::BranchInit ==> prev == RowType::ExtC || prev
        == RowType::AccInAddedBranch || prev == RowType::LeafNonExisting)
    &&& (cur == RowType::AccKeyS ==> prev == RowType::ExtC || prev == RowType::LeafNonExisting)
    &&& (cur == RowType::LeafSKey ==> prev == RowType::ExtC || prev == RowType::AccInAddedBranch)
    &&& ((cur == RowType::ExtS) == prev_last_child)
    &&& ((cur == RowType::ExtC) == (prev == RowType::ExtS))
    &&& ((cur == RowType::AccKeyC) == (prev == RowType::AccKeyS))
    &&& ((cur == RowType::AccNonExistRow) == (prev == RowType::AccKeyC))
    &&& ((cur == RowType::AccNonceBalS) == (prev == RowType::AccNonExistRow))
    &&& ((cur == RowType::AccNonceBalC) == (prev == RowType::AccNonceBalS))
    &&& ((cur == RowType::AccStorCodeS) == (prev == RowType::AccNonceBalC))
    &&& ((cur == RowType::AccStorCodeC) == (prev == RowType::AccStorCodeS))
    &&& ((cur == RowType::AccInAddedBranch) == (prev == RowType::AccStorCodeC))
    &&& ((cur == RowType::LeafSValue) == (prev == RowType::LeafSKey))
    &&& ((cur == RowType::LeafCKey) == (prev == RowType::LeafSValue))
    &&& ((cur == RowType::LeafCValue) == (prev == RowType::LeafCKey))
    &&& ((cur == RowType::LeafInAddedBranch) == (prev == RowType::LeafCValue))
    &&& ((cur == RowType::LeafNonExisting) == (prev == RowType::LeafInAddedBranch))
}

/// The proof type carries over from `prev` to `cur`: always below the first
/// trie level, and on the first level except where a new proof starts.
pub open spec fn proof_type_kept(prev: SelectorRow, cur: SelectorRow) -> bool {
    (cur.not_first_level == 1 || (cur.kind() != RowType::BranchInit && cur.kind()
        != RowType::AccKeyS)) ==> cur.proof_kind() == prev.proof_kind()
}

/// Only an account key S row or a branch init row may open the table.
pub open spec fn first_row_ok(row: SelectorRow) -> bool {
    row.kind() == RowType::AccKeyS || row.kind() == RowType::BranchInit
}

/// Row `i > 0` may follow row `i - 1`.
pub open spec fn step_ok(prev: SelectorRow, cur: SelectorRow) -> bool {
    &&& transition_ok(prev.kind(), prev.is_last_child == 1, cur.kind())
    &&& proof_type_kept(prev, cur)
}

/// The selector identities hold on the whole table.
pub open spec fn rows_valid(rows: Seq<SelectorRow>) -> bool {
    &&& forall|i: int| 0 <= i < rows.len() ==> #[trigger] rows[i].well_formed()
    &&& (rows.len() > 0 ==> first_row_ok(rows[0]))
    &&& forall|i: int| 0 < i < rows.len() ==> step_ok(rows[i - 1], #[trigger] rows[i])
}

/// A one-hot sequence has one set column, which `hot_index` names.
pub proof fn lemma_hot_index(s: Seq<u64>, k: int)
    requires
        one_hot(s, k),
    ensures
        hot_index(s) == k,
{
    let j = hot_index(s);
    assert(one_hot(s, j));
}

/// Finds the set column of a one-hot selector group.
fn decode_one_hot(s: &Vec<u64>) -> (r: Option<usize>)
    ensures
        match r {
            Some(k) => one_hot(s@, k as int) && hot_index(s@) == k,
            None => !has_one_hot(s@),
        },
{
    let mut found: Option<usize> = None;
    let mut i: usize = 0;
    while i < s.len()
        invariant
            i <= s@.len(),
            match found {
                Some(k) => k < i && s@[k as int] == 1 && forall|j: int|
                    0 <= j < i && j != k ==> s@[j] == 0,
                None => forall|j: int| 0 <= j < i ==> s@[j] == 0,
            },
        decreases s@.len() - i,
    {
        if s[i] == 1 {
            if let Some(k) = found {
                proof {
                    assert forall|m: int| !one_hot(s@, m) by {
                        if one_hot(s@, m) {
                            if m != k as int {
                                assert(s@[k as int] == 0);
                            } else {
                                assert(s@[i as int] == 0);
                            }
                        }
                    }
                }
                return None;
            }
            found = Some(i);
        } else if s[i] != 0 {
            proof {
                assert forall|m: int| !one_hot(s@, m) by {
                    if one_hot(s@, m) {
                        assert(s@[i as int] == 0 || s@[i as int] == 1);
                    }
                }
            }
            return None;
        }
        i = i + 1;
    }
    match found {
        Some(k) => {
            proof {
                lemma_hot_index(s@, k as int);
            }
            Some(k)
        },
        None => {
            proof {
                assert forall|m: int| !one_hot(s@, m) by {
                    if one_hot(s@, m) {
                        assert(s@[m] == 0);
                    }
                }
            }
            None
        },
    }
}

fn is_bool_value(x: u64) -> (r: bool)
    ensures
        r == is_bool(x),
{
    x == 0 || x == 1
}

impl SelectorRow {
    /// Checks the identities that hold on every enabled row and, where they
    /// hold, returns the row type and proof type that the selectors choose.
    pub fn decode(&self) -> (r: Option<(RowType, ProofType)>)
        ensures
            r is Some <==> self.well_formed(),
            r matches Some((t, p)) ==> t == self.kind() && p == self.proof_kind(),
    {
        if self.row_type.len() != NUM_ROW_TYPES || self.proof_type.len() != NUM_PROOF_TYPES {
            return None;
        }
        let misc_ok = is_bool_value(self.not_first_level) && is_bool_value(self.is_last_child)
            && (self.row_type[1] == 0 || is_bool_value(self.sel1)) && (self.row_type[1] == 0
            || is_bool_value(self.sel2)) && is_bool_value(self.is_modified) && is_bool_value(
            self.is_at_drifted_pos,
        );
        if !misc_ok {
            return None;
        }
        let kt = match decode_one_hot(&self.row_type) {
            Some(k) => k,
            None => {
                return None;
            },
        };
        let kp = match decode_one_hot(&self.proof_type) {
            Some(k) => k,
            None => {
                return None;
            },
        };
        let t = RowType::from_index(kt);
        let p = ProofType::from_index(kp);
        if self.proof_type_id != 0 && !(t == lookup_row_type(p) && self.proof_type_id == p.code()) {
            return None;
        }
        Some((t, p))
    }
}

/// The one row type on which a proof type's code may be published.
pub fn lookup_row_type(p: ProofType) -> (r: RowType)
    ensures
        r == p.lookup_row_type(),
{
    match p {
        ProofType::NonceChanged => RowType::AccNonceBalS,
        ProofType::BalanceChanged => RowType::AccNonceBalC,
        ProofType::CodeHashExists => RowType::AccStorCodeC,
        ProofType::AccountDoesNotExist => RowType::AccNonExistRow,
        ProofType::AccountDeleteMod => RowType::AccKeyS,
        ProofType::StorageChanged => RowType::LeafCValue,
        ProofType::StorageDoesNotExist => RowType::LeafNonExisting,
    }
}

/// Whether a row of type `cur` may follow one of type `prev`.
pub fn transition_allowed(prev: RowType, prev_last_child: bool, cur: RowType) -> (r: bool)
    ensures
        r == transition_ok(prev, prev_last_child, cur),
{
    (cur != RowType::BranchInit || prev == RowType::ExtC || prev == RowType::AccInAddedBranch
        || prev == RowType::LeafNonExisting) && (cur != RowType::AccKeyS || prev == RowType::ExtC
        || prev == RowType::LeafNonExisting) && (cur != RowType::LeafSKey || prev == RowType::ExtC
        || prev == RowType::AccInAddedBranch) && ((cur == RowType::ExtS) == prev_last_child) && ((
    cur == RowType::ExtC) == (prev == RowType::ExtS)) && ((cur == RowType::AccKeyC) == (prev
        == RowType::AccKeyS)) && ((cur == RowType::AccNonExistRow) == (prev == RowType::AccKeyC))
        && ((cur == RowType::AccNonceBalS) == (prev == RowType::AccNonExistRow)) && ((cur
        == RowType::AccNonceBalC) == (prev == RowType::AccNonceBalS)) && ((cur
        == RowType::AccStorCodeS) == (prev == RowType::AccNonceBalC)) && ((cur
        == RowType::AccStorCodeC) == (prev == RowType::AccStorCodeS)) && ((cur
        == RowType::AccInAddedBranch) == (prev == RowType::AccStorCodeC)) && ((cur
        == RowType::LeafSValue) == (prev == RowType::LeafSKey)) && ((cur == RowType::LeafCKey) == (
    prev == RowType::LeafSValue)) && ((cur == RowType::LeafCValue) == (prev == RowType::LeafCKey))
        && ((cur == RowType::LeafInAddedBranch) == (prev == RowType::LeafCValue)) && ((cur
        == RowType::LeafNonExisting) == (prev == RowType::LeafInAddedBranch))
}

/// The selector identities of the whole table: row kinds and proof kinds
/// are exclusive and in range, rows follow one another as the transition
/// table allows, and the proof kind changes only where a new proof starts.
#[derive(Clone, Copy, Debug)]
pub struct SelectorsConfig {}

impl SelectorsConfig {
    pub fn configure() -> (r: SelectorsConfig) {
        SelectorsConfig {  }
    }

    /// Whether the selector identities hold on `rows`, the first of which
    /// is the table's first row.
    pub fn check(&self, rows: &Vec<SelectorRow>) -> (ok: bool)
        ensures
            ok == rows_valid(rows@),
    {
        let mut prev: Option<(RowType, ProofType, bool)> = None;
        let mut i: usize = 0;
        while i < rows.len()
            invariant
                i <= rows@.len(),
                forall|j: int| 0 <= j < i ==> #[trigger] rows@[j].well_formed(),
                i > 0 ==> first_row_ok(rows@[0]),
                forall|j: int| 0 < j < i ==> step_ok(rows@[j - 1], #[trigger] rows@[j]),
                i == 0 <==> prev is None,
                prev matches Some((t, p, lc)) ==> t == rows@[i - 1].kind() && p == rows@[i
                    - 1].proof_kind() && lc == (rows@[i - 1].is_last_child == 1),
            decreases rows@.len() - i,
        {
            let row = &rows[i];
            let (t, p) = match row.decode() {
                Some(tp) => tp,
                None => {
                    return false;
                },
            };
            match prev {
                None => {
                    if t != RowType::AccKeyS && t != RowType::BranchInit {
                        return false;
                    }
                },
                Some((pt, pp, plc)) => {
                    if !transition_allowed(pt, plc, t) {
                        assert(!step_ok(rows@[i - 1], rows@[i as int]));
                        return false;
                    }
                    let starts_proof = t == RowType::BranchInit || t == RowType::AccKeyS;
                    if (row.not_first_level == 1 || !starts_proof) && p != pp {
                        assert(!step_ok(rows@[i - 1], rows@[i as int]));
                        return false;
                    }
                },
            }
            prev = Some((t, p, row.is_last_child == 1));
            i = i + 1;
        }
        true
    }
}

/// The selector identities admit only row sequences inside the transition
/// graph: the table opens with an account key S or branch init row, and each
/// later row may follow the row before it.
pub proof fn lemma_accepted_rows_follow_transitions(rows: Seq<SelectorRow>)
    requires
        rows_valid(rows),
    ensures
        rows.len() > 0 ==> rows[0].kind() == RowType::AccKeyS || rows[0].kind()
            == RowType::BranchInit,
        forall|i: int|
            0 < i < rows.len() ==> transition_ok(
                rows[i - 1].kind(),
                rows[i - 1].is_last_child == 1,
                #[trigger] rows[i].kind(),
            ),
{
    assert forall|i: int| 0 < i < rows.len() implies transition_ok(
        rows[i - 1].kind(),
        rows[i - 1].is_last_child == 1,
        #[trigger] rows[i].kind(),
    ) by {
        assert(step_ok(rows[i - 1], rows[i]));
    }
}

/// Putting in place of one row of an accepted table a row whose type may
/// not stand there (it may not open a table, or may not follow the row
/// before it) makes the selector identities fail.
pub proof fn lemma_bad_substitution_rejected(rows: Seq<SelectorRow>, k: int, row: SelectorRow)
    requires
        rows_valid(rows),
        0 <= k < rows.len(),
        k == 0 ==> !first_row_ok(row),
        k > 0 ==> !transition_ok(rows[k - 1].kind(), rows[k - 1].is_last_child == 1, row.kind()),
    ensures
        !rows_valid(rows.update(k, row)),
{
    let t = rows.update(k, row);
    assert(t[k] == row);
    if k > 0 {
        assert(t[k - 1] == rows[k - 1]);
        assert(!step_ok(t[k - 1], t[k]));
    }
}

} // verus!

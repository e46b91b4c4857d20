use mpt_circuit::selectors::{transition_allowed, ProofType, RowType, SelectorRow, SelectorsConfig};

const ROW_ORDER: [RowType; 18] = [
    RowType::BranchInit,
    RowType::BranchChild,
    RowType::ExtS,
    RowType::ExtC,
    RowType::LeafSKey,
    RowType::LeafSValue,
    RowType::LeafCKey,
    RowType::LeafCValue,
    RowType::LeafInAddedBranch,
    RowType::LeafNonExisting,
    RowType::AccKeyS,
    RowType::AccKeyC,
    RowType::AccNonExistRow,
    RowType::AccNonceBalS,
    RowType::AccNonceBalC,
    RowType::AccStorCodeS,
    RowType::AccStorCodeC,
    RowType::AccInAddedBranch,
];

const PROOF_ORDER: [ProofType; 7] = [
    ProofType::NonceChanged,
    ProofType::BalanceChanged,
    ProofType::CodeHashExists,
    ProofType::AccountDoesNotExist,
    ProofType::AccountDeleteMod,
    ProofType::StorageChanged,
    ProofType::StorageDoesNotExist,
];

fn row(t: RowType, p: ProofType) -> SelectorRow {
    SelectorRow {
        row_type: ROW_ORDER.iter().map(|x| (*x == t) as u64).collect(),
        proof_type: PROOF_ORDER.iter().map(|x| (*x == p) as u64).collect(),
        proof_type_id: 0,
        not_first_level: 0,
        is_last_child: 0,
        sel1: 0,
        sel2: 0,
        is_modified: 0,
        is_at_drifted_pos: 0,
    }
}

fn account_rows(p: ProofType) -> Vec<SelectorRow> {
    [
        RowType::AccKeyS,
        RowType::AccKeyC,
        RowType::AccNonExistRow,
        RowType::AccNonceBalS,
        RowType::AccNonceBalC,
        RowType::AccStorCodeS,
        RowType::AccStorCodeC,
        RowType::AccInAddedBranch,
    ]
    .iter()
    .map(|t| row(*t, p))
    .collect()
}

#[test]
fn account_leaf_rows_are_accepted() {
    let cfg = SelectorsConfig::configure();
    let mut rows = account_rows(ProofType::NonceChanged);
    rows[3].proof_type_id = 1;
    assert!(cfg.check(&rows));
}

#[test]
fn empty_table_is_accepted() {
    assert!(SelectorsConfig::configure().check(&vec![]));
}

#[test]
fn branch_then_account_is_accepted() {
    let p = ProofType::BalanceChanged;
    let mut rows = vec![row(RowType::BranchInit, p)];
    for _ in 0..15 {
        rows.push(row(RowType::BranchChild, p));
    }
    let mut last = row(RowType::BranchChild, p);
    last.is_last_child = 1;
    rows.push(last);
    rows.push(row(RowType::ExtS, p));
    rows.push(row(RowType::ExtC, p));
    rows.extend(account_rows(p));
    rows[23].proof_type_id = 2;
    assert!(SelectorsConfig::configure().check(&rows));
}

#[test]
fn first_row_must_open_a_proof() {
    let cfg = SelectorsConfig::configure();
    let rows = account_rows(ProofType::NonceChanged);
    assert!(!cfg.check(&rows[1..].to_vec()));
}

#[test]
fn swapped_account_rows_are_rejected() {
    let cfg = SelectorsConfig::configure();
    let mut rows = account_rows(ProofType::NonceChanged);
    rows[4] = row(RowType::AccStorCodeS, ProofType::NonceChanged);
    assert!(!cfg.check(&rows));
}

#[test]
fn substituted_row_type_is_rejected() {
    let cfg = SelectorsConfig::configure();
    let rows = account_rows(ProofType::NonceChanged);
    for k in 1..rows.len() {
        for t in ROW_ORDER.iter() {
            let prev_type = ROW_ORDER[rows[k - 1].row_type.iter().position(|x| *x == 1).unwrap()];
            if !transition_allowed(prev_type, false, *t) {
                let mut bad = rows.clone();
                bad[k] = row(*t, ProofType::NonceChanged);
                assert!(!cfg.check(&bad));
            }
        }
    }
}

#[test]
fn selectors_must_be_boolean() {
    let cfg = SelectorsConfig::configure();
    let mut rows = account_rows(ProofType::NonceChanged);
    rows[2].is_modified = 2;
    assert!(!cfg.check(&rows));
    let mut rows = account_rows(ProofType::NonceChanged);
    rows[2].row_type[12] = 2;
    assert!(!cfg.check(&rows));
}

#[test]
fn exactly_one_row_type() {
    let cfg = SelectorsConfig::configure();
    let mut rows = account_rows(ProofType::NonceChanged);
    rows[2].row_type[5] = 1;
    assert!(!cfg.check(&rows));
    let mut rows = account_rows(ProofType::NonceChanged);
    rows[2].row_type[12] = 0;
    assert!(!cfg.check(&rows));
}

#[test]
fn exactly_one_proof_type() {
    let cfg = SelectorsConfig::configure();
    let mut rows = account_rows(ProofType::NonceChanged);
    rows[0].proof_type[1] = 1;
    assert!(!cfg.check(&rows));
}

#[test]
fn proof_code_only_on_its_lookup_row() {
    let cfg = SelectorsConfig::configure();
    let mut rows = account_rows(ProofType::NonceChanged);
    rows[4].proof_type_id = 1;
    assert!(!cfg.check(&rows));
    let mut rows = account_rows(ProofType::NonceChanged);
    rows[3].proof_type_id = 2;
    assert!(!cfg.check(&rows));
    let mut rows = account_rows(ProofType::AccountDeleteMod);
    rows[0].proof_type_id = 5;
    assert!(cfg.check(&rows));
}

#[test]
fn proof_type_persists_within_a_proof() {
    let cfg = SelectorsConfig::configure();
    let mut rows = account_rows(ProofType::NonceChanged);
    rows[5] = row(RowType::AccStorCodeS, ProofType::BalanceChanged);
    assert!(!cfg.check(&rows));
}

#[test]
fn proof_type_may_change_at_new_proof() {
    let cfg = SelectorsConfig::configure();
    let mut rows = account_rows(ProofType::NonceChanged);
    rows.push(row(RowType::BranchInit, ProofType::StorageChanged));
    assert!(cfg.check(&rows));
    let mut below = row(RowType::BranchInit, ProofType::StorageChanged);
    below.not_first_level = 1;
    let mut rows = account_rows(ProofType::NonceChanged);
    rows.push(below);
    assert!(!cfg.check(&rows));
}

#[test]
fn ext_s_follows_last_branch_child() {
    assert!(transition_allowed(RowType::BranchChild, true, RowType::ExtS));
    assert!(!transition_allowed(RowType::BranchChild, false, RowType::ExtS));
    assert!(!transition_allowed(RowType::BranchChild, true, RowType::BranchChild));
    assert!(transition_allowed(RowType::AccInAddedBranch, false, RowType::BranchInit));
    assert!(!transition_allowed(RowType::AccKeyC, false, RowType::AccKeyS));
}

#[test]
fn decode_reports_kinds() {
    let mut r = row(RowType::AccNonceBalC, ProofType::BalanceChanged);
    r.proof_type_id = 2;
    assert_eq!(r.decode(), Some((RowType::AccNonceBalC, ProofType::BalanceChanged)));
    assert_eq!(ProofType::StorageDoesNotExist.code(), 7);
}

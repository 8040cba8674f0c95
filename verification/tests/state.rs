use nasdedup_core::model::State;
use nasdedup_core::state::{
    backoff_ms, is_valid, reason_for, restore_target, rules, Reason, MAX_ATTEMPTS,
};

#[test]
fn khong_co_luat_trung_lap() {
    let mut seen: Vec<(State, State)> = Vec::new();
    for r in rules() {
        assert!(!seen.contains(&(r.from, r.to)), "luật trùng: {:?} → {:?}", r.from, r.to);
        seen.push((r.from, r.to));
    }
}

#[test]
fn moi_state_deu_toi_duoc_tru_trang_thai_khoi_dau() {
    let rs = rules();
    for st in State::ALL {
        let reachable = rs.iter().any(|r| r.to == st);
        if matches!(st, State::Settling | State::Sized) {
            continue;
        }
        assert!(reachable, "{} không transition nào tới được", st.as_str());
    }
}

#[test]
fn gone_la_trang_thai_cuoi() {
    assert!(!rules().iter().any(|r| r.from == State::Gone), "gone không được đi tiếp");
    assert_eq!(reason_for(State::Missing, State::Gone), Some(Reason::Expired));
}

#[test]
fn transition_khong_hop_le_bi_tu_choi() {
    assert!(!is_valid(State::Hashed, State::Distinct));
    assert!(!is_valid(State::Settling, State::Deduped));
    assert!(!is_valid(State::Deduped, State::Hashed));
    assert!(!is_valid(State::Gone, State::Settling));
}

#[test]
fn moi_state_khong_phai_hang_doi_deu_ve_settling_duoc() {
    for st in State::ALL {
        if st == State::Settling || st == State::Gone {
            continue;
        }
        assert!(is_valid(st, State::Settling), "{} phải về settling được khi file đổi", st.as_str());
    }
}

#[test]
fn moi_state_song_deu_thanh_missing_duoc() {
    for st in State::ALL {
        if matches!(st, State::Missing | State::Gone) {
            continue;
        }
        assert!(is_valid(st, State::Missing), "{} phải thành missing được", st.as_str());
    }
}

#[test]
fn restore_target_theo_prev_state() {
    assert_eq!(restore_target(Some(State::Deduped)), State::Deduped);
    assert_eq!(restore_target(Some(State::Hashed)), State::Hashed);
    assert_eq!(restore_target(None), State::Settling);
    assert_eq!(restore_target(Some(State::Gone)), State::Settling);
    assert_eq!(restore_target(Some(State::Missing)), State::Settling);
    assert_eq!(restore_target(Some(State::Settling)), State::Settling);
}

#[test]
fn backoff_tang_dan_va_bi_chan_tren() {
    assert_eq!(backoff_ms(0), 15 * 60 * 1000);
    assert_eq!(backoff_ms(1), 30 * 60 * 1000);
    assert_eq!(backoff_ms(2), 60 * 60 * 1000);
    assert_eq!(backoff_ms(MAX_ATTEMPTS), 24 * 60 * 60 * 1000);
    assert_eq!(backoff_ms(u32::MAX), 24 * 60 * 60 * 1000);
}

#[test]
fn cac_transition_then_chot_cua_spec_4_4() {
    assert_eq!(reason_for(State::Settling, State::Sized), Some(Reason::Settled));
    assert_eq!(reason_for(State::Sized, State::Hashed), Some(Reason::Matched));
    assert_eq!(reason_for(State::Hashed, State::Deduped), Some(Reason::Shared));
    assert_eq!(reason_for(State::Hashed, State::Verified), Some(Reason::DryRunSame));
    assert_eq!(reason_for(State::Verified, State::Hashed), Some(Reason::Requeued));
    assert_eq!(reason_for(State::Hashed, State::Hashed), Some(Reason::NextGroup));
    assert_eq!(reason_for(State::Deduped, State::Canonical), Some(Reason::Promoted));
    assert_eq!(reason_for(State::Distinct, State::Canonical), Some(Reason::BecameCanonical));
    assert_eq!(reason_for(State::Deduped, State::Skipped), Some(Reason::UserUndo));
}

#[test]
fn danh_sach_khoi_phuc_khop_voi_sql() {
    let tu_bang: Vec<&str> = State::ALL
        .into_iter()
        .filter(|s| restore_target(Some(*s)) == *s)
        .map(State::as_str)
        .collect();
    assert_eq!(
        tu_bang,
        vec!["settling", "sized", "hashed", "verified", "deduped", "distinct", "canonical", "skipped", "failed"]
    );
}

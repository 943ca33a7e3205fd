use reservation::{ReservationError, ReservationStatus};

const ALL: [ReservationStatus; 4] = [
    ReservationStatus::Unknown,
    ReservationStatus::Pending,
    ReservationStatus::Confirmed,
    ReservationStatus::Blocked,
];

#[test]
fn status_codes_are_zero_to_three() {
    assert_eq!(ReservationStatus::Unknown.to_i32(), 0);
    assert_eq!(ReservationStatus::Pending.to_i32(), 1);
    assert_eq!(ReservationStatus::Confirmed.to_i32(), 2);
    assert_eq!(ReservationStatus::Blocked.to_i32(), 3);
}

#[test]
fn status_codes_round_trip() {
    for status in ALL {
        assert_eq!(ReservationStatus::from_i32(status.to_i32()), Ok(status));
    }
    for code in 0..=3 {
        assert_eq!(ReservationStatus::from_i32(code).unwrap().to_i32(), code);
    }
}

#[test]
fn unmapped_status_codes_are_refused() {
    for code in [-1, 4, 5, 100, i32::MIN, i32::MAX] {
        assert_eq!(ReservationStatus::from_i32(code), Err(ReservationError::InvalidState));
    }
}

#[test]
fn status_text_is_lower_case() {
    assert_eq!(ReservationStatus::Pending.to_string(), "pending");
    assert_eq!(ReservationStatus::Blocked.to_string(), "blocked");
    assert_eq!(ReservationStatus::Confirmed.to_string(), "confirmed");
    assert_eq!(ReservationStatus::Unknown.to_string(), "unknown");
}

#[test]
fn status_text_round_trips() {
    for status in ALL {
        assert_eq!(ReservationStatus::from_text(&status.to_string()), Ok(status));
    }
    assert_eq!(ReservationStatus::from_text("pending"), Ok(ReservationStatus::Pending));
    assert_eq!(ReservationStatus::from_text("blocked"), Ok(ReservationStatus::Blocked));
    assert_eq!(ReservationStatus::from_text("confirmed"), Ok(ReservationStatus::Confirmed));
    assert_eq!(ReservationStatus::from_text("unknown"), Ok(ReservationStatus::Unknown));
}

#[test]
fn unmapped_status_text_is_refused() {
    for word in ["", "Pending", "PENDING", "pending ", "cancelled", "confirm", "2"] {
        assert_eq!(ReservationStatus::from_text(word), Err(ReservationError::InvalidState));
    }
}

#[test]
fn legal_transitions_are_exactly_three() {
    for from in ALL {
        for to in ALL {
            let legal = matches!(
                (from, to),
                (ReservationStatus::Pending, ReservationStatus::Confirmed)
                    | (ReservationStatus::Pending, ReservationStatus::Blocked)
                    | (ReservationStatus::Blocked, ReservationStatus::Pending)
            );
            assert_eq!(from.can_transition_to(to), legal);
        }
    }
}

#[test]
fn nothing_leads_out_of_unknown_or_confirmed() {
    for to in ALL {
        assert!(!ReservationStatus::Unknown.can_transition_to(to));
        assert!(!ReservationStatus::Confirmed.can_transition_to(to));
    }
}

#[test]
fn next_advances_blocked_to_pending_to_confirmed() {
    assert_eq!(ReservationStatus::Blocked.next(), Ok(ReservationStatus::Pending));
    assert_eq!(ReservationStatus::Pending.next(), Ok(ReservationStatus::Confirmed));
    assert_eq!(ReservationStatus::Confirmed.next(), Err(ReservationError::InvalidState));
    assert_eq!(ReservationStatus::Unknown.next(), Err(ReservationError::InvalidState));
    for from in ALL {
        if let Ok(to) = from.next() {
            assert!(from.can_transition_to(to));
        }
    }
}

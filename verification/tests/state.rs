use status_list::errors::StatusListError;
use status_list::state::StatusList;
use status_list::types::ListPurpose;

#[test]
fn list_new_size_too_large() {
    assert_eq!(
        StatusList::new(600, ListPurpose::Revocation),
        Err(StatusListError::SizeTooLarge)
    );
}

#[test]
fn list_new() {
    assert_eq!(
        StatusList::new(6, ListPurpose::Revocation),
        Ok(StatusList {
            list: vec![0u8; 6],
            size: 6,
            purpose: ListPurpose::Revocation
        })
    );
}

#[test]
fn list_get_out_of_bounds() {
    let list = StatusList {
        list: vec![0b00001000, 0b00010000],
        size: 2,
        purpose: ListPurpose::Revocation,
    };

    assert_eq!(list.get(16), Err(StatusListError::OutOfBounds));
    assert_eq!(list.get(50), Err(StatusListError::OutOfBounds));
}

#[test]
fn list_get() {
    let list = StatusList {
        list: vec![0b00001000, 0b00010000],
        size: 2,
        purpose: ListPurpose::Revocation,
    };

    assert_eq!(list.get(3), Ok(true));
    assert_eq!(list.get(12), Ok(true));
    assert_eq!(list.get(4), Ok(false));
    assert_eq!(list.get(13), Ok(false));
}

#[test]
fn list_toggle_out_of_bounds() {
    let mut list = StatusList {
        list: vec![0b00001000, 0b00010000],
        size: 2,
        purpose: ListPurpose::Revocation,
    };

    assert_eq!(list.toggle(16), Err(StatusListError::OutOfBounds));
    assert_eq!(list.toggle(50), Err(StatusListError::OutOfBounds));
}

#[test]
fn list_toggle() {
    let mut list = StatusList {
        list: vec![0b00001000, 0b00010000],
        size: 2,
        purpose: ListPurpose::Suspension,
    };

    list.toggle(8).unwrap();
    assert_eq!(list.list, vec![0b00001000, 0b00010001]);

    list.toggle(15).unwrap();
    assert_eq!(list.list, vec![0b00001000, 0b10010001]);

    list.toggle(3).unwrap();
    assert_eq!(list.list, vec![0b00000000, 0b10010001]);

    list.toggle(8).unwrap();
    assert_eq!(list.list, vec![0b00000000, 0b10010000]);
}

#[test]
fn new_at_the_ceiling_succeeds() {
    let list = StatusList::new(512, ListPurpose::Suspension).unwrap();
    assert_eq!(list.size, 512);
    assert_eq!(list.list, vec![0u8; 512]);

    assert_eq!(
        StatusList::new(513, ListPurpose::Suspension),
        Err(StatusListError::SizeTooLarge)
    );
}

#[test]
fn fresh_list_reads_false_everywhere() {
    let list = StatusList::new(6, ListPurpose::Revocation).unwrap();
    assert_eq!(list.list, vec![0u8; 6]);
    assert_eq!(list.get(3), Ok(false));
    for location in 0..48 {
        assert_eq!(list.get(location), Ok(false));
    }
    assert_eq!(list.get(48), Err(StatusListError::OutOfBounds));
}

#[test]
fn suspension_toggle_round_trip() {
    let mut list = StatusList {
        list: vec![0b00001000, 0b00010000],
        size: 2,
        purpose: ListPurpose::Suspension,
    };

    // A clear bit goes up and comes back down.
    list.toggle(9).unwrap();
    assert_eq!(list.get(9), Ok(true));
    list.toggle(9).unwrap();
    assert_eq!(list.get(9), Ok(false));
    assert_eq!(list.list, vec![0b00001000, 0b00010000]);

    // A set bit goes down and comes back up: no terminal state here.
    list.toggle(3).unwrap();
    assert_eq!(list.get(3), Ok(false));
    list.toggle(3).unwrap();
    assert_eq!(list.get(3), Ok(true));
    assert_eq!(list.list, vec![0b00001000, 0b00010000]);
}

#[test]
fn revocation_is_one_way() {
    let mut list = StatusList::new(1, ListPurpose::Revocation).unwrap();

    assert_eq!(list.get(5), Ok(false));
    assert_eq!(list.toggle(5), Ok(()));
    assert_eq!(list.get(5), Ok(true));

    assert_eq!(list.toggle(5), Err(StatusListError::StatusNotReversible));
    assert_eq!(list.get(5), Ok(true));
    assert_eq!(list.list, vec![0b00100000]);
}

#[test]
fn toggle_leaves_other_locations_alone() {
    let mut list = StatusList {
        list: vec![0b10100101, 0b00010010],
        size: 2,
        purpose: ListPurpose::Suspension,
    };

    let before: Vec<bool> = (0..16).map(|j| list.get(j).unwrap()).collect();
    list.toggle(9).unwrap();
    for j in 0..16 {
        if j == 9 {
            assert_eq!(list.get(j), Ok(!before[j as usize]));
        } else {
            assert_eq!(list.get(j), Ok(before[j as usize]));
        }
    }
}

#[test]
fn failed_toggle_mutates_nothing() {
    let mut list = StatusList {
        list: vec![0b00000001],
        size: 1,
        purpose: ListPurpose::Revocation,
    };

    assert_eq!(list.toggle(8), Err(StatusListError::OutOfBounds));
    assert_eq!(list.list, vec![0b00000001]);

    assert_eq!(list.toggle(0), Err(StatusListError::StatusNotReversible));
    assert_eq!(list.list, vec![0b00000001]);
}

use carwash::records::{CarWashCenter, Expense, Service, Vehicle};

fn text(s: &str) -> String {
    s.to_string()
}

fn word(v: u64) -> Vec<u8> {
    v.to_le_bytes().to_vec()
}

fn sample_center() -> CarWashCenter {
    CarWashCenter {
        id: 3,
        name: text("Acme"),
        location: text("Main St"),
        contact: text("555-0100"),
        email: text("a@x.com"),
        capacity: 10,
        created_at: 1_700_000_000_000_000_000,
    }
}

fn sample_service(completed_at: Option<u64>) -> Service {
    Service {
        id: 2,
        car_wash_id: 0,
        vehicle_id: 1,
        service_type: text("basic wash"),
        price_bits: 20.0f64.to_bits(),
        duration: 15,
        completed_at,
    }
}

#[test]
fn center_round_trip() {
    let center = sample_center();
    assert_eq!(CarWashCenter::from_bytes(&center.to_bytes()), Some(center));
    let odd = CarWashCenter {
        id: u64::MAX,
        name: text("\u{10FFFF}\u{0}\u{7ff}\u{800}"),
        location: String::new(),
        contact: text("\u{e9}"),
        email: text("\u{4e2d}\u{6587}"),
        capacity: 0,
        created_at: u64::MAX,
    };
    assert_eq!(CarWashCenter::from_bytes(&odd.to_bytes()), Some(odd));
}

#[test]
fn vehicle_round_trip() {
    let vehicle = Vehicle {
        id: 1,
        car_wash_id: 0,
        license_plate: text("ABC123"),
        vehicle_type: text("car"),
        arrival_time: 99,
        status: text("received"),
    };
    assert_eq!(Vehicle::from_bytes(&vehicle.to_bytes()), Some(vehicle));
}

#[test]
fn service_round_trip() {
    let open = sample_service(None);
    assert_eq!(Service::from_bytes(&open.to_bytes()), Some(open));
    let done = sample_service(Some(77));
    assert_eq!(Service::from_bytes(&done.to_bytes()), Some(done));
    let zero = sample_service(Some(0));
    assert_eq!(Service::from_bytes(&zero.to_bytes()), Some(zero));
}

#[test]
fn expense_round_trip() {
    let expense = Expense {
        id: 3,
        car_wash_id: 0,
        date: 5,
        category: text("supplies"),
        amount_bits: 5.0f64.to_bits(),
        description: text("soap"),
    };
    assert_eq!(Expense::from_bytes(&expense.to_bytes()), Some(expense));
}

#[test]
fn expense_bytes_are_the_fields_in_order() {
    let expense = Expense {
        id: 3,
        car_wash_id: 258,
        date: 5,
        category: text("ab"),
        amount_bits: 5.0f64.to_bits(),
        description: text("\u{e9}"),
    };
    let mut expected = Vec::new();
    expected.extend(word(3));
    expected.extend(vec![2, 1, 0, 0, 0, 0, 0, 0]);
    expected.extend(word(5));
    expected.extend(word(2));
    expected.extend(vec![b'a', b'b']);
    expected.extend(vec![0, 0, 0, 0, 0, 0, 0x14, 0x40]);
    expected.extend(word(2));
    expected.extend(vec![0xc3, 0xa9]);
    assert_eq!(expense.to_bytes(), expected);
    assert_eq!(expected.len(), 52);
}

#[test]
fn service_bytes_mark_the_completion_time() {
    let open = sample_service(None).to_bytes();
    let done = sample_service(Some(77)).to_bytes();
    assert_eq!(open.len(), 48 + 8 + 10);
    assert_eq!(done.len(), open.len() + 8);
    assert_eq!(open[open.len() - 8..], word(0)[..]);
    assert_eq!(done[done.len() - 16..done.len() - 8], word(1)[..]);
    assert_eq!(done[done.len() - 8..], word(77)[..]);
    assert_eq!(open[..open.len() - 8], done[..done.len() - 16]);
}

#[test]
fn truncated_bytes_spell_no_record() {
    let bytes = sample_center().to_bytes();
    for n in 0..bytes.len() {
        assert_eq!(CarWashCenter::from_bytes(&bytes[..n].to_vec()), None);
    }
    let bytes = sample_service(Some(1)).to_bytes();
    for n in 0..bytes.len() {
        assert_eq!(Service::from_bytes(&bytes[..n].to_vec()), None);
    }
}

#[test]
fn trailing_bytes_spell_no_record() {
    let mut bytes = sample_center().to_bytes();
    bytes.push(0);
    assert_eq!(CarWashCenter::from_bytes(&bytes), None);
    let mut bytes = sample_service(None).to_bytes();
    bytes.extend(word(0));
    assert_eq!(Service::from_bytes(&bytes), None);
}

#[test]
fn invalid_text_spells_no_record() {
    let mut bytes = sample_center().to_bytes();
    bytes[16] = 0xff;
    assert_eq!(CarWashCenter::from_bytes(&bytes), None);
    let mut bytes = sample_center().to_bytes();
    bytes[15] = 0x80;
    assert_eq!(CarWashCenter::from_bytes(&bytes), None);
}

#[test]
fn unknown_option_flag_spells_no_record() {
    let mut bytes = sample_service(None).to_bytes();
    let at = bytes.len() - 8;
    bytes[at] = 2;
    assert_eq!(Service::from_bytes(&bytes), None);
    bytes[at] = 1;
    assert_eq!(Service::from_bytes(&bytes), None);
    bytes.extend(word(9));
    assert_eq!(Service::from_bytes(&bytes), Some(sample_service(Some(9))));
}

use carwash::codec::{center_fits, expense_fits, service_fits, vehicle_fits};
use carwash::records::{positive_real, Message};
use carwash::registry::Registry;

fn text(s: &str) -> String {
    s.to_string()
}

fn total(lines: &[(u64, u64)]) -> f64 {
    lines.iter().map(|line| f64::from_bits(line.1)).sum()
}

fn acme(registry: &mut Registry) -> u64 {
    registry
        .create_car_wash_center(text("Acme"), text("Main St"), text("555-0100"), text("a@x.com"), 10, 1_000)
        .unwrap()
        .id
}

#[test]
fn end_to_end_scenario() {
    let mut registry = Registry::new();
    let center = registry
        .create_car_wash_center(text("Acme"), text("Main St"), text("555-0100"), text("a@x.com"), 10, 7)
        .unwrap();
    assert_eq!(center.id, 0);
    assert_eq!(center.name, "Acme");
    assert_eq!(center.location, "Main St");
    assert_eq!(center.contact, "555-0100");
    assert_eq!(center.email, "a@x.com");
    assert_eq!(center.capacity, 10);
    assert_eq!(center.created_at, 7);

    let vehicle = registry.register_vehicle(0, text("ABC123"), text("car"), 8).unwrap();
    assert_eq!(vehicle.id, 1);
    assert_eq!(vehicle.car_wash_id, 0);
    assert_eq!(vehicle.status, "received");
    assert_eq!(vehicle.arrival_time, 8);

    let service = registry
        .create_service(0, 1, text("basic wash"), 20.0f64.to_bits(), 15)
        .unwrap();
    assert_eq!(service.id, 2);
    assert_eq!(f64::from_bits(service.price_bits), 20.0);
    assert_eq!(service.duration, 15);
    assert_eq!(service.completed_at, None);
    assert_eq!(total(&registry.revenue_entries(0).unwrap()), 20.0);

    let expense = registry
        .record_expense(0, text("supplies"), 5.0f64.to_bits(), text("soap"), 9)
        .unwrap();
    assert_eq!(expense.id, 3);
    assert_eq!(expense.date, 9);
    assert_eq!(total(&registry.expense_entries(0).unwrap()), 5.0);

    let refused = registry.register_vehicle(999, text("XYZ"), text("truck"), 10);
    assert_eq!(refused, Err(Message::NotFound(text("Car Wash Center not found"))));
    assert_eq!(acme(&mut registry), 4);
}

#[test]
fn new_registry_starts_at_zero_and_is_empty() {
    let registry = Registry::new();
    assert_eq!(registry.next_id(), 0);
    assert_eq!(registry.center(0), None);
    assert_eq!(registry.vehicle(0), None);
    assert_eq!(registry.service(0), None);
    assert_eq!(registry.expense(0), None);
}

#[test]
fn identifiers_are_shared_and_ascending() {
    let mut registry = Registry::new();
    let mut ids = Vec::new();
    ids.push(acme(&mut registry));
    ids.push(registry.register_vehicle(0, text("A1"), text("car"), 1).unwrap().id);
    ids.push(acme(&mut registry));
    ids.push(registry.create_service(2, 1, text("wax"), 1.5f64.to_bits(), 30).unwrap().id);
    ids.push(registry.record_expense(0, text("rent"), 100.0f64.to_bits(), text(""), 2).unwrap().id);
    ids.push(registry.register_vehicle(2, text("B2"), text("suv"), 3).unwrap().id);
    assert_eq!(ids, vec![0, 1, 2, 3, 4, 5]);
    assert_eq!(registry.next_id(), 6);
}

#[test]
fn stored_records_are_read_back() {
    let mut registry = Registry::new();
    let center = registry
        .create_car_wash_center(text("Bl\u{e4}tter"), text(""), text("c"), text("e@\u{1F600}"), u64::MAX, 42)
        .unwrap();
    let vehicle = registry.register_vehicle(0, text("P-1"), text("truck"), 43).unwrap();
    let service = registry.create_service(0, 1, text("premium"), 99.5f64.to_bits(), 60).unwrap();
    let expense = registry
        .record_expense(0, text("water"), 12.25f64.to_bits(), text("march"), 44)
        .unwrap();
    assert_eq!(registry.center(0), Some(center));
    assert_eq!(registry.vehicle(1), Some(vehicle));
    assert_eq!(registry.service(2), Some(service));
    assert_eq!(registry.expense(3), Some(expense));
    assert_eq!(registry.center(1), None);
    assert_eq!(registry.vehicle(0), None);
    assert_eq!(registry.service(3), None);
    assert_eq!(registry.expense(2), None);
}

#[test]
fn failed_reference_wastes_no_identifier() {
    let mut registry = Registry::new();
    assert_eq!(acme(&mut registry), 0);
    assert_eq!(
        registry.register_vehicle(7, text("A"), text("car"), 1),
        Err(Message::NotFound(text("Car Wash Center not found")))
    );
    assert_eq!(registry.next_id(), 1);
    assert_eq!(
        registry.record_expense(7, text("x"), 1.0f64.to_bits(), text("y"), 1),
        Err(Message::NotFound(text("Car Wash Center not found")))
    );
    assert_eq!(
        registry.create_service(0, 5, text("wash"), 1.0f64.to_bits(), 1),
        Err(Message::NotFound(text("Vehicle not found")))
    );
    assert_eq!(
        registry.create_service(9, 5, text("wash"), 1.0f64.to_bits(), 1),
        Err(Message::NotFound(text("Car Wash Center not found")))
    );
    assert_eq!(registry.next_id(), 1);
    assert_eq!(registry.register_vehicle(0, text("A"), text("car"), 1).unwrap().id, 1);
}

#[test]
fn failed_validation_wastes_no_identifier() {
    let mut registry = Registry::new();
    assert_eq!(acme(&mut registry), 0);
    assert!(registry.register_vehicle(0, text(""), text("car"), 1).is_err());
    assert!(registry.create_service(0, 0, text(""), 1.0f64.to_bits(), 1).is_err());
    assert!(registry.record_expense(0, text("x"), 0, text("y"), 1).is_err());
    assert_eq!(registry.next_id(), 1);
    assert_eq!(acme(&mut registry), 1);
}

#[test]
fn center_needs_name_contact_and_email() {
    let mut registry = Registry::new();
    let missing = Err(Message::InvalidPayload(text("Missing required fields")));
    assert_eq!(registry.create_car_wash_center(text(""), text("l"), text("c"), text("e"), 1, 0), missing);
    assert_eq!(registry.create_car_wash_center(text("n"), text("l"), text(""), text("e"), 1, 0), missing);
    assert_eq!(registry.create_car_wash_center(text("n"), text("l"), text("c"), text(""), 1, 0), missing);
    assert_eq!(registry.next_id(), 0);
    let center = registry.create_car_wash_center(text("n"), text(""), text("c"), text("e"), 0, 0).unwrap();
    assert_eq!(center.id, 0);
    assert_eq!(center.location, "");
}

#[test]
fn vehicle_needs_plate_and_type() {
    let mut registry = Registry::new();
    acme(&mut registry);
    let missing = Err(Message::InvalidPayload(text("Missing required fields")));
    assert_eq!(registry.register_vehicle(0, text(""), text("car"), 0), missing);
    assert_eq!(registry.register_vehicle(0, text("A"), text(""), 0), missing);
    assert_eq!(registry.register_vehicle(999, text(""), text("car"), 0), missing);
}

#[test]
fn service_needs_kind_positive_price_and_duration() {
    let mut registry = Registry::new();
    acme(&mut registry);
    registry.register_vehicle(0, text("A"), text("car"), 0).unwrap();
    let invalid = Err(Message::InvalidPayload(text("Invalid service data")));
    assert_eq!(registry.create_service(0, 1, text(""), 1.0f64.to_bits(), 1), invalid);
    assert_eq!(registry.create_service(0, 1, text("w"), 0.0f64.to_bits(), 1), invalid);
    assert_eq!(registry.create_service(0, 1, text("w"), (-0.0f64).to_bits(), 1), invalid);
    assert_eq!(registry.create_service(0, 1, text("w"), (-3.5f64).to_bits(), 1), invalid);
    assert_eq!(registry.create_service(0, 1, text("w"), f64::NAN.to_bits(), 1), invalid);
    assert_eq!(registry.create_service(0, 1, text("w"), 1.0f64.to_bits(), 0), invalid);
    assert_eq!(registry.create_service(999, 999, text("w"), 0.0f64.to_bits(), 1), invalid);
    assert_eq!(registry.next_id(), 2);
    assert_eq!(registry.create_service(0, 1, text("w"), 0.01f64.to_bits(), 1).unwrap().id, 2);
}

#[test]
fn expense_needs_positive_amount() {
    let mut registry = Registry::new();
    acme(&mut registry);
    let invalid = Err(Message::InvalidPayload(text("Invalid expense amount")));
    assert_eq!(registry.record_expense(0, text("c"), 0.0f64.to_bits(), text("d"), 0), invalid);
    assert_eq!(registry.record_expense(0, text("c"), (-1.0f64).to_bits(), text("d"), 0), invalid);
    assert_eq!(registry.record_expense(0, text("c"), f64::NEG_INFINITY.to_bits(), text("d"), 0), invalid);
    assert_eq!(registry.record_expense(999, text("c"), 0.0f64.to_bits(), text("d"), 0), invalid);
    let expense = registry.record_expense(0, text(""), 0.5f64.to_bits(), text(""), 0).unwrap();
    assert_eq!(expense.id, 1);
    assert_eq!(f64::from_bits(expense.amount_bits), 0.5);
}

#[test]
fn positive_real_follows_the_number() {
    let samples = [
        0.0f64,
        -0.0,
        1.0,
        -1.0,
        f64::MIN_POSITIVE,
        f64::from_bits(1),
        f64::MAX,
        f64::MIN,
        f64::INFINITY,
        f64::NEG_INFINITY,
        f64::NAN,
        -f64::NAN,
        f64::EPSILON,
        20.0,
    ];
    for x in samples {
        assert_eq!(positive_real(x.to_bits()), x > 0.0);
    }
    assert!(positive_real(1));
    assert!(positive_real(0x7FF0_0000_0000_0000));
    assert!(!positive_real(0x7FF0_0000_0000_0001));
    assert!(!positive_real(0));
    assert!(!positive_real(u64::MAX));
}

#[test]
fn revenue_counts_only_the_center_asked_for() {
    let mut registry = Registry::new();
    let first = acme(&mut registry);
    let second = acme(&mut registry);
    let empty = acme(&mut registry);
    let car = registry.register_vehicle(first, text("A"), text("car"), 0).unwrap().id;
    let van = registry.register_vehicle(second, text("B"), text("van"), 0).unwrap().id;
    let a = registry.create_service(first, car, text("w"), 10.5f64.to_bits(), 1).unwrap().id;
    let b = registry.create_service(second, van, text("w"), 7.0f64.to_bits(), 1).unwrap().id;
    let c = registry.create_service(first, van, text("x"), 0.25f64.to_bits(), 2).unwrap().id;
    assert_eq!(
        registry.revenue_entries(first).unwrap(),
        vec![(a, 10.5f64.to_bits()), (c, 0.25f64.to_bits())]
    );
    assert_eq!(registry.revenue_entries(second).unwrap(), vec![(b, 7.0f64.to_bits())]);
    assert_eq!(registry.revenue_entries(empty).unwrap(), vec![]);
    assert_eq!(total(&registry.revenue_entries(first).unwrap()), 10.75);
    assert_eq!(total(&registry.revenue_entries(second).unwrap()), 7.0);
    assert_eq!(total(&registry.revenue_entries(empty).unwrap()), 0.0);
    assert_eq!(
        registry.revenue_entries(999),
        Err(Message::NotFound(text("Car Wash Center not found")))
    );
    assert_eq!(
        registry.revenue_entries(car),
        Err(Message::NotFound(text("Car Wash Center not found")))
    );
}

#[test]
fn expenses_count_only_the_center_asked_for() {
    let mut registry = Registry::new();
    let first = acme(&mut registry);
    let second = acme(&mut registry);
    let a = registry.record_expense(first, text("a"), 1.5f64.to_bits(), text(""), 0).unwrap().id;
    let b = registry.record_expense(second, text("b"), 2.0f64.to_bits(), text(""), 0).unwrap().id;
    let c = registry.record_expense(first, text("c"), 4.0f64.to_bits(), text(""), 0).unwrap().id;
    assert_eq!(
        registry.expense_entries(first).unwrap(),
        vec![(a, 1.5f64.to_bits()), (c, 4.0f64.to_bits())]
    );
    assert_eq!(registry.expense_entries(second).unwrap(), vec![(b, 2.0f64.to_bits())]);
    assert_eq!(total(&registry.expense_entries(first).unwrap()), 5.5);
    assert_eq!(total(&registry.revenue_entries(first).unwrap()), 0.0);
    assert_eq!(
        registry.expense_entries(a),
        Err(Message::NotFound(text("Car Wash Center not found")))
    );
}

#[test]
fn many_records_are_listed_by_ascending_identifier() {
    let mut registry = Registry::new();
    let center = acme(&mut registry);
    let other = acme(&mut registry);
    let mut expected = Vec::new();
    for n in 0..300u64 {
        let owner = if n % 3 == 0 { other } else { center };
        let amount = ((n + 1) as f64).to_bits();
        let id = registry.record_expense(owner, text("c"), amount, text("d"), n).unwrap().id;
        if owner == center {
            expected.push((id, amount));
        }
    }
    assert_eq!(registry.expense_entries(center).unwrap(), expected);
}

#[test]
fn fit_checks_follow_the_record_size() {
    let long = "x".repeat(445);
    assert!(center_fits(&text("n"), &text(""), &text("c"), &text("e")));
    assert!(center_fits(&"x".repeat(456), &text(""), &text(""), &text("")));
    assert!(!center_fits(&"x".repeat(457), &text(""), &text(""), &text("")));
    assert!(!center_fits(&text("n"), &"y".repeat(100_000), &text("c"), &text("e")));
    assert!(!vehicle_fits(&"x".repeat(454), &text("car"), &text("received")));
    assert!(vehicle_fits(&"x".repeat(453), &text("car"), &text("received")));
    assert!(service_fits(&"x".repeat(456)));
    assert!(!service_fits(&"x".repeat(457)));
    assert!(expense_fits(&"x".repeat(232), &"y".repeat(232)));
    assert!(!expense_fits(&"x".repeat(233), &"y".repeat(232)));
    assert!(expense_fits(&long, &text("")));
}

#[test]
fn largest_center_is_stored() {
    let mut registry = Registry::new();
    let name = "x".repeat(456);
    assert!(center_fits(&name, &text(""), &text("c"), &text("e")) == false);
    let name = "x".repeat(454);
    assert!(center_fits(&name, &text(""), &text("c"), &text("e")));
    let center = registry
        .create_car_wash_center(name.clone(), text(""), text("c"), text("e"), 1, 2)
        .unwrap();
    assert_eq!(center.to_bytes().len(), 512);
    assert_eq!(registry.center(0).unwrap().name, name);
}

#[test]
fn registry_stays_well_formed() {
    let mut registry = Registry::new();
    assert!(registry.audit());
    acme(&mut registry);
    registry.register_vehicle(0, text("A"), text("car"), 1).unwrap();
    registry.create_service(0, 1, text("w"), 2.0f64.to_bits(), 3).unwrap();
    registry.record_expense(0, text("c"), 4.0f64.to_bits(), text("d"), 5).unwrap();
    assert!(registry.register_vehicle(9, text("A"), text("car"), 1).is_err());
    assert!(registry.audit());
    assert_eq!(registry.next_id(), 4);
}

#[test]
fn opened_registry_over_fresh_memory_is_empty() {
    let mut registry = Registry::open();
    assert!(registry.audit());
    assert_eq!(registry.next_id(), 0);
    assert_eq!(registry.center(0), None);
    assert_eq!(acme(&mut registry), 0);
    assert_eq!(registry.center(0).unwrap().name, "Acme");
    assert!(registry.audit());
}

#[test]
fn admission_follows_validity_and_size() {
    let mut registry = Registry::new();
    let long = "x".repeat(600);
    assert!(registry.admits_center(&text("n"), &text("l"), &text("c"), &text("e")));
    assert!(!registry.admits_center(&long, &text("l"), &text("c"), &text("e")));
    assert!(!registry.admits_center(&text("n"), &long, &text("c"), &text("e")));
    assert!(registry.admits_center(&text(""), &long, &text("c"), &text("e")));
    assert!(registry.admits_vehicle(0, &long, &text("car")));
    assert!(registry.admits_service(0, 1, &long, 1.0f64.to_bits(), 1));
    assert!(registry.admits_expense(0, &long, 1.0f64.to_bits(), &text("d")));
    acme(&mut registry);
    assert!(!registry.admits_vehicle(0, &long, &text("car")));
    assert!(registry.admits_vehicle(0, &text(""), &long));
    assert!(registry.admits_vehicle(0, &text("A"), &text("car")));
    assert!(registry.admits_service(0, 1, &long, 1.0f64.to_bits(), 1));
    registry.register_vehicle(0, text("A"), text("car"), 1).unwrap();
    assert!(!registry.admits_service(0, 1, &long, 1.0f64.to_bits(), 1));
    assert!(registry.admits_service(0, 1, &long, 0.0f64.to_bits(), 1));
    assert!(registry.admits_service(0, 1, &text("w"), 1.0f64.to_bits(), 1));
    assert!(!registry.admits_expense(0, &long, 1.0f64.to_bits(), &text("d")));
    assert!(registry.admits_expense(0, &long, (-1.0f64).to_bits(), &text("d")));
    assert!(registry.admits_expense(0, &text("c"), 1.0f64.to_bits(), &text("d")));
    assert_eq!(
        registry.create_car_wash_center(text(""), long, text("c"), text("e"), 1, 1),
        Err(Message::InvalidPayload(text("Missing required fields")))
    );
}

//! The registry: four stores of records and the counter that numbers them.
//!
//! Every operation checks its input first, then the records it refers to, and
//! only then takes an identifier and stores one record. An operation that
//! answers with a message leaves the registry as it was.

use crate::codec::{
    center_fits, center_of_bytes, center_size, expense_fits, service_fits, vehicle_fits, expense_of_bytes, expense_size,
    lemma_center_round_trip, lemma_center_size, lemma_expense_round_trip, lemma_expense_size,
    lemma_service_round_trip, lemma_service_size, lemma_vehicle_round_trip, lemma_vehicle_size, service_of_bytes,
    service_size, vehicle_of_bytes, vehicle_size, MAX_RECORD_SIZE,
};
use crate::records::{
    is_positive_real, positive_real, CarWashCenter, CenterModel, Expense, ExpenseModel, Message,
    MessageModel, Service, ServiceModel, Vehicle, VehicleModel,
};
use crate::storage::{
    cell_get, cell_init, cell_new, cell_region, cell_set, cell_value, is_listing, map_contains, map_entries, map_get,
    map_init, map_insert, map_new, map_region, map_scan, regions_init, regions_take, IdCell, RecordMap,
};
use vstd::prelude::*;

verus! {

/// The region of the identifier counter.
pub const COUNTER_REGION: u8 = 0;

/// The region of the centers.
pub const CENTERS_REGION: u8 = 10;

/// The region of the vehicles.
pub const VEHICLES_REGION: u8 = 11;

/// The region of the services.
pub const SERVICES_REGION: u8 = 12;

/// The region of the expenses.
pub const EXPENSES_REGION: u8 = 13;

/// Where the structures of a registry live: the identifier of the region of
/// each.
pub struct Layout {
    pub counter: u8,
    pub centers: u8,
    pub vehicles: u8,
    pub services: u8,
    pub expenses: u8,
}

/// The layout of the durable format: the counter and each store in the region
/// that it was given once and keeps, no two of them in the same.
pub open spec fn durable_layout() -> Layout {
    Layout {
        counter: COUNTER_REGION,
        centers: CENTERS_REGION,
        vehicles: VEHICLES_REGION,
        services: SERVICES_REGION,
        expenses: EXPENSES_REGION,
    }
}

/// What a registry holds: the next identifier and the records by identifier.
pub struct RegistryModel {
    pub next_id: u64,
    pub centers: Map<u64, CenterModel>,
    pub vehicles: Map<u64, VehicleModel>,
    pub services: Map<u64, ServiceModel>,
    pub expenses: Map<u64, ExpenseModel>,
}

impl RegistryModel {
    /// A registry with no records, whose first identifier is 0.
    pub open spec fn empty() -> RegistryModel {
        RegistryModel {
            next_id: 0,
            centers: Map::empty(),
            vehicles: Map::empty(),
            services: Map::empty(),
            expenses: Map::empty(),
        }
    }

    /// Whether a record of any kind is stored under `id`.
    pub open spec fn holds(self, id: u64) -> bool {
        self.centers.contains_key(id) || self.vehicles.contains_key(id)
            || self.services.contains_key(id) || self.expenses.contains_key(id)
    }

    /// Every record is stored under its own identifier, which was given out
    /// before and to no record of another kind, and refers only to records
    /// that are stored.
    pub open spec fn consistent(self) -> bool {
        &&& forall|id: u64| #[trigger]
            self.centers.contains_key(id) ==> {
                &&& self.centers[id].id == id
                &&& id < self.next_id
                &&& !self.vehicles.contains_key(id)
                &&& !self.services.contains_key(id)
                &&& !self.expenses.contains_key(id)
            }
        &&& forall|id: u64| #[trigger]
            self.vehicles.contains_key(id) ==> {
                &&& self.vehicles[id].id == id
                &&& id < self.next_id
                &&& !self.services.contains_key(id)
                &&& !self.expenses.contains_key(id)
                &&& self.centers.contains_key(self.vehicles[id].car_wash_id)
            }
        &&& forall|id: u64| #[trigger]
            self.services.contains_key(id) ==> {
                &&& self.services[id].id == id
                &&& id < self.next_id
                &&& !self.expenses.contains_key(id)
                &&& self.centers.contains_key(self.services[id].car_wash_id)
                &&& self.vehicles.contains_key(self.services[id].vehicle_id)
            }
        &&& forall|id: u64| #[trigger]
            self.expenses.contains_key(id) ==> {
                &&& self.expenses[id].id == id
                &&& id < self.next_id
                &&& self.centers.contains_key(self.expenses[id].car_wash_id)
            }
    }

    /// Whether a center with these texts can be created or is refused with a
    /// message: where the input is valid, an identifier is left and the record
    /// stays within `MAX_RECORD_SIZE`.
    pub open spec fn admits_center(
        self,
        name: Seq<char>,
        location: Seq<char>,
        contact: Seq<char>,
        email: Seq<char>,
    ) -> bool {
        center_input_valid(name, contact, email) ==> self.next_id < u64::MAX && center_size(
            name,
            location,
            contact,
            email,
        ) <= MAX_RECORD_SIZE
    }

    /// Whether a vehicle with these values can be registered or is refused
    /// with a message: where the input is valid and the center is stored, an
    /// identifier is left and the record stays within `MAX_RECORD_SIZE`.
    pub open spec fn admits_vehicle(
        self,
        car_wash_id: u64,
        license_plate: Seq<char>,
        vehicle_type: Seq<char>,
    ) -> bool {
        vehicle_input_valid(license_plate, vehicle_type) && self.centers.contains_key(car_wash_id)
            ==> self.next_id < u64::MAX && vehicle_size(license_plate, vehicle_type, received())
            <= MAX_RECORD_SIZE
    }

    /// Whether a service with these values can be created or is refused with a
    /// message: where the input is valid and the center and the vehicle are
    /// stored, an identifier is left and the record stays within
    /// `MAX_RECORD_SIZE`.
    pub open spec fn admits_service(
        self,
        car_wash_id: u64,
        vehicle_id: u64,
        service_type: Seq<char>,
        price_bits: u64,
        duration: u64,
    ) -> bool {
        service_input_valid(service_type, price_bits, duration) && self.centers.contains_key(
            car_wash_id,
        ) && self.vehicles.contains_key(vehicle_id) ==> self.next_id < u64::MAX && service_size(
            service_type,
        ) <= MAX_RECORD_SIZE
    }

    /// Whether an expense with these values can be recorded or is refused with
    /// a message: where the input is valid and the center is stored, an
    /// identifier is left and the record stays within `MAX_RECORD_SIZE`.
    pub open spec fn admits_expense(
        self,
        car_wash_id: u64,
        category: Seq<char>,
        amount_bits: u64,
        description: Seq<char>,
    ) -> bool {
        expense_input_valid(amount_bits) && self.centers.contains_key(car_wash_id) ==> self.next_id
            < u64::MAX && expense_size(category, description) <= MAX_RECORD_SIZE
    }

    /// The registry after `record` was stored under the next identifier.
    pub open spec fn with_center(self, record: CenterModel) -> RegistryModel {
        RegistryModel {
            next_id: (self.next_id + 1) as u64,
            centers: self.centers.insert(record.id, record),
            ..self
        }
    }

    /// The registry after `record` was stored under the next identifier.
    pub open spec fn with_vehicle(self, record: VehicleModel) -> RegistryModel {
        RegistryModel {
            next_id: (self.next_id + 1) as u64,
            vehicles: self.vehicles.insert(record.id, record),
            ..self
        }
    }

    /// The registry after `record` was stored under the next identifier.
    pub open spec fn with_service(self, record: ServiceModel) -> RegistryModel {
        RegistryModel {
            next_id: (self.next_id + 1) as u64,
            services: self.services.insert(record.id, record),
            ..self
        }
    }

    /// The registry after `record` was stored under the next identifier.
    pub open spec fn with_expense(self, record: ExpenseModel) -> RegistryModel {
        RegistryModel {
            next_id: (self.next_id + 1) as u64,
            expenses: self.expenses.insert(record.id, record),
            ..self
        }
    }
}

/// Storing a center under the next identifier keeps the records consistent.
pub proof fn lemma_with_center_consistent(model: RegistryModel, record: CenterModel)
    requires
        model.consistent(),
        model.next_id < u64::MAX,
        record.id == model.next_id,
    ensures
        model.with_center(record).consistent(),
        !model.holds(record.id),
{
}

/// Storing a vehicle of a stored center under the next identifier keeps the
/// records consistent.
pub proof fn lemma_with_vehicle_consistent(model: RegistryModel, record: VehicleModel)
    requires
        model.consistent(),
        model.next_id < u64::MAX,
        record.id == model.next_id,
        model.centers.contains_key(record.car_wash_id),
    ensures
        model.with_vehicle(record).consistent(),
        !model.holds(record.id),
{
}

/// Storing a service of a stored center and vehicle under the next identifier
/// keeps the records consistent.
pub proof fn lemma_with_service_consistent(model: RegistryModel, record: ServiceModel)
    requires
        model.consistent(),
        model.next_id < u64::MAX,
        record.id == model.next_id,
        model.centers.contains_key(record.car_wash_id),
        model.vehicles.contains_key(record.vehicle_id),
    ensures
        model.with_service(record).consistent(),
        !model.holds(record.id),
{
}

/// Storing an expense of a stored center under the next identifier keeps the
/// records consistent.
pub proof fn lemma_with_expense_consistent(model: RegistryModel, record: ExpenseModel)
    requires
        model.consistent(),
        model.next_id < u64::MAX,
        record.id == model.next_id,
        model.centers.contains_key(record.car_wash_id),
    ensures
        model.with_expense(record).consistent(),
        !model.holds(record.id),
{
}

/// The centers that stored bytes spell.
pub open spec fn centers_of(entries: Map<u64, Seq<u8>>) -> Map<u64, CenterModel> {
    Map::new(
        |id: u64| entries.contains_key(id),
        |id: u64| center_of_bytes(entries[id]).unwrap(),
    )
}

/// The vehicles that stored bytes spell.
pub open spec fn vehicles_of(entries: Map<u64, Seq<u8>>) -> Map<u64, VehicleModel> {
    Map::new(
        |id: u64| entries.contains_key(id),
        |id: u64| vehicle_of_bytes(entries[id]).unwrap(),
    )
}

/// The services that stored bytes spell.
pub open spec fn services_of(entries: Map<u64, Seq<u8>>) -> Map<u64, ServiceModel> {
    Map::new(
        |id: u64| entries.contains_key(id),
        |id: u64| service_of_bytes(entries[id]).unwrap(),
    )
}

/// The expenses that stored bytes spell.
pub open spec fn expenses_of(entries: Map<u64, Seq<u8>>) -> Map<u64, ExpenseModel> {
    Map::new(
        |id: u64| entries.contains_key(id),
        |id: u64| expense_of_bytes(entries[id]).unwrap(),
    )
}

/// Whether a center may be created from these texts: name, contact and email
/// are not empty.
pub open spec fn center_input_valid(name: Seq<char>, contact: Seq<char>, email: Seq<char>) -> bool {
    name.len() > 0 && contact.len() > 0 && email.len() > 0
}

/// Whether a vehicle may be registered from these texts: neither is empty.
pub open spec fn vehicle_input_valid(license_plate: Seq<char>, vehicle_type: Seq<char>) -> bool {
    license_plate.len() > 0 && vehicle_type.len() > 0
}

/// Whether a service may be created from these values: the kind is not empty,
/// the price is greater than zero, and so is the duration.
pub open spec fn service_input_valid(service_type: Seq<char>, price_bits: u64, duration: u64) -> bool {
    service_type.len() > 0 && is_positive_real(price_bits) && duration > 0
}

/// Whether an expense may be recorded with this amount: it is greater than
/// zero.
pub open spec fn expense_input_valid(amount_bits: u64) -> bool {
    is_positive_real(amount_bits)
}

/// The status of a vehicle that was just registered.
pub open spec fn received() -> Seq<char> {
    "received"@
}

/// Whether `lines` holds the services of the center `car_wash_id`, each once
/// as its identifier and its price, by ascending identifier.
pub open spec fn is_revenue_of(
    lines: Seq<(u64, u64)>,
    services: Map<u64, ServiceModel>,
    car_wash_id: u64,
) -> bool {
    &&& forall|k: int, l: int| 0 <= k < l < lines.len() ==> lines[k].0 < lines[l].0
    &&& forall|k: int|
        0 <= k < lines.len() ==> services.contains_key((#[trigger] lines[k]).0)
            && services[lines[k].0].car_wash_id == car_wash_id && services[lines[k].0].price_bits
            == lines[k].1
    &&& forall|id: u64|
        services.contains_key(id) && (#[trigger] services[id]).car_wash_id == car_wash_id
            ==> exists|k: int| 0 <= k < lines.len() && (#[trigger] lines[k]).0 == id
}

/// Whether `lines` holds the expenses of the center `car_wash_id`, each once
/// as its identifier and its amount, by ascending identifier.
pub open spec fn is_spending_of(
    lines: Seq<(u64, u64)>,
    expenses: Map<u64, ExpenseModel>,
    car_wash_id: u64,
) -> bool {
    &&& forall|k: int, l: int| 0 <= k < l < lines.len() ==> lines[k].0 < lines[l].0
    &&& forall|k: int|
        0 <= k < lines.len() ==> expenses.contains_key((#[trigger] lines[k]).0)
            && expenses[lines[k].0].car_wash_id == car_wash_id && expenses[lines[k].0].amount_bits
            == lines[k].1
    &&& forall|id: u64|
        expenses.contains_key(id) && (#[trigger] expenses[id]).car_wash_id == car_wash_id
            ==> exists|k: int| 0 <= k < lines.len() && (#[trigger] lines[k]).0 == id
}

/// Whether `after` is `before` with one more record, of whatever kind, stored
/// under `id`, the next identifier of `before`. This is what every successful
/// creation does to a registry.
pub open spec fn creates(before: RegistryModel, id: u64, after: RegistryModel) -> bool {
    &&& before.next_id < u64::MAX
    &&& id == before.next_id
    &&& {
        ||| after.centers.contains_key(id) && after.centers[id].id == id && after
            == before.with_center(after.centers[id])
        ||| after.vehicles.contains_key(id) && after.vehicles[id].id == id && after
            == before.with_vehicle(after.vehicles[id])
        ||| after.services.contains_key(id) && after.services[id].id == id && after
            == before.with_service(after.services[id])
        ||| after.expenses.contains_key(id) && after.expenses[id].id == id && after
            == before.with_expense(after.expenses[id])
    }
}

/// Whether `states` is a run of creations that hand out `ids` in turn.
pub open spec fn is_run(states: Seq<RegistryModel>, ids: Seq<u64>) -> bool {
    &&& states.len() == ids.len() + 1
    &&& forall|k: int| 0 <= k < ids.len() ==> creates(states[k], #[trigger] ids[k], states[k + 1])
}

/// In a run of creations the counter advances by one with each.
pub proof fn lemma_counter_advances(states: Seq<RegistryModel>, ids: Seq<u64>, i: int, j: int)
    requires
        is_run(states, ids),
        0 <= i <= j <= ids.len(),
    ensures
        states[j].next_id == states[i].next_id + (j - i),
    decreases j - i,
{
    if i < j {
        lemma_counter_advances(states, ids, i, j - 1);
        assert(creates(states[j - 1], ids[j - 1], states[j]));
    }
}

/// In a run of creations, of whatever kinds, a later identifier is greater than
/// an earlier one: no identifier is handed out twice, and they come in
/// ascending order.
pub proof fn lemma_identifiers_increase(states: Seq<RegistryModel>, ids: Seq<u64>, i: int, j: int)
    requires
        is_run(states, ids),
        0 <= i < j < ids.len(),
    ensures
        ids[i] < ids[j],
{
    lemma_counter_advances(states, ids, i, j);
    assert(creates(states[i], ids[i], states[i + 1]));
    assert(creates(states[j], ids[j], states[j + 1]));
}

/// An identifier that a creation hands out was held by no record before, and
/// is held after.
pub proof fn lemma_created_identifier_fresh(before: RegistryModel, id: u64, after: RegistryModel)
    requires
        before.consistent(),
        creates(before, id, after),
    ensures
        !before.holds(id),
        after.holds(id),
{
}

/// An operation that answers with a message leaves the registry as it was, so
/// the creation that follows hands out the identifier that it would have
/// handed out without the failed attempt.
pub proof fn lemma_failure_keeps_identifier(
    before: RegistryModel,
    failed: RegistryModel,
    id: u64,
    after: RegistryModel,
)
    requires
        failed == before,
        creates(failed, id, after),
    ensures
        id == before.next_id,
        creates(before, id, after),
{
}

/// Whether `lines` holds each identifier of `ids` once, in ascending order.
pub open spec fn lists_ascending(lines: Seq<(u64, u64)>, ids: Set<u64>) -> bool {
    &&& forall|k: int, l: int| 0 <= k < l < lines.len() ==> lines[k].0 < lines[l].0
    &&& forall|k: int| 0 <= k < lines.len() ==> ids.contains((#[trigger] lines[k]).0)
    &&& forall|id: u64| #[trigger]
        ids.contains(id) ==> exists|k: int| 0 <= k < lines.len() && (#[trigger] lines[k]).0 == id
}

/// Two ascending lists of the same identifiers agree at every place.
pub proof fn lemma_same_identifier_at(
    a: Seq<(u64, u64)>,
    b: Seq<(u64, u64)>,
    ids: Set<u64>,
    i: int,
)
    requires
        lists_ascending(a, ids),
        lists_ascending(b, ids),
        0 <= i < a.len(),
    ensures
        i < b.len(),
        a[i].0 == b[i].0,
    decreases i,
{
    assert(ids.contains(a[i].0));
    let k = choose|k: int| 0 <= k < b.len() && (#[trigger] b[k]).0 == a[i].0;
    if k < i {
        lemma_same_identifier_at(b, a, ids, k);
        assert(a[k].0 < a[i].0);
        assert(false);
    } else if k > i {
        assert(b[i].0 < b[k].0);
        assert(ids.contains(b[i].0));
        let m = choose|m: int| 0 <= m < a.len() && (#[trigger] a[m]).0 == b[i].0;
        if m > i {
            assert(a[i].0 < a[m].0);
        }
        assert(m < i);
        lemma_same_identifier_at(a, b, ids, m);
        assert(b[m].0 < b[i].0);
        assert(false);
    }
}

/// The services of a center have one list of revenue lines: the contract of
/// `revenue_entries` leaves no choice.
pub proof fn lemma_revenue_lines_unique(
    a: Seq<(u64, u64)>,
    b: Seq<(u64, u64)>,
    services: Map<u64, ServiceModel>,
    car_wash_id: u64,
)
    requires
        is_revenue_of(a, services, car_wash_id),
        is_revenue_of(b, services, car_wash_id),
    ensures
        a == b,
{
    let ids = Set::new(
        |id: u64| services.contains_key(id) && services[id].car_wash_id == car_wash_id,
    );
    assert(lists_ascending(a, ids));
    assert(lists_ascending(b, ids));
    if a.len() > 0 {
        lemma_same_identifier_at(a, b, ids, a.len() - 1);
    }
    if b.len() > 0 {
        lemma_same_identifier_at(b, a, ids, b.len() - 1);
    }
    assert forall|i: int| 0 <= i < a.len() implies a[i] == b[i] by {
        lemma_same_identifier_at(a, b, ids, i);
    }
    assert(a =~= b);
}

/// The expenses of a center have one list of spending lines: the contract of
/// `expense_entries` leaves no choice.
pub proof fn lemma_spending_lines_unique(
    a: Seq<(u64, u64)>,
    b: Seq<(u64, u64)>,
    expenses: Map<u64, ExpenseModel>,
    car_wash_id: u64,
)
    requires
        is_spending_of(a, expenses, car_wash_id),
        is_spending_of(b, expenses, car_wash_id),
    ensures
        a == b,
{
    let ids = Set::new(
        |id: u64| expenses.contains_key(id) && expenses[id].car_wash_id == car_wash_id,
    );
    assert(lists_ascending(a, ids));
    assert(lists_ascending(b, ids));
    if a.len() > 0 {
        lemma_same_identifier_at(a, b, ids, a.len() - 1);
    }
    if b.len() > 0 {
        lemma_same_identifier_at(b, a, ids, b.len() - 1);
    }
    assert forall|i: int| 0 <= i < a.len() implies a[i] == b[i] by {
        lemma_same_identifier_at(a, b, ids, i);
    }
    assert(a =~= b);
}

/// A center without services has no revenue lines.
pub proof fn lemma_no_service_no_revenue(
    lines: Seq<(u64, u64)>,
    services: Map<u64, ServiceModel>,
    car_wash_id: u64,
)
    requires
        is_revenue_of(lines, services, car_wash_id),
        forall|id: u64| #[trigger]
            services.contains_key(id) ==> services[id].car_wash_id != car_wash_id,
    ensures
        lines.len() == 0,
{
    if lines.len() > 0 {
        assert(services.contains_key(lines[0].0));
    }
}

/// A center without expenses has no spending lines.
pub proof fn lemma_no_expense_no_spending(
    lines: Seq<(u64, u64)>,
    expenses: Map<u64, ExpenseModel>,
    car_wash_id: u64,
)
    requires
        is_spending_of(lines, expenses, car_wash_id),
        forall|id: u64| #[trigger]
            expenses.contains_key(id) ==> expenses[id].car_wash_id != car_wash_id,
    ensures
        lines.len() == 0,
{
    if lines.len() > 0 {
        assert(expenses.contains_key(lines[0].0));
    }
}

/// The storage context: the identifier counter and the four stores, each in a
/// region of its own.
pub struct Registry {
    counter: IdCell,
    centers: RecordMap,
    vehicles: RecordMap,
    services: RecordMap,
    expenses: RecordMap,
}

impl View for Registry {
    type V = RegistryModel;

    closed spec fn view(&self) -> RegistryModel {
        RegistryModel {
            next_id: cell_value(self.counter),
            centers: centers_of(map_entries(self.centers)),
            vehicles: vehicles_of(map_entries(self.vehicles)),
            services: services_of(map_entries(self.services)),
            expenses: expenses_of(map_entries(self.expenses)),
        }
    }
}

/// Takes the next identifier: hands back the value of the counter and stores
/// that value plus one.
fn next(counter: &mut IdCell) -> (id: u64)
    requires
        cell_value(*old(counter)) < u64::MAX,
    ensures
        id == cell_value(*old(counter)),
        cell_value(*final(counter)) == id + 1,
{
    let current = cell_get(counter);
    cell_set(counter, current + 1)
}

impl Registry {
    /// Every stored value stays within `MAX_RECORD_SIZE` and spells a record,
    /// and the records are consistent.
    pub closed spec fn wf(&self) -> bool {
        &&& forall|id: u64| #[trigger]
            map_entries(self.centers).contains_key(id) ==> map_entries(self.centers)[id].len()
                <= MAX_RECORD_SIZE && center_of_bytes(map_entries(self.centers)[id]).is_some()
        &&& forall|id: u64| #[trigger]
            map_entries(self.vehicles).contains_key(id) ==> map_entries(self.vehicles)[id].len()
                <= MAX_RECORD_SIZE && vehicle_of_bytes(map_entries(self.vehicles)[id]).is_some()
        &&& forall|id: u64| #[trigger]
            map_entries(self.services).contains_key(id) ==> map_entries(self.services)[id].len()
                <= MAX_RECORD_SIZE && service_of_bytes(map_entries(self.services)[id]).is_some()
        &&& forall|id: u64| #[trigger]
            map_entries(self.expenses).contains_key(id) ==> map_entries(self.expenses)[id].len()
                <= MAX_RECORD_SIZE && expense_of_bytes(map_entries(self.expenses)[id]).is_some()
        &&& self@.consistent()
    }

    /// The records of a well-formed registry are consistent: each is stored
    /// under its own identifier, which no other record of whatever kind has.
    pub proof fn lemma_wf_consistent(&self)
        requires
            self.wf(),
        ensures
            self@.consistent(),
    {
    }

    /// The regions in which the counter and the stores of this registry live.
    pub closed spec fn layout(&self) -> Layout {
        Layout {
            counter: cell_region(self.counter),
            centers: map_region(self.centers),
            vehicles: map_region(self.vehicles),
            services: map_region(self.services),
            expenses: map_region(self.expenses),
        }
    }

    /// A registry over the default memory, with no records and 0 as its first
    /// identifier, laid out as the durable format says. What the memory held is
    /// written over.
    pub fn new() -> (registry: Registry)
        ensures
            registry.wf(),
            registry@ == RegistryModel::empty(),
            registry.layout() == durable_layout(),
    {
        let regions = regions_init();
        let counter = cell_new(regions_take(&regions, COUNTER_REGION), 0);
        let centers = map_new(regions_take(&regions, CENTERS_REGION));
        let vehicles = map_new(regions_take(&regions, VEHICLES_REGION));
        let services = map_new(regions_take(&regions, SERVICES_REGION));
        let expenses = map_new(regions_take(&regions, EXPENSES_REGION));
        let registry = Registry { counter, centers, vehicles, services, expenses };
        assert(registry@.centers =~= Map::empty());
        assert(registry@.vehicles =~= Map::empty());
        assert(registry@.services =~= Map::empty());
        assert(registry@.expenses =~= Map::empty());
        registry
    }

    /// Whether the entry under `id` of the centers is sound: it stays within
    /// `MAX_RECORD_SIZE`, spells a center with that identifier, which the counter
    /// has passed and no later store holds.
    pub closed spec fn center_sound(&self, id: u64) -> bool {
        let bytes = map_entries(self.centers)[id];
        &&& bytes.len() <= MAX_RECORD_SIZE
        &&& center_of_bytes(bytes).is_some()
        &&& center_of_bytes(bytes).unwrap().id == id
        &&& id < cell_value(self.counter)
        &&& !map_entries(self.vehicles).contains_key(id)
        &&& !map_entries(self.services).contains_key(id)
        &&& !map_entries(self.expenses).contains_key(id)
    }

    /// Whether every entry of the centers is sound.
    pub closed spec fn centers_sound(&self) -> bool {
        forall|id: u64| #[trigger] map_entries(self.centers).contains_key(id) ==> self.center_sound(id)
    }

    /// Goes through the centers and tests each entry.
    fn audit_centers(&self) -> (sound: bool)
        ensures
            sound == self.centers_sound(),
    {
        let next = cell_get(&self.counter);
        let listing = map_scan(&self.centers);
        let mut i: usize = 0;
        while i < listing.len()
            invariant
                i <= listing.len(),
                is_listing(listing@, map_entries(self.centers)),
                next == cell_value(self.counter),
                forall|j: int| 0 <= j < i ==> self.center_sound((#[trigger] listing[j]).0),
            decreases listing.len() - i,
        {
            let id = listing[i].0;
            assert(map_entries(self.centers).contains_key(listing[i as int].0));
            let placed = listing[i].1.len() <= MAX_RECORD_SIZE && id < next
                && !map_contains(&self.vehicles, id)
                && !map_contains(&self.services, id)
                && !map_contains(&self.expenses, id);
            let spelled = match CarWashCenter::from_bytes(&listing[i].1) {
                Some(record) => record.id == id,
                None => false,
            };
            if !placed || !spelled {
                assert(!self.center_sound(id));
                return false;
            }
            i = i + 1;
        }
        proof {
            assert forall|id: u64| #[trigger]
                map_entries(self.centers).contains_key(id) implies self.center_sound(id) by {
                let j = choose|j: int| 0 <= j < listing.len() && listing[j].0 == id;
                assert(self.center_sound(listing[j].0));
            }
        }
        true
    }

    /// Whether the entry under `id` of the vehicles is sound: it stays within
    /// `MAX_RECORD_SIZE`, spells a vehicle with that identifier, which the counter
    /// has passed and no later store holds, and refers to stored records.
    pub closed spec fn vehicle_sound(&self, id: u64) -> bool {
        let bytes = map_entries(self.vehicles)[id];
        &&& bytes.len() <= MAX_RECORD_SIZE
        &&& vehicle_of_bytes(bytes).is_some()
        &&& vehicle_of_bytes(bytes).unwrap().id == id
        &&& id < cell_value(self.counter)
        &&& !map_entries(self.services).contains_key(id)
        &&& !map_entries(self.expenses).contains_key(id)
        &&& map_entries(self.centers).contains_key(vehicle_of_bytes(bytes).unwrap().car_wash_id)
    }

    /// Whether every entry of the vehicles is sound.
    pub closed spec fn vehicles_sound(&self) -> bool {
        forall|id: u64| #[trigger] map_entries(self.vehicles).contains_key(id) ==> self.vehicle_sound(id)
    }

    /// Goes through the vehicles and tests each entry.
    fn audit_vehicles(&self) -> (sound: bool)
        ensures
            sound == self.vehicles_sound(),
    {
        let next = cell_get(&self.counter);
        let listing = map_scan(&self.vehicles);
        let mut i: usize = 0;
        while i < listing.len()
            invariant
                i <= listing.len(),
                is_listing(listing@, map_entries(self.vehicles)),
                next == cell_value(self.counter),
                forall|j: int| 0 <= j < i ==> self.vehicle_sound((#[trigger] listing[j]).0),
            decreases listing.len() - i,
        {
            let id = listing[i].0;
            assert(map_entries(self.vehicles).contains_key(listing[i as int].0));
            let placed = listing[i].1.len() <= MAX_RECORD_SIZE && id < next
                && !map_contains(&self.services, id)
                && !map_contains(&self.expenses, id);
            let spelled = match Vehicle::from_bytes(&listing[i].1) {
                Some(record) => record.id == id
                    && map_contains(&self.centers, record.car_wash_id),
                None => false,
            };
            if !placed || !spelled {
                assert(!self.vehicle_sound(id));
                return false;
            }
            i = i + 1;
        }
        proof {
            assert forall|id: u64| #[trigger]
                map_entries(self.vehicles).contains_key(id) implies self.vehicle_sound(id) by {
                let j = choose|j: int| 0 <= j < listing.len() && listing[j].0 == id;
                assert(self.vehicle_sound(listing[j].0));
            }
        }
        true
    }

    /// Whether the entry under `id` of the services is sound: it stays within
    /// `MAX_RECORD_SIZE`, spells a service with that identifier, which the counter
    /// has passed and no later store holds, and refers to stored records.
    pub closed spec fn service_sound(&self, id: u64) -> bool {
        let bytes = map_entries(self.services)[id];
        &&& bytes.len() <= MAX_RECORD_SIZE
        &&& service_of_bytes(bytes).is_some()
        &&& service_of_bytes(bytes).unwrap().id == id
        &&& id < cell_value(self.counter)
        &&& !map_entries(self.expenses).contains_key(id)
        &&& map_entries(self.centers).contains_key(service_of_bytes(bytes).unwrap().car_wash_id)
        &&& map_entries(self.vehicles).contains_key(service_of_bytes(bytes).unwrap().vehicle_id)
    }

    /// Whether every entry of the services is sound.
    pub closed spec fn services_sound(&self) -> bool {
        forall|id: u64| #[trigger] map_entries(self.services).contains_key(id) ==> self.service_sound(id)
    }

    /// Goes through the services and tests each entry.
    fn audit_services(&self) -> (sound: bool)
        ensures
            sound == self.services_sound(),
    {
        let next = cell_get(&self.counter);
        let listing = map_scan(&self.services);
        let mut i: usize = 0;
        while i < listing.len()
            invariant
                i <= listing.len(),
                is_listing(listing@, map_entries(self.services)),
                next == cell_value(self.counter),
                forall|j: int| 0 <= j < i ==> self.service_sound((#[trigger] listing[j]).0),
            decreases listing.len() - i,
        {
            let id = listing[i].0;
            assert(map_entries(self.services).contains_key(listing[i as int].0));
            let placed = listing[i].1.len() <= MAX_RECORD_SIZE && id < next
                && !map_contains(&self.expenses, id);
            let spelled = match Service::from_bytes(&listing[i].1) {
                Some(record) => record.id == id
                    && map_contains(&self.centers, record.car_wash_id)
                    && map_contains(&self.vehicles, record.vehicle_id),
                None => false,
            };
            if !placed || !spelled {
                assert(!self.service_sound(id));
                return false;
            }
            i = i + 1;
        }
        proof {
            assert forall|id: u64| #[trigger]
                map_entries(self.services).contains_key(id) implies self.service_sound(id) by {
                let j = choose|j: int| 0 <= j < listing.len() && listing[j].0 == id;
                assert(self.service_sound(listing[j].0));
            }
        }
        true
    }

    /// Whether the entry under `id` of the expenses is sound: it stays within
    /// `MAX_RECORD_SIZE`, spells a expense with that identifier, which the counter
    /// has passed, and refers to stored records.
    pub closed spec fn expense_sound(&self, id: u64) -> bool {
        let bytes = map_entries(self.expenses)[id];
        &&& bytes.len() <= MAX_RECORD_SIZE
        &&& expense_of_bytes(bytes).is_some()
        &&& expense_of_bytes(bytes).unwrap().id == id
        &&& id < cell_value(self.counter)
        &&& map_entries(self.centers).contains_key(expense_of_bytes(bytes).unwrap().car_wash_id)
    }

    /// Whether every entry of the expenses is sound.
    pub closed spec fn expenses_sound(&self) -> bool {
        forall|id: u64| #[trigger] map_entries(self.expenses).contains_key(id) ==> self.expense_sound(id)
    }

    /// Goes through the expenses and tests each entry.
    fn audit_expenses(&self) -> (sound: bool)
        ensures
            sound == self.expenses_sound(),
    {
        let next = cell_get(&self.counter);
        let listing = map_scan(&self.expenses);
        let mut i: usize = 0;
        while i < listing.len()
            invariant
                i <= listing.len(),
                is_listing(listing@, map_entries(self.expenses)),
                next == cell_value(self.counter),
                forall|j: int| 0 <= j < i ==> self.expense_sound((#[trigger] listing[j]).0),
            decreases listing.len() - i,
        {
            let id = listing[i].0;
            assert(map_entries(self.expenses).contains_key(listing[i as int].0));
            let placed = listing[i].1.len() <= MAX_RECORD_SIZE && id < next;
            let spelled = match Expense::from_bytes(&listing[i].1) {
                Some(record) => record.id == id
                    && map_contains(&self.centers, record.car_wash_id),
                None => false,
            };
            if !placed || !spelled {
                assert(!self.expense_sound(id));
                return false;
            }
            i = i + 1;
        }
        proof {
            assert forall|id: u64| #[trigger]
                map_entries(self.expenses).contains_key(id) implies self.expense_sound(id) by {
                let j = choose|j: int| 0 <= j < listing.len() && listing[j].0 == id;
                assert(self.expense_sound(listing[j].0));
            }
        }
        true
    }

    /// A registry over the default memory, with the counter and the records
    /// that the memory holds; where it holds none, with no records and 0 as its
    /// first identifier. The counter and the stores are read from the regions
    /// of the durable format. Nothing is known of what was loaded until `audit`
    /// has tested it.
    pub fn open() -> (registry: Registry)
        ensures
            registry.layout() == durable_layout(),
    {
        let regions = regions_init();
        let counter = cell_init(regions_take(&regions, COUNTER_REGION), 0);
        let centers = map_init(regions_take(&regions, CENTERS_REGION));
        let vehicles = map_init(regions_take(&regions, VEHICLES_REGION));
        let services = map_init(regions_take(&regions, SERVICES_REGION));
        let expenses = map_init(regions_take(&regions, EXPENSES_REGION));
        Registry { counter, centers, vehicles, services, expenses }
    }

    /// Tests whether the registry is well formed, by going through every
    /// stored entry.
    pub fn audit(&self) -> (sound: bool)
        ensures
            sound == self.wf(),
    {
        let sound = self.audit_centers() && self.audit_vehicles() && self.audit_services()
            && self.audit_expenses();
        proof {
            self.lemma_wf_by_store();
        }
        sound
    }

    /// A registry is well formed exactly when every entry of every store is
    /// sound.
    pub proof fn lemma_wf_by_store(&self)
        ensures
            self.wf() == (self.centers_sound() && self.vehicles_sound() && self.services_sound()
                && self.expenses_sound()),
    {
        if self.wf() {
            assert forall|id: u64| #[trigger]
                map_entries(self.centers).contains_key(id) implies self.center_sound(id) by {
                assert(self@.centers.contains_key(id));
            }
            assert forall|id: u64| #[trigger]
                map_entries(self.vehicles).contains_key(id) implies self.vehicle_sound(id) by {
                assert(self@.vehicles.contains_key(id));
            }
            assert forall|id: u64| #[trigger]
                map_entries(self.services).contains_key(id) implies self.service_sound(id) by {
                assert(self@.services.contains_key(id));
            }
            assert forall|id: u64| #[trigger]
                map_entries(self.expenses).contains_key(id) implies self.expense_sound(id) by {
                assert(self@.expenses.contains_key(id));
            }
        }
        if self.centers_sound() && self.vehicles_sound() && self.services_sound()
            && self.expenses_sound() {
            assert forall|id: u64| #[trigger] self@.centers.contains_key(id) implies {
                &&& self@.centers[id].id == id
                &&& id < self@.next_id
                &&& !self@.vehicles.contains_key(id)
                &&& !self@.services.contains_key(id)
                &&& !self@.expenses.contains_key(id)
            } by {
                assert(map_entries(self.centers).contains_key(id));
                assert(self.center_sound(id));
            }
            assert forall|id: u64| #[trigger] self@.vehicles.contains_key(id) implies {
                &&& self@.vehicles[id].id == id
                &&& id < self@.next_id
                &&& !self@.services.contains_key(id)
                &&& !self@.expenses.contains_key(id)
                &&& self@.centers.contains_key(self@.vehicles[id].car_wash_id)
            } by {
                assert(map_entries(self.vehicles).contains_key(id));
                assert(self.vehicle_sound(id));
            }
            assert forall|id: u64| #[trigger] self@.services.contains_key(id) implies {
                &&& self@.services[id].id == id
                &&& id < self@.next_id
                &&& !self@.expenses.contains_key(id)
                &&& self@.centers.contains_key(self@.services[id].car_wash_id)
                &&& self@.vehicles.contains_key(self@.services[id].vehicle_id)
            } by {
                assert(map_entries(self.services).contains_key(id));
                assert(self.service_sound(id));
            }
            assert forall|id: u64| #[trigger] self@.expenses.contains_key(id) implies {
                &&& self@.expenses[id].id == id
                &&& id < self@.next_id
                &&& self@.centers.contains_key(self@.expenses[id].car_wash_id)
            } by {
                assert(map_entries(self.expenses).contains_key(id));
                assert(self.expense_sound(id));
            }
            assert(self@.consistent());
        }
    }

    /// The identifier that the next record will get.
    pub fn next_id(&self) -> (id: u64)
        ensures
            id == self@.next_id,
    {
        cell_get(&self.counter)
    }

    /// Tests whether a center with these texts can be created or is refused
    /// with a message.
    pub fn admits_center(
        &self,
        name: &String,
        location: &String,
        contact: &String,
        email: &String,
    ) -> (admitted: bool)
        ensures
            admitted == self@.admits_center(name@, location@, contact@, email@),
    {
        if name.as_str().is_empty() || contact.as_str().is_empty() || email.as_str().is_empty() {
            return true;
        }
        cell_get(&self.counter) < u64::MAX && center_fits(name, location, contact, email)
    }

    /// Tests whether a vehicle with these values can be registered or is
    /// refused with a message.
    pub fn admits_vehicle(
        &self,
        car_wash_id: u64,
        license_plate: &String,
        vehicle_type: &String,
    ) -> (admitted: bool)
        ensures
            admitted == self@.admits_vehicle(car_wash_id, license_plate@, vehicle_type@),
    {
        if license_plate.as_str().is_empty() || vehicle_type.as_str().is_empty() {
            return true;
        }
        if !map_contains(&self.centers, car_wash_id) {
            return true;
        }
        let status = "received".to_owned();
        cell_get(&self.counter) < u64::MAX && vehicle_fits(license_plate, vehicle_type, &status)
    }

    /// Tests whether a service with these values can be created or is refused
    /// with a message.
    pub fn admits_service(
        &self,
        car_wash_id: u64,
        vehicle_id: u64,
        service_type: &String,
        price_bits: u64,
        duration: u64,
    ) -> (admitted: bool)
        ensures
            admitted == self@.admits_service(
                car_wash_id,
                vehicle_id,
                service_type@,
                price_bits,
                duration,
            ),
    {
        if service_type.as_str().is_empty() || !positive_real(price_bits) || duration == 0 {
            return true;
        }
        if !map_contains(&self.centers, car_wash_id) || !map_contains(&self.vehicles, vehicle_id) {
            return true;
        }
        cell_get(&self.counter) < u64::MAX && service_fits(service_type)
    }

    /// Tests whether an expense with these values can be recorded or is
    /// refused with a message.
    pub fn admits_expense(
        &self,
        car_wash_id: u64,
        category: &String,
        amount_bits: u64,
        description: &String,
    ) -> (admitted: bool)
        ensures
            admitted == self@.admits_expense(car_wash_id, category@, amount_bits, description@),
    {
        if !positive_real(amount_bits) || !map_contains(&self.centers, car_wash_id) {
            return true;
        }
        cell_get(&self.counter) < u64::MAX && expense_fits(category, description)
    }

    /// Creates a center. Name, contact and email must not be empty.
    pub fn create_car_wash_center(
        &mut self,
        name: String,
        location: String,
        contact: String,
        email: String,
        capacity: u64,
        now: u64,
    ) -> (result: Result<CarWashCenter, Message>)
        requires
            old(self).wf(),
            old(self)@.admits_center(name@, location@, contact@, email@),
        ensures
            final(self).wf(),
            match result {
                Ok(record) => {
                    &&& center_input_valid(name@, contact@, email@)
                    &&& record@ == (CenterModel {
                        id: old(self)@.next_id,
                        name: name@,
                        location: location@,
                        contact: contact@,
                        email: email@,
                        capacity,
                        created_at: now,
                    })
                    &&& final(self)@ == old(self)@.with_center(record@)
                    &&& creates(old(self)@, record.id, final(self)@)
                },
                Err(message) => {
                    &&& !center_input_valid(name@, contact@, email@)
                    &&& message@ == MessageModel::InvalidPayload("Missing required fields"@)
                    &&& *final(self) == *old(self)
                },
            },
    {
        if name.as_str().is_empty() || contact.as_str().is_empty() || email.as_str().is_empty() {
            return Err(Message::InvalidPayload("Missing required fields".to_owned()));
        }
        let id = next(&mut self.counter);
        let record = CarWashCenter { id, name, location, contact, email, capacity, created_at: now };
        let bytes = record.to_bytes();
        proof {
            lemma_center_round_trip(record@);
            lemma_center_size(record@);
        }
        map_insert(&mut self.centers, id, bytes);
        proof {
            assert(self@.centers =~= old(self)@.centers.insert(id, record@));
            assert(self@ == old(self)@.with_center(record@));
            lemma_with_center_consistent(old(self)@, record@);
        }
        Ok(record)
    }

    /// Registers a vehicle at a center. Plate and type must not be empty, and
    /// the center must be stored. The vehicle starts as received.
    pub fn register_vehicle(
        &mut self,
        car_wash_id: u64,
        license_plate: String,
        vehicle_type: String,
        now: u64,
    ) -> (result: Result<Vehicle, Message>)
        requires
            old(self).wf(),
            old(self)@.admits_vehicle(car_wash_id, license_plate@, vehicle_type@),
        ensures
            final(self).wf(),
            match result {
                Ok(record) => {
                    &&& vehicle_input_valid(license_plate@, vehicle_type@)
                    &&& old(self)@.centers.contains_key(car_wash_id)
                    &&& record@ == (VehicleModel {
                        id: old(self)@.next_id,
                        car_wash_id,
                        license_plate: license_plate@,
                        vehicle_type: vehicle_type@,
                        arrival_time: now,
                        status: received(),
                    })
                    &&& final(self)@ == old(self)@.with_vehicle(record@)
                    &&& creates(old(self)@, record.id, final(self)@)
                },
                Err(message) => {
                    &&& *final(self) == *old(self)
                    &&& if !vehicle_input_valid(license_plate@, vehicle_type@) {
                        message@ == MessageModel::InvalidPayload("Missing required fields"@)
                    } else {
                        !old(self)@.centers.contains_key(car_wash_id) && message@
                            == MessageModel::NotFound("Car Wash Center not found"@)
                    }
                },
            },
    {
        if license_plate.as_str().is_empty() || vehicle_type.as_str().is_empty() {
            return Err(Message::InvalidPayload("Missing required fields".to_owned()));
        }
        if !map_contains(&self.centers, car_wash_id) {
            return Err(Message::NotFound("Car Wash Center not found".to_owned()));
        }
        let id = next(&mut self.counter);
        let record = Vehicle {
            id,
            car_wash_id,
            license_plate,
            vehicle_type,
            arrival_time: now,
            status: "received".to_owned(),
        };
        let bytes = record.to_bytes();
        proof {
            lemma_vehicle_round_trip(record@);
            lemma_vehicle_size(record@);
        }
        map_insert(&mut self.vehicles, id, bytes);
        proof {
            assert(self@.vehicles =~= old(self)@.vehicles.insert(id, record@));
            assert(self@ == old(self)@.with_vehicle(record@));
            lemma_with_vehicle_consistent(old(self)@, record@);
        }
        Ok(record)
    }

    /// Creates a service on a vehicle at a center. The kind must not be empty,
    /// price and duration must be greater than zero, and the center and the
    /// vehicle must be stored. The center is looked up first.
    pub fn create_service(
        &mut self,
        car_wash_id: u64,
        vehicle_id: u64,
        service_type: String,
        price_bits: u64,
        duration: u64,
    ) -> (result: Result<Service, Message>)
        requires
            old(self).wf(),
            old(self)@.admits_service(car_wash_id, vehicle_id, service_type@, price_bits, duration),
        ensures
            final(self).wf(),
            match result {
                Ok(record) => {
                    &&& service_input_valid(service_type@, price_bits, duration)
                    &&& old(self)@.centers.contains_key(car_wash_id)
                    &&& old(self)@.vehicles.contains_key(vehicle_id)
                    &&& record@ == (ServiceModel {
                        id: old(self)@.next_id,
                        car_wash_id,
                        vehicle_id,
                        service_type: service_type@,
                        price_bits,
                        duration,
                        completed_at: None,
                    })
                    &&& final(self)@ == old(self)@.with_service(record@)
                    &&& creates(old(self)@, record.id, final(self)@)
                },
                Err(message) => {
                    &&& *final(self) == *old(self)
                    &&& if !service_input_valid(service_type@, price_bits, duration) {
                        message@ == MessageModel::InvalidPayload("Invalid service data"@)
                    } else if !old(self)@.centers.contains_key(car_wash_id) {
                        message@ == MessageModel::NotFound("Car Wash Center not found"@)
                    } else {
                        !old(self)@.vehicles.contains_key(vehicle_id) && message@
                            == MessageModel::NotFound("Vehicle not found"@)
                    }
                },
            },
    {
        if service_type.as_str().is_empty() || !positive_real(price_bits) || duration == 0 {
            return Err(Message::InvalidPayload("Invalid service data".to_owned()));
        }
        if !map_contains(&self.centers, car_wash_id) {
            return Err(Message::NotFound("Car Wash Center not found".to_owned()));
        }
        if !map_contains(&self.vehicles, vehicle_id) {
            return Err(Message::NotFound("Vehicle not found".to_owned()));
        }
        let id = next(&mut self.counter);
        let record = Service {
            id,
            car_wash_id,
            vehicle_id,
            service_type,
            price_bits,
            duration,
            completed_at: None,
        };
        let bytes = record.to_bytes();
        proof {
            lemma_service_round_trip(record@);
            lemma_service_size(record@);
        }
        map_insert(&mut self.services, id, bytes);
        proof {
            assert(self@.services =~= old(self)@.services.insert(id, record@));
            assert(self@ == old(self)@.with_service(record@));
            lemma_with_service_consistent(old(self)@, record@);
        }
        Ok(record)
    }

    /// Records an expense of a center. The amount must be greater than zero,
    /// and the center must be stored.
    pub fn record_expense(
        &mut self,
        car_wash_id: u64,
        category: String,
        amount_bits: u64,
        description: String,
        now: u64,
    ) -> (result: Result<Expense, Message>)
        requires
            old(self).wf(),
            old(self)@.admits_expense(car_wash_id, category@, amount_bits, description@),
        ensures
            final(self).wf(),
            match result {
                Ok(record) => {
                    &&& expense_input_valid(amount_bits)
                    &&& old(self)@.centers.contains_key(car_wash_id)
                    &&& record@ == (ExpenseModel {
                        id: old(self)@.next_id,
                        car_wash_id,
                        date: now,
                        category: category@,
                        amount_bits,
                        description: description@,
                    })
                    &&& final(self)@ == old(self)@.with_expense(record@)
                    &&& creates(old(self)@, record.id, final(self)@)
                },
                Err(message) => {
                    &&& *final(self) == *old(self)
                    &&& if !expense_input_valid(amount_bits) {
                        message@ == MessageModel::InvalidPayload("Invalid expense amount"@)
                    } else {
                        !old(self)@.centers.contains_key(car_wash_id) && message@
                            == MessageModel::NotFound("Car Wash Center not found"@)
                    }
                },
            },
    {
        if !positive_real(amount_bits) {
            return Err(Message::InvalidPayload("Invalid expense amount".to_owned()));
        }
        if !map_contains(&self.centers, car_wash_id) {
            return Err(Message::NotFound("Car Wash Center not found".to_owned()));
        }
        let id = next(&mut self.counter);
        let record = Expense { id, car_wash_id, date: now, category, amount_bits, description };
        let bytes = record.to_bytes();
        proof {
            lemma_expense_round_trip(record@);
            lemma_expense_size(record@);
        }
        map_insert(&mut self.expenses, id, bytes);
        proof {
            assert(self@.expenses =~= old(self)@.expenses.insert(id, record@));
            assert(self@ == old(self)@.with_expense(record@));
            lemma_with_expense_consistent(old(self)@, record@);
        }
        Ok(record)
    }

    /// The services of a center, each as its identifier and its price, by
    /// ascending identifier. The center must be stored.
    pub fn revenue_entries(&self, car_wash_id: u64) -> (result: Result<Vec<(u64, u64)>, Message>)
        requires
            self.wf(),
        ensures
            match result {
                Ok(lines) => self@.centers.contains_key(car_wash_id) && is_revenue_of(
                    lines@,
                    self@.services,
                    car_wash_id,
                ),
                Err(message) => !self@.centers.contains_key(car_wash_id) && message@
                    == MessageModel::NotFound("Car Wash Center not found"@),
            },
    {
        if !map_contains(&self.centers, car_wash_id) {
            return Err(Message::NotFound("Car Wash Center not found".to_owned()));
        }
        let listing = map_scan(&self.services);
        let ghost entries = map_entries(self.services);
        let ghost services = services_of(entries);
        let mut lines: Vec<(u64, u64)> = Vec::new();
        let mut i: usize = 0;
        while i < listing.len()
            invariant
                i <= listing.len(),
                is_listing(listing@, entries),
                forall|id: u64| #[trigger]
                    entries.contains_key(id) ==> service_of_bytes(entries[id]).is_some(),
                services == services_of(entries),
                forall|k: int, l: int| 0 <= k < l < lines.len() ==> lines[k].0 < lines[l].0,
                forall|k: int| 0 <= k < lines.len() ==> i > 0 && (#[trigger] lines[k]).0 <= listing[i - 1].0,
                forall|k: int|
                    0 <= k < lines.len() ==> services.contains_key((#[trigger] lines[k]).0)
                        && services[lines[k].0].car_wash_id == car_wash_id
                        && services[lines[k].0].price_bits == lines[k].1,
                forall|j: int|
                    0 <= j < i && services[(#[trigger] listing[j]).0].car_wash_id == car_wash_id
                        ==> exists|k: int| 0 <= k < lines.len() && (#[trigger] lines[k]).0 == listing[j].0,
            decreases listing.len() - i,
        {
            let ghost before = lines@;
            assert(entries.contains_key(listing[i as int].0));
            if let Some(service) = Service::from_bytes(&listing[i].1) {
                if service.car_wash_id == car_wash_id {
                    lines.push((listing[i].0, service.price_bits));
                    proof {
                        let last = before.len() as int;
                        assert(lines@[last].0 == listing[i as int].0);
                        assert forall|j: int|
                            0 <= j < i + 1 && services[(#[trigger] listing[j]).0].car_wash_id
                                == car_wash_id implies exists|k: int|
                            0 <= k < lines.len() && (#[trigger] lines[k]).0 == listing[j].0 by {
                            if j < i {
                                let k = choose|k: int|
                                    0 <= k < before.len() && (#[trigger] before[k]).0 == listing[j].0;
                                assert(lines[k].0 == listing[j].0);
                            } else {
                                assert(lines[last].0 == listing[j].0);
                            }
                        }
                    }
                }
            }
            i = i + 1;
        }
        proof {
            assert forall|id: u64|
                services.contains_key(id) && (#[trigger] services[id]).car_wash_id
                    == car_wash_id implies exists|k: int|
                0 <= k < lines.len() && (#[trigger] lines[k]).0 == id by {
                assert(entries.contains_key(id));
                let j = choose|j: int| 0 <= j < listing.len() && listing[j].0 == id;
                assert(services[listing[j].0].car_wash_id == car_wash_id);
            }
        }
        Ok(lines)
    }

    /// The expenses of a center, each as its identifier and its amount, by
    /// ascending identifier. The center must be stored.
    pub fn expense_entries(&self, car_wash_id: u64) -> (result: Result<Vec<(u64, u64)>, Message>)
        requires
            self.wf(),
        ensures
            match result {
                Ok(lines) => self@.centers.contains_key(car_wash_id) && is_spending_of(
                    lines@,
                    self@.expenses,
                    car_wash_id,
                ),
                Err(message) => !self@.centers.contains_key(car_wash_id) && message@
                    == MessageModel::NotFound("Car Wash Center not found"@),
            },
    {
        if !map_contains(&self.centers, car_wash_id) {
            return Err(Message::NotFound("Car Wash Center not found".to_owned()));
        }
        let listing = map_scan(&self.expenses);
        let ghost entries = map_entries(self.expenses);
        let ghost expenses = expenses_of(entries);
        let mut lines: Vec<(u64, u64)> = Vec::new();
        let mut i: usize = 0;
        while i < listing.len()
            invariant
                i <= listing.len(),
                is_listing(listing@, entries),
                forall|id: u64| #[trigger]
                    entries.contains_key(id) ==> expense_of_bytes(entries[id]).is_some(),
                expenses == expenses_of(entries),
                forall|k: int, l: int| 0 <= k < l < lines.len() ==> lines[k].0 < lines[l].0,
                forall|k: int| 0 <= k < lines.len() ==> i > 0 && (#[trigger] lines[k]).0 <= listing[i - 1].0,
                forall|k: int|
                    0 <= k < lines.len() ==> expenses.contains_key((#[trigger] lines[k]).0)
                        && expenses[lines[k].0].car_wash_id == car_wash_id
                        && expenses[lines[k].0].amount_bits == lines[k].1,
                forall|j: int|
                    0 <= j < i && expenses[(#[trigger] listing[j]).0].car_wash_id == car_wash_id
                        ==> exists|k: int| 0 <= k < lines.len() && (#[trigger] lines[k]).0 == listing[j].0,
            decreases listing.len() - i,
        {
            let ghost before = lines@;
            assert(entries.contains_key(listing[i as int].0));
            if let Some(expense) = Expense::from_bytes(&listing[i].1) {
                if expense.car_wash_id == car_wash_id {
                    lines.push((listing[i].0, expense.amount_bits));
                    proof {
                        let last = before.len() as int;
                        assert(lines@[last].0 == listing[i as int].0);
                        assert forall|j: int|
                            0 <= j < i + 1 && expenses[(#[trigger] listing[j]).0].car_wash_id
                                == car_wash_id implies exists|k: int|
                            0 <= k < lines.len() && (#[trigger] lines[k]).0 == listing[j].0 by {
                            if j < i {
                                let k = choose|k: int|
                                    0 <= k < before.len() && (#[trigger] before[k]).0 == listing[j].0;
                                assert(lines[k].0 == listing[j].0);
                            } else {
                                assert(lines[last].0 == listing[j].0);
                            }
                        }
                    }
                }
            }
            i = i + 1;
        }
        proof {
            assert forall|id: u64|
                expenses.contains_key(id) && (#[trigger] expenses[id]).car_wash_id
                    == car_wash_id implies exists|k: int|
                0 <= k < lines.len() && (#[trigger] lines[k]).0 == id by {
                assert(entries.contains_key(id));
                let j = choose|j: int| 0 <= j < listing.len() && listing[j].0 == id;
                assert(expenses[listing[j].0].car_wash_id == car_wash_id);
            }
        }
        Ok(lines)
    }

    /// The center stored under `id`, if there is one.
    pub fn center(&self, id: u64) -> (found: Option<CarWashCenter>)
        requires
            self.wf(),
        ensures
            found.is_some() == self@.centers.contains_key(id),
            found.is_some() ==> found.unwrap()@ == self@.centers[id],
    {
        match map_get(&self.centers, id) {
            Some(bytes) => CarWashCenter::from_bytes(&bytes),
            None => None,
        }
    }

    /// The vehicle stored under `id`, if there is one.
    pub fn vehicle(&self, id: u64) -> (found: Option<Vehicle>)
        requires
            self.wf(),
        ensures
            found.is_some() == self@.vehicles.contains_key(id),
            found.is_some() ==> found.unwrap()@ == self@.vehicles[id],
    {
        match map_get(&self.vehicles, id) {
            Some(bytes) => Vehicle::from_bytes(&bytes),
            None => None,
        }
    }

    /// The service stored under `id`, if there is one.
    pub fn service(&self, id: u64) -> (found: Option<Service>)
        requires
            self.wf(),
        ensures
            found.is_some() == self@.services.contains_key(id),
            found.is_some() ==> found.unwrap()@ == self@.services[id],
    {
        match map_get(&self.services, id) {
            Some(bytes) => Service::from_bytes(&bytes),
            None => None,
        }
    }

    /// The expense stored under `id`, if there is one.
    pub fn expense(&self, id: u64) -> (found: Option<Expense>)
        requires
            self.wf(),
        ensures
            found.is_some() == self@.expenses.contains_key(id),
            found.is_some() ==> found.unwrap()@ == self@.expenses[id],
    {
        match map_get(&self.expenses, id) {
            Some(bytes) => Expense::from_bytes(&bytes),
            None => None,
        }
    }
}

} // verus!

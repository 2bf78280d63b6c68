//! The byte layout of the stored records.
//!
//! A record is the concatenation of its fields in declaration order. A number
//! is eight bytes, least significant first. A text is the number of bytes of
//! its UTF-8 form, then those bytes. An optional number is the number 0, or the
//! number 1 followed by the value. The size of a record varies with its
//! texts; a stored record takes at most `MAX_RECORD_SIZE` bytes.

use crate::records::{
    CarWashCenter, CenterModel, Expense, ExpenseModel, Service, ServiceModel, Vehicle, VehicleModel,
};
use vstd::bytes::{
    lemma_auto_spec_u64_to_from_le_bytes, spec_u64_from_le_bytes, spec_u64_to_le_bytes,
    u64_from_le_bytes, u64_to_le_bytes,
};
use vstd::prelude::*;
use vstd::slice::slice_subrange;
use vstd::utf8::{decode_utf8, encode_utf8, encode_utf8_decode_utf8, encode_utf8_valid_utf8, valid_utf8};

verus! {

/// The most bytes that a stored record may take.
pub const MAX_RECORD_SIZE: usize = 512;

/// The bytes of a number.
pub open spec fn word_bytes(value: u64) -> Seq<u8> {
    spec_u64_to_le_bytes(value)
}

/// The bytes of a text.
pub open spec fn text_bytes(text: Seq<char>) -> Seq<u8> {
    word_bytes(encode_utf8(text).len() as u64) + encode_utf8(text)
}

/// The bytes of an optional number.
pub open spec fn option_bytes(value: Option<u64>) -> Seq<u8> {
    match value {
        Some(v) => word_bytes(1) + word_bytes(v),
        None => word_bytes(0),
    }
}

/// Whether the UTF-8 form of a text is short enough for its length to be
/// written as a number.
pub open spec fn text_fits(text: Seq<char>) -> bool {
    encode_utf8(text).len() <= u64::MAX
}

/// Reads a number from the front of `bytes`; gives it with the bytes that
/// follow.
pub open spec fn take_word(bytes: Seq<u8>) -> Option<(u64, Seq<u8>)> {
    if bytes.len() >= 8 {
        Some((spec_u64_from_le_bytes(bytes.subrange(0, 8)), bytes.skip(8)))
    } else {
        None
    }
}

/// Reads a text from the front of `bytes`; gives it with the bytes that follow.
pub open spec fn take_text(bytes: Seq<u8>) -> Option<(Seq<char>, Seq<u8>)> {
    match take_word(bytes) {
        Some((n, rest)) => if n <= rest.len() && valid_utf8(rest.take(n as int)) {
            Some((decode_utf8(rest.take(n as int)), rest.skip(n as int)))
        } else {
            None
        },
        None => None,
    }
}

/// Reads an optional number from the front of `bytes`; gives it with the bytes
/// that follow.
pub open spec fn take_option(bytes: Seq<u8>) -> Option<(Option<u64>, Seq<u8>)> {
    match take_word(bytes) {
        Some((flag, rest)) => if flag == 0 {
            Some((None, rest))
        } else if flag == 1 {
            match take_word(rest) {
                Some((v, after)) => Some((Some(v), after)),
                None => None,
            }
        } else {
            None
        },
        None => None,
    }
}

/// The number of bytes that a text takes.
pub open spec fn text_size(text: Seq<char>) -> nat {
    8 + encode_utf8(text).len()
}

/// Adds the size of a text to `total`; gives nothing where the sum is more
/// than `MAX_RECORD_SIZE`.
pub fn add_text_size(total: usize, text: &String) -> (sum: Option<usize>)
    requires
        total <= MAX_RECORD_SIZE,
    ensures
        match sum {
            Some(n) => n == total + text_size(text@) && n <= MAX_RECORD_SIZE,
            None => total + text_size(text@) > MAX_RECORD_SIZE,
        },
{
    let n: usize = text.as_str().as_bytes().len();
    if n > MAX_RECORD_SIZE || n + 8 > MAX_RECORD_SIZE - total {
        None
    } else {
        Some(total + n + 8)
    }
}

/// The number of bytes that a center with these texts takes.
pub open spec fn center_size(
    name: Seq<char>,
    location: Seq<char>,
    contact: Seq<char>,
    email: Seq<char>,
) -> nat {
    24 + text_size(name) + text_size(location) + text_size(contact) + text_size(email)
}

/// The number of bytes that a vehicle with these texts takes.
pub open spec fn vehicle_size(license_plate: Seq<char>, vehicle_type: Seq<char>, status: Seq<char>) -> nat {
    24 + text_size(license_plate) + text_size(vehicle_type) + text_size(status)
}

/// The number of bytes that a service with this text and no completion time
/// takes.
pub open spec fn service_size(service_type: Seq<char>) -> nat {
    48 + text_size(service_type)
}

/// The number of bytes that an expense with these texts takes.
pub open spec fn expense_size(category: Seq<char>, description: Seq<char>) -> nat {
    32 + text_size(category) + text_size(description)
}

/// Whether a center with these texts stays within `MAX_RECORD_SIZE`.
pub fn center_fits(name: &String, location: &String, contact: &String, email: &String) -> (fits: bool)
    ensures
        fits == (center_size(name@, location@, contact@, email@) <= MAX_RECORD_SIZE),
{
    let with_name = match add_text_size(24, name) {
        Some(n) => n,
        None => {
            return false;
        },
    };
    let with_location = match add_text_size(with_name, location) {
        Some(n) => n,
        None => {
            return false;
        },
    };
    let with_contact = match add_text_size(with_location, contact) {
        Some(n) => n,
        None => {
            return false;
        },
    };
    add_text_size(with_contact, email).is_some()
}

/// Whether a vehicle with these texts stays within `MAX_RECORD_SIZE`.
pub fn vehicle_fits(license_plate: &String, vehicle_type: &String, status: &String) -> (fits: bool)
    ensures
        fits == (vehicle_size(license_plate@, vehicle_type@, status@) <= MAX_RECORD_SIZE),
{
    let with_plate = match add_text_size(24, license_plate) {
        Some(n) => n,
        None => {
            return false;
        },
    };
    let with_type = match add_text_size(with_plate, vehicle_type) {
        Some(n) => n,
        None => {
            return false;
        },
    };
    add_text_size(with_type, status).is_some()
}

/// Whether a service with this text stays within `MAX_RECORD_SIZE`.
pub fn service_fits(service_type: &String) -> (fits: bool)
    ensures
        fits == (service_size(service_type@) <= MAX_RECORD_SIZE),
{
    add_text_size(48, service_type).is_some()
}

/// Whether an expense with these texts stays within `MAX_RECORD_SIZE`.
pub fn expense_fits(category: &String, description: &String) -> (fits: bool)
    ensures
        fits == (expense_size(category@, description@) <= MAX_RECORD_SIZE),
{
    let with_category = match add_text_size(32, category) {
        Some(n) => n,
        None => {
            return false;
        },
    };
    add_text_size(with_category, description).is_some()
}

/// The size of a center is the length of its bytes.
pub proof fn lemma_center_size(center: CenterModel)
    ensures
        center_bytes(center).len() == center_size(
            center.name,
            center.location,
            center.contact,
            center.email,
        ),
{
    reveal(center_bytes);
    lemma_auto_spec_u64_to_from_le_bytes();
}

/// The size of a vehicle is the length of its bytes.
pub proof fn lemma_vehicle_size(vehicle: VehicleModel)
    ensures
        vehicle_bytes(vehicle).len() == vehicle_size(
            vehicle.license_plate,
            vehicle.vehicle_type,
            vehicle.status,
        ),
{
    reveal(vehicle_bytes);
    lemma_auto_spec_u64_to_from_le_bytes();
}

/// The size of a service with no completion time is the length of its bytes.
pub proof fn lemma_service_size(service: ServiceModel)
    requires
        service.completed_at.is_none(),
    ensures
        service_bytes(service).len() == service_size(service.service_type),
{
    reveal(service_bytes);
    lemma_auto_spec_u64_to_from_le_bytes();
}

/// The size of an expense is the length of its bytes.
pub proof fn lemma_expense_size(expense: ExpenseModel)
    ensures
        expense_bytes(expense).len() == expense_size(expense.category, expense.description),
{
    reveal(expense_bytes);
    lemma_auto_spec_u64_to_from_le_bytes();
}

/// A number written in front of any bytes is read back, and those bytes
/// follow.
pub proof fn lemma_take_word(value: u64, rest: Seq<u8>)
    ensures
        take_word(word_bytes(value) + rest) == Some((value, rest)),
{
    lemma_auto_spec_u64_to_from_le_bytes();
    let all = word_bytes(value) + rest;
    assert(all.subrange(0, 8) =~= word_bytes(value));
    assert(all.skip(8) =~= rest);
}

/// A text written in front of any bytes is read back, and those bytes follow.
pub proof fn lemma_take_text(text: Seq<char>, rest: Seq<u8>)
    requires
        text_fits(text),
    ensures
        take_text(text_bytes(text) + rest) == Some((text, rest)),
{
    let body = encode_utf8(text);
    let tail = body + rest;
    assert(text_bytes(text) + rest =~= word_bytes(body.len() as u64) + tail);
    lemma_take_word(body.len() as u64, tail);
    assert(tail.take(body.len() as int) =~= body);
    assert(tail.skip(body.len() as int) =~= rest);
    encode_utf8_valid_utf8(text);
    encode_utf8_decode_utf8(text);
}

/// An optional number written in front of any bytes is read back, and those
/// bytes follow.
pub proof fn lemma_take_option(value: Option<u64>, rest: Seq<u8>)
    ensures
        take_option(option_bytes(value) + rest) == Some((value, rest)),
{
    match value {
        Some(v) => {
            let tail = word_bytes(v) + rest;
            assert(option_bytes(value) + rest =~= word_bytes(1) + tail);
            lemma_take_word(1, tail);
            lemma_take_word(v, rest);
        },
        None => {
            lemma_take_word(0, rest);
        },
    }
}

/// `String::from_utf8`: the text that `bytes` spell in UTF-8, or nothing where
/// they are no valid UTF-8.
#[verifier::external_body]
fn text_from_utf8(bytes: Vec<u8>) -> (text: Option<String>)
    ensures
        text.is_some() == valid_utf8(bytes@),
        text.is_some() ==> text.unwrap()@ == decode_utf8(bytes@),
{
    String::from_utf8(bytes).ok()
}

/// Appends the bytes of a number.
fn put_word(out: &mut Vec<u8>, value: u64)
    ensures
        final(out)@ == old(out)@ + word_bytes(value),
{
    let mut word = u64_to_le_bytes(value);
    out.append(&mut word);
}

/// Appends the bytes of a text.
fn put_text(out: &mut Vec<u8>, text: &String)
    ensures
        final(out)@ == old(out)@ + text_bytes(text@),
        text_fits(text@),
{
    let mut body = text.as_str().as_bytes_vec();
    let n: usize = body.len();
    put_word(out, n as u64);
    out.append(&mut body);
    assert(final(out)@ =~= old(out)@ + text_bytes(text@));
}

/// Appends the bytes of an optional number.
fn put_option(out: &mut Vec<u8>, value: Option<u64>)
    ensures
        final(out)@ == old(out)@ + option_bytes(value),
{
    match value {
        Some(v) => {
            put_word(out, 1);
            put_word(out, v);
            assert(final(out)@ =~= old(out)@ + option_bytes(value));
        },
        None => {
            put_word(out, 0);
        },
    }
}

/// Reads the number that starts at `at`.
fn read_word(bytes: &Vec<u8>, at: usize) -> (found: Option<(u64, usize)>)
    requires
        at <= bytes.len(),
    ensures
        match take_word(bytes@.skip(at as int)) {
            Some((value, rest)) => found.is_some() && found.unwrap().0 == value
                && found.unwrap().1 <= bytes.len() && rest == bytes@.skip(found.unwrap().1 as int),
            None => found.is_none(),
        },
{
    if bytes.len() - at < 8 {
        return None;
    }
    let word = slice_subrange(bytes.as_slice(), at, at + 8);
    proof {
        assert(bytes@.skip(at as int).subrange(0, 8) =~= bytes@.subrange(at as int, at + 8));
        assert(bytes@.skip(at as int).skip(8) =~= bytes@.skip(at + 8));
    }
    Some((u64_from_le_bytes(word), at + 8))
}

/// Reads the text that starts at `at`.
fn read_text(bytes: &Vec<u8>, at: usize) -> (found: Option<(String, usize)>)
    requires
        at <= bytes.len(),
    ensures
        match take_text(bytes@.skip(at as int)) {
            Some((text, rest)) => found.is_some() && found.unwrap().0@ == text
                && found.unwrap().1 <= bytes.len() && rest == bytes@.skip(found.unwrap().1 as int),
            None => found.is_none(),
        },
{
    let (n, start) = match read_word(bytes, at) {
        Some(pair) => pair,
        None => { return None; },
    };
    if n > (bytes.len() - start) as u64 {
        return None;
    }
    let end: usize = start + n as usize;
    let body = vstd::slice::slice_to_vec(slice_subrange(bytes.as_slice(), start, end));
    proof {
        assert(bytes@.skip(start as int).take(n as int) =~= bytes@.subrange(start as int, end as int));
        assert(bytes@.skip(start as int).skip(n as int) =~= bytes@.skip(end as int));
    }
    match text_from_utf8(body) {
        Some(text) => Some((text, end)),
        None => None,
    }
}

/// Reads the optional number that starts at `at`.
fn read_option(bytes: &Vec<u8>, at: usize) -> (found: Option<(Option<u64>, usize)>)
    requires
        at <= bytes.len(),
    ensures
        match take_option(bytes@.skip(at as int)) {
            Some((value, rest)) => found.is_some() && found.unwrap().0 == value
                && found.unwrap().1 <= bytes.len() && rest == bytes@.skip(found.unwrap().1 as int),
            None => found.is_none(),
        },
{
    let (flag, next) = match read_word(bytes, at) {
        Some(pair) => pair,
        None => { return None; },
    };
    if flag == 0 {
        Some((None, next))
    } else if flag == 1 {
        match read_word(bytes, next) {
            Some((v, after)) => Some((Some(v), after)),
            None => None,
        }
    } else {
        None
    }
}

/// Whether each text of a car wash center is short enough to be written.
pub open spec fn center_texts_fit(record: CenterModel) -> bool {
    text_fits(record.name) && text_fits(record.location) && text_fits(record.contact) && text_fits(record.email)
}

/// The bytes of a car wash center: its fields in order.
#[verifier::opaque]
pub open spec fn center_bytes(record: CenterModel) -> Seq<u8> {
    word_bytes(record.id) + (text_bytes(record.name) + (text_bytes(record.location) + (text_bytes(record.contact) + (text_bytes(record.email) + (word_bytes(record.capacity) + (word_bytes(record.created_at)))))))
}

/// The center that `bytes` spell, or nothing where they spell none.
#[verifier::opaque]
pub open spec fn center_of_bytes(bytes: Seq<u8>) -> Option<CenterModel> {
    match take_word(bytes) {
        None => None,
        Some((id, after_id)) =>
        match take_text(after_id) {
            None => None,
            Some((name, after_name)) =>
            match take_text(after_name) {
                None => None,
                Some((location, after_location)) =>
                match take_text(after_location) {
                    None => None,
                    Some((contact, after_contact)) =>
                    match take_text(after_contact) {
                        None => None,
                        Some((email, after_email)) =>
                        match take_word(after_email) {
                            None => None,
                            Some((capacity, after_capacity)) =>
                            match take_word(after_capacity) {
                                None => None,
                                Some((created_at, after_created_at)) => if after_created_at.len() == 0 {
                                    Some(CenterModel { id, name, location, contact, email, capacity, created_at })
                                } else {
                                    None
                                },
                            },
                        },
                    },
                },
            },
        },
    }
}

/// Reading the bytes of a car wash center gives that center back.
pub proof fn lemma_center_round_trip(record: CenterModel)
    requires
        center_texts_fit(record),
    ensures
        center_of_bytes(center_bytes(record)) == Some(record),
{
    reveal(center_bytes);
    reveal(center_of_bytes);
    let rest_7 = Seq::<u8>::empty();
    let rest_6 = word_bytes(record.created_at) + rest_7;
    let rest_5 = word_bytes(record.capacity) + rest_6;
    let rest_4 = text_bytes(record.email) + rest_5;
    let rest_3 = text_bytes(record.contact) + rest_4;
    let rest_2 = text_bytes(record.location) + rest_3;
    let rest_1 = text_bytes(record.name) + rest_2;
    let rest_0 = word_bytes(record.id) + rest_1;
    lemma_take_word(record.id, rest_1);
    lemma_take_text(record.name, rest_2);
    lemma_take_text(record.location, rest_3);
    lemma_take_text(record.contact, rest_4);
    lemma_take_text(record.email, rest_5);
    lemma_take_word(record.capacity, rest_6);
    lemma_take_word(record.created_at, rest_7);
    assert(rest_0 =~= center_bytes(record));
}

impl CarWashCenter {
    /// Writes the record as bytes.
    pub fn to_bytes(&self) -> (bytes: Vec<u8>)
        ensures
            bytes@ == center_bytes(self@),
            center_texts_fit(self@),
    {
        proof {
            reveal(center_bytes);
        }
        let mut out: Vec<u8> = Vec::new();
        put_word(&mut out, self.id);
        put_text(&mut out, &self.name);
        put_text(&mut out, &self.location);
        put_text(&mut out, &self.contact);
        put_text(&mut out, &self.email);
        put_word(&mut out, self.capacity);
        put_word(&mut out, self.created_at);
        assert(out@ =~= center_bytes(self@));
        out
    }

    /// Reads a record from bytes, or nothing where they spell none.
    pub fn from_bytes(bytes: &Vec<u8>) -> (record: Option<CarWashCenter>)
        ensures
            match center_of_bytes(bytes@) {
                Some(model) => record.is_some() && record.unwrap()@ == model,
                None => record.is_none(),
            },
    {
        proof {
            reveal(center_of_bytes);
        }
        assert(bytes@.skip(0) =~= bytes@);
        let (id, after_id) = match read_word(bytes, 0) {
            Some(pair) => pair,
            None => {
                return None;
            },
        };
        let (name, after_name) = match read_text(bytes, after_id) {
            Some(pair) => pair,
            None => {
                return None;
            },
        };
        let (location, after_location) = match read_text(bytes, after_name) {
            Some(pair) => pair,
            None => {
                return None;
            },
        };
        let (contact, after_contact) = match read_text(bytes, after_location) {
            Some(pair) => pair,
            None => {
                return None;
            },
        };
        let (email, after_email) = match read_text(bytes, after_contact) {
            Some(pair) => pair,
            None => {
                return None;
            },
        };
        let (capacity, after_capacity) = match read_word(bytes, after_email) {
            Some(pair) => pair,
            None => {
                return None;
            },
        };
        let (created_at, after_created_at) = match read_word(bytes, after_capacity) {
            Some(pair) => pair,
            None => {
                return None;
            },
        };
        if after_created_at != bytes.len() {
            return None;
        }
        Some(CarWashCenter { id, name, location, contact, email, capacity, created_at })
    }
}

/// Whether each text of a vehicle is short enough to be written.
pub open spec fn vehicle_texts_fit(record: VehicleModel) -> bool {
    text_fits(record.license_plate) && text_fits(record.vehicle_type) && text_fits(record.status)
}

/// The bytes of a vehicle: its fields in order.
#[verifier::opaque]
pub open spec fn vehicle_bytes(record: VehicleModel) -> Seq<u8> {
    word_bytes(record.id) + (word_bytes(record.car_wash_id) + (text_bytes(record.license_plate) + (text_bytes(record.vehicle_type) + (word_bytes(record.arrival_time) + (text_bytes(record.status))))))
}

/// The vehicle that `bytes` spell, or nothing where they spell none.
#[verifier::opaque]
pub open spec fn vehicle_of_bytes(bytes: Seq<u8>) -> Option<VehicleModel> {
    match take_word(bytes) {
        None => None,
        Some((id, after_id)) =>
        match take_word(after_id) {
            None => None,
            Some((car_wash_id, after_car_wash_id)) =>
            match take_text(after_car_wash_id) {
                None => None,
                Some((license_plate, after_license_plate)) =>
                match take_text(after_license_plate) {
                    None => None,
                    Some((vehicle_type, after_vehicle_type)) =>
                    match take_word(after_vehicle_type) {
                        None => None,
                        Some((arrival_time, after_arrival_time)) =>
                        match take_text(after_arrival_time) {
                            None => None,
                            Some((status, after_status)) => if after_status.len() == 0 {
                                Some(VehicleModel { id, car_wash_id, license_plate, vehicle_type, arrival_time, status })
                            } else {
                                None
                            },
                        },
                    },
                },
            },
        },
    }
}

/// Reading the bytes of a vehicle gives that vehicle back.
pub proof fn lemma_vehicle_round_trip(record: VehicleModel)
    requires
        vehicle_texts_fit(record),
    ensures
        vehicle_of_bytes(vehicle_bytes(record)) == Some(record),
{
    reveal(vehicle_bytes);
    reveal(vehicle_of_bytes);
    let rest_6 = Seq::<u8>::empty();
    let rest_5 = text_bytes(record.status) + rest_6;
    let rest_4 = word_bytes(record.arrival_time) + rest_5;
    let rest_3 = text_bytes(record.vehicle_type) + rest_4;
    let rest_2 = text_bytes(record.license_plate) + rest_3;
    let rest_1 = word_bytes(record.car_wash_id) + rest_2;
    let rest_0 = word_bytes(record.id) + rest_1;
    lemma_take_word(record.id, rest_1);
    lemma_take_word(record.car_wash_id, rest_2);
    lemma_take_text(record.license_plate, rest_3);
    lemma_take_text(record.vehicle_type, rest_4);
    lemma_take_word(record.arrival_time, rest_5);
    lemma_take_text(record.status, rest_6);
    assert(rest_0 =~= vehicle_bytes(record));
}

impl Vehicle {
    /// Writes the record as bytes.
    pub fn to_bytes(&self) -> (bytes: Vec<u8>)
        ensures
            bytes@ == vehicle_bytes(self@),
            vehicle_texts_fit(self@),
    {
        proof {
            reveal(vehicle_bytes);
        }
        let mut out: Vec<u8> = Vec::new();
        put_word(&mut out, self.id);
        put_word(&mut out, self.car_wash_id);
        put_text(&mut out, &self.license_plate);
        put_text(&mut out, &self.vehicle_type);
        put_word(&mut out, self.arrival_time);
        put_text(&mut out, &self.status);
        assert(out@ =~= vehicle_bytes(self@));
        out
    }

    /// Reads a record from bytes, or nothing where they spell none.
    pub fn from_bytes(bytes: &Vec<u8>) -> (record: Option<Vehicle>)
        ensures
            match vehicle_of_bytes(bytes@) {
                Some(model) => record.is_some() && record.unwrap()@ == model,
                None => record.is_none(),
            },
    {
        proof {
            reveal(vehicle_of_bytes);
        }
        assert(bytes@.skip(0) =~= bytes@);
        let (id, after_id) = match read_word(bytes, 0) {
            Some(pair) => pair,
            None => {
                return None;
            },
        };
        let (car_wash_id, after_car_wash_id) = match read_word(bytes, after_id) {
            Some(pair) => pair,
            None => {
                return None;
            },
        };
        let (license_plate, after_license_plate) = match read_text(bytes, after_car_wash_id) {
            Some(pair) => pair,
            None => {
                return None;
            },
        };
        let (vehicle_type, after_vehicle_type) = match read_text(bytes, after_license_plate) {
            Some(pair) => pair,
            None => {
                return None;
            },
        };
        let (arrival_time, after_arrival_time) = match read_word(bytes, after_vehicle_type) {
            Some(pair) => pair,
            None => {
                return None;
            },
        };
        let (status, after_status) = match read_text(bytes, after_arrival_time) {
            Some(pair) => pair,
            None => {
                return None;
            },
        };
        if after_status != bytes.len() {
            return None;
        }
        Some(Vehicle { id, car_wash_id, license_plate, vehicle_type, arrival_time, status })
    }
}

/// Whether each text of a service is short enough to be written.
pub open spec fn service_texts_fit(record: ServiceModel) -> bool {
    text_fits(record.service_type)
}

/// The bytes of a service: its fields in order.
#[verifier::opaque]
pub open spec fn service_bytes(record: ServiceModel) -> Seq<u8> {
    word_bytes(record.id) + (word_bytes(record.car_wash_id) + (word_bytes(record.vehicle_id) + (text_bytes(record.service_type) + (word_bytes(record.price_bits) + (word_bytes(record.duration) + (option_bytes(record.completed_at)))))))
}

/// The service that `bytes` spell, or nothing where they spell none.
#[verifier::opaque]
pub open spec fn service_of_bytes(bytes: Seq<u8>) -> Option<ServiceModel> {
    match take_word(bytes) {
        None => None,
        Some((id, after_id)) =>
        match take_word(after_id) {
            None => None,
            Some((car_wash_id, after_car_wash_id)) =>
            match take_word(after_car_wash_id) {
                None => None,
                Some((vehicle_id, after_vehicle_id)) =>
                match take_text(after_vehicle_id) {
                    None => None,
                    Some((service_type, after_service_type)) =>
                    match take_word(after_service_type) {
                        None => None,
                        Some((price_bits, after_price_bits)) =>
                        match take_word(after_price_bits) {
                            None => None,
                            Some((duration, after_duration)) =>
                            match take_option(after_duration) {
                                None => None,
                                Some((completed_at, after_completed_at)) => if after_completed_at.len() == 0 {
                                    Some(ServiceModel { id, car_wash_id, vehicle_id, service_type, price_bits, duration, completed_at })
                                } else {
                                    None
                                },
                            },
                        },
                    },
                },
            },
        },
    }
}

/// Reading the bytes of a service gives that service back.
pub proof fn lemma_service_round_trip(record: ServiceModel)
    requires
        service_texts_fit(record),
    ensures
        service_of_bytes(service_bytes(record)) == Some(record),
{
    reveal(service_bytes);
    reveal(service_of_bytes);
    let rest_7 = Seq::<u8>::empty();
    let rest_6 = option_bytes(record.completed_at) + rest_7;
    let rest_5 = word_bytes(record.duration) + rest_6;
    let rest_4 = word_bytes(record.price_bits) + rest_5;
    let rest_3 = text_bytes(record.service_type) + rest_4;
    let rest_2 = word_bytes(record.vehicle_id) + rest_3;
    let rest_1 = word_bytes(record.car_wash_id) + rest_2;
    let rest_0 = word_bytes(record.id) + rest_1;
    lemma_take_word(record.id, rest_1);
    lemma_take_word(record.car_wash_id, rest_2);
    lemma_take_word(record.vehicle_id, rest_3);
    lemma_take_text(record.service_type, rest_4);
    lemma_take_word(record.price_bits, rest_5);
    lemma_take_word(record.duration, rest_6);
    lemma_take_option(record.completed_at, rest_7);
    assert(rest_0 =~= service_bytes(record));
}

impl Service {
    /// Writes the record as bytes.
    pub fn to_bytes(&self) -> (bytes: Vec<u8>)
        ensures
            bytes@ == service_bytes(self@),
            service_texts_fit(self@),
    {
        proof {
            reveal(service_bytes);
        }
        let mut out: Vec<u8> = Vec::new();
        put_word(&mut out, self.id);
        put_word(&mut out, self.car_wash_id);
        put_word(&mut out, self.vehicle_id);
        put_text(&mut out, &self.service_type);
        put_word(&mut out, self.price_bits);
        put_word(&mut out, self.duration);
        put_option(&mut out, self.completed_at);
        assert(out@ =~= service_bytes(self@));
        out
    }

    /// Reads a record from bytes, or nothing where they spell none.
    pub fn from_bytes(bytes: &Vec<u8>) -> (record: Option<Service>)
        ensures
            match service_of_bytes(bytes@) {
                Some(model) => record.is_some() && record.unwrap()@ == model,
                None => record.is_none(),
            },
    {
        proof {
            reveal(service_of_bytes);
        }
        assert(bytes@.skip(0) =~= bytes@);
        let (id, after_id) = match read_word(bytes, 0) {
            Some(pair) => pair,
            None => {
                return None;
            },
        };
        let (car_wash_id, after_car_wash_id) = match read_word(bytes, after_id) {
            Some(pair) => pair,
            None => {
                return None;
            },
        };
        let (vehicle_id, after_vehicle_id) = match read_word(bytes, after_car_wash_id) {
            Some(pair) => pair,
            None => {
                return None;
            },
        };
        let (service_type, after_service_type) = match read_text(bytes, after_vehicle_id) {
            Some(pair) => pair,
            None => {
                return None;
            },
        };
        let (price_bits, after_price_bits) = match read_word(bytes, after_service_type) {
            Some(pair) => pair,
            None => {
                return None;
            },
        };
        let (duration, after_duration) = match read_word(bytes, after_price_bits) {
            Some(pair) => pair,
            None => {
                return None;
            },
        };
        let (completed_at, after_completed_at) = match read_option(bytes, after_duration) {
            Some(pair) => pair,
            None => {
                return None;
            },
        };
        if after_completed_at != bytes.len() {
            return None;
        }
        Some(Service { id, car_wash_id, vehicle_id, service_type, price_bits, duration, completed_at })
    }
}

/// Whether each text of an expense is short enough to be written.
pub open spec fn expense_texts_fit(record: ExpenseModel) -> bool {
    text_fits(record.category) && text_fits(record.description)
}

/// The bytes of an expense: its fields in order.
#[verifier::opaque]
pub open spec fn expense_bytes(record: ExpenseModel) -> Seq<u8> {
    word_bytes(record.id) + (word_bytes(record.car_wash_id) + (word_bytes(record.date) + (text_bytes(record.category) + (word_bytes(record.amount_bits) + (text_bytes(record.description))))))
}

/// The expense that `bytes` spell, or nothing where they spell none.
#[verifier::opaque]
pub open spec fn expense_of_bytes(bytes: Seq<u8>) -> Option<ExpenseModel> {
    match take_word(bytes) {
        None => None,
        Some((id, after_id)) =>
        match take_word(after_id) {
            None => None,
            Some((car_wash_id, after_car_wash_id)) =>
            match take_word(after_car_wash_id) {
                None => None,
                Some((date, after_date)) =>
                match take_text(after_date) {
                    None => None,
                    Some((category, after_category)) =>
                    match take_word(after_category) {
                        None => None,
                        Some((amount_bits, after_amount_bits)) =>
                        match take_text(after_amount_bits) {
                            None => None,
                            Some((description, after_description)) => if after_description.len() == 0 {
                                Some(ExpenseModel { id, car_wash_id, date, category, amount_bits, description })
                            } else {
                                None
                            },
                        },
                    },
                },
            },
        },
    }
}

/// Reading the bytes of an expense gives that expense back.
pub proof fn lemma_expense_round_trip(record: ExpenseModel)
    requires
        expense_texts_fit(record),
    ensures
        expense_of_bytes(expense_bytes(record)) == Some(record),
{
    reveal(expense_bytes);
    reveal(expense_of_bytes);
    let rest_6 = Seq::<u8>::empty();
    let rest_5 = text_bytes(record.description) + rest_6;
    let rest_4 = word_bytes(record.amount_bits) + rest_5;
    let rest_3 = text_bytes(record.category) + rest_4;
    let rest_2 = word_bytes(record.date) + rest_3;
    let rest_1 = word_bytes(record.car_wash_id) + rest_2;
    let rest_0 = word_bytes(record.id) + rest_1;
    lemma_take_word(record.id, rest_1);
    lemma_take_word(record.car_wash_id, rest_2);
    lemma_take_word(record.date, rest_3);
    lemma_take_text(record.category, rest_4);
    lemma_take_word(record.amount_bits, rest_5);
    lemma_take_text(record.description, rest_6);
    assert(rest_0 =~= expense_bytes(record));
}

impl Expense {
    /// Writes the record as bytes.
    pub fn to_bytes(&self) -> (bytes: Vec<u8>)
        ensures
            bytes@ == expense_bytes(self@),
            expense_texts_fit(self@),
    {
        proof {
            reveal(expense_bytes);
        }
        let mut out: Vec<u8> = Vec::new();
        put_word(&mut out, self.id);
        put_word(&mut out, self.car_wash_id);
        put_word(&mut out, self.date);
        put_text(&mut out, &self.category);
        put_word(&mut out, self.amount_bits);
        put_text(&mut out, &self.description);
        assert(out@ =~= expense_bytes(self@));
        out
    }

    /// Reads a record from bytes, or nothing where they spell none.
    pub fn from_bytes(bytes: &Vec<u8>) -> (record: Option<Expense>)
        ensures
            match expense_of_bytes(bytes@) {
                Some(model) => record.is_some() && record.unwrap()@ == model,
                None => record.is_none(),
            },
    {
        proof {
            reveal(expense_of_bytes);
        }
        assert(bytes@.skip(0) =~= bytes@);
        let (id, after_id) = match read_word(bytes, 0) {
            Some(pair) => pair,
            None => {
                return None;
            },
        };
        let (car_wash_id, after_car_wash_id) = match read_word(bytes, after_id) {
            Some(pair) => pair,
            None => {
                return None;
            },
        };
        let (date, after_date) = match read_word(bytes, after_car_wash_id) {
            Some(pair) => pair,
            None => {
                return None;
            },
        };
        let (category, after_category) = match read_text(bytes, after_date) {
            Some(pair) => pair,
            None => {
                return None;
            },
        };
        let (amount_bits, after_amount_bits) = match read_word(bytes, after_category) {
            Some(pair) => pair,
            None => {
                return None;
            },
        };
        let (description, after_description) = match read_text(bytes, after_amount_bits) {
            Some(pair) => pair,
            None => {
                return None;
            },
        };
        if after_description != bytes.len() {
            return None;
        }
        Some(Expense { id, car_wash_id, date, category, amount_bits, description })
    }
}

} // verus!

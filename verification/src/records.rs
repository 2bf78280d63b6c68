//! The four kinds of record, the tagged result of an operation, and the
//! mathematical model of each.
//!
//! A price or an amount is carried as the bit pattern of an IEEE 754 binary64
//! number: the registry stores and compares it, and never computes with it.

use vstd::prelude::*;

verus! {

/// A car wash center.
#[derive(Clone, Debug, PartialEq, Eq)]
pub struct CarWashCenter {
    pub id: u64,
    pub name: String,
    pub location: String,
    pub contact: String,
    pub email: String,
    /// The most vehicles handled per day.
    pub capacity: u64,
    pub created_at: u64,
}

/// A vehicle that a center has received.
#[derive(Clone, Debug, PartialEq, Eq)]
pub struct Vehicle {
    pub id: u64,
    pub car_wash_id: u64,
    pub license_plate: String,
    pub vehicle_type: String,
    pub arrival_time: u64,
    pub status: String,
}

/// A service done on a vehicle at a center.
#[derive(Clone, Debug, PartialEq, Eq)]
pub struct Service {
    pub id: u64,
    pub car_wash_id: u64,
    pub vehicle_id: u64,
    pub service_type: String,
    /// The price, as the bits of a binary64 number.
    pub price_bits: u64,
    /// The duration in minutes.
    pub duration: u64,
    pub completed_at: Option<u64>,
}

/// An expense of a center.
#[derive(Clone, Debug, PartialEq, Eq)]
pub struct Expense {
    pub id: u64,
    pub car_wash_id: u64,
    pub date: u64,
    pub category: String,
    /// The amount, as the bits of a binary64 number.
    pub amount_bits: u64,
    pub description: String,
}

/// What an operation answers when it does not hand back a record or a list.
#[derive(Clone, Debug, PartialEq, Eq)]
pub enum Message {
    /// Kept for later use; no operation answers with it.
    Success(String),
    /// Kept for later use; no operation answers with it.
    Error(String),
    /// A record that the operation refers to is not stored.
    NotFound(String),
    /// The input fails a test that needs no stored record.
    InvalidPayload(String),
}

/// What a center is: its fields, each text as its characters.
pub struct CenterModel {
    pub id: u64,
    pub name: Seq<char>,
    pub location: Seq<char>,
    pub contact: Seq<char>,
    pub email: Seq<char>,
    pub capacity: u64,
    pub created_at: u64,
}

/// What a vehicle is: its fields, each text as its characters.
pub struct VehicleModel {
    pub id: u64,
    pub car_wash_id: u64,
    pub license_plate: Seq<char>,
    pub vehicle_type: Seq<char>,
    pub arrival_time: u64,
    pub status: Seq<char>,
}

/// What a service is: its fields, the text as its characters.
pub struct ServiceModel {
    pub id: u64,
    pub car_wash_id: u64,
    pub vehicle_id: u64,
    pub service_type: Seq<char>,
    pub price_bits: u64,
    pub duration: u64,
    pub completed_at: Option<u64>,
}

/// What an expense is: its fields, each text as its characters.
pub struct ExpenseModel {
    pub id: u64,
    pub car_wash_id: u64,
    pub date: u64,
    pub category: Seq<char>,
    pub amount_bits: u64,
    pub description: Seq<char>,
}

/// What a message is: its kind and the characters of its text.
pub enum MessageModel {
    Success(Seq<char>),
    Error(Seq<char>),
    NotFound(Seq<char>),
    InvalidPayload(Seq<char>),
}

impl View for CarWashCenter {
    type V = CenterModel;

    open spec fn view(&self) -> CenterModel {
        CenterModel {
            id: self.id,
            name: self.name@,
            location: self.location@,
            contact: self.contact@,
            email: self.email@,
            capacity: self.capacity,
            created_at: self.created_at,
        }
    }
}

impl View for Vehicle {
    type V = VehicleModel;

    open spec fn view(&self) -> VehicleModel {
        VehicleModel {
            id: self.id,
            car_wash_id: self.car_wash_id,
            license_plate: self.license_plate@,
            vehicle_type: self.vehicle_type@,
            arrival_time: self.arrival_time,
            status: self.status@,
        }
    }
}

impl View for Service {
    type V = ServiceModel;

    open spec fn view(&self) -> ServiceModel {
        ServiceModel {
            id: self.id,
            car_wash_id: self.car_wash_id,
            vehicle_id: self.vehicle_id,
            service_type: self.service_type@,
            price_bits: self.price_bits,
            duration: self.duration,
            completed_at: self.completed_at,
        }
    }
}

impl View for Expense {
    type V = ExpenseModel;

    open spec fn view(&self) -> ExpenseModel {
        ExpenseModel {
            id: self.id,
            car_wash_id: self.car_wash_id,
            date: self.date,
            category: self.category@,
            amount_bits: self.amount_bits,
            description: self.description@,
        }
    }
}

impl View for Message {
    type V = MessageModel;

    open spec fn view(&self) -> MessageModel {
        match self {
            Message::Success(text) => MessageModel::Success(text@),
            Message::Error(text) => MessageModel::Error(text@),
            Message::NotFound(text) => MessageModel::NotFound(text@),
            Message::InvalidPayload(text) => MessageModel::InvalidPayload(text@),
        }
    }
}

/// The largest bit pattern of a positive binary64 number: positive infinity.
pub const POSITIVE_INFINITY_BITS: u64 = 0x7FF0_0000_0000_0000;

/// Whether `bits` is the pattern of a binary64 number greater than zero: the
/// sign bit is clear, the number is not zero, and it is not a NaN.
pub open spec fn is_positive_real(bits: u64) -> bool {
    0 < bits <= POSITIVE_INFINITY_BITS
}

/// Tests whether `bits` is the pattern of a binary64 number greater than zero.
pub fn positive_real(bits: u64) -> (positive: bool)
    ensures
        positive == is_positive_real(bits),
{
    0 < bits && bits <= POSITIVE_INFINITY_BITS
}

} // verus!

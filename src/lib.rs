//! Invoices for a sole proprietor: the parties and their identifiers, items
//! and their prices in exact decimal arithmetic, money printed by the rules
//! of its currency, and the layout of a one-page invoice, with the payment
//! descriptor that its QR code carries.

pub mod address;
pub mod amount;
pub mod ares;
pub mod date;
pub mod entity;
pub mod iban;
pub mod invoice;
pub mod layout;
pub mod metrics;
pub mod money;
pub mod payment_method;
pub mod registration_number;
pub mod text;
pub mod time;
pub mod wrap;

pub use address::Address;
pub use amount::Amount;
pub use date::Date;
pub use entity::Entity;
pub use entity::EntityType;
pub use iban::{Iban, ToBankAccountNumber};
pub use invoice::{Invoice, InvoiceError, InvoiceItem, InvoiceItemType};
pub use money::{Currency, MoneyFormat};
pub use payment_method::PaymentMethod;
pub use registration_number::RegistrationNumber;
pub use registration_number::RegistrationNumberError;
pub use time::Time;

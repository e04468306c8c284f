pub mod auth;
pub mod error;
pub mod headers;
pub mod models;
pub mod selected_role;
pub mod transaction;
pub mod types;

pub use auth::Auth;
pub use headers::encode_kv;
pub use headers::decode_kv_from_header;
pub use models::RawPrestoTy;
pub use models::QueryError;
pub use models::ErrorLocation;
pub use models::FailureInfo;
pub use models::RawQueryResult;
pub use models::Stat;
pub use models::StageStats;
pub use models::Warning;
pub use models::Code;
pub use selected_role::RoleType;
pub use selected_role::SelectedRole;
pub use transaction::TransactionId;
pub use models::Column;
pub use models::TypeSignature;
pub use models::NamedTypeSignature;
pub use models::RowFieldName;
pub use models::ClientTypeSignatureParameter;
pub use types::Error;
pub use types::PrestoInt;
pub use types::PrestoFloat;
pub use types::PrestoTy;
pub use types::TyV;
pub use types::Context;
pub use types::RowMaps;
pub use types::extract;
pub use types::Decimal;
pub use types::FixedChar;
pub use types::IntervalDay;
pub use types::IntervalDayToSecond;
pub use types::IntervalMonth;
pub use types::IntervalYearToMonth;
pub use types::RawDataSet;
pub use types::PageError;
pub use types::DecodeError;
pub use types::decode_page;
pub use types::decode_value;
pub use types::Presto;
pub use types::Row;
pub use types::Value;
pub use types::ValueV;

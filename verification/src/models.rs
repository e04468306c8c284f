mod error;
mod result;
mod stat;
mod warning;
mod column;
mod ty;

pub use ty::RawPrestoTy;
pub use ty::raw_name;
pub use ty::spec_parse_raw;

pub use column::Column;
pub use column::TypeSignature;
pub use column::NamedTypeSignature;
pub use column::RowFieldName;
pub use column::ClientTypeSignatureParameter;
pub use column::TypeSignatureV;
pub use column::NamedTypeSignatureV;
pub use column::ParamV;
pub use column::ColumnV;
pub use column::param_views;
pub use column::lemma_param_views;

pub use error::QueryError;
pub use error::ErrorLocation;
pub use error::FailureInfo;
pub use result::RawQueryResult;
pub use stat::Stat;
pub use stat::StageStats;
pub use warning::Warning;
pub use warning::Code;

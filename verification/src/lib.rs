//! GE PSLF case parsing and interchange-preparation logic.

pub mod text;
pub mod num;
pub mod tokenize;
pub mod fields;
pub mod records;
pub mod epc;
pub mod mrid;
pub mod options;
pub mod plan;
pub mod compare;
pub mod validation;
pub mod dyd;
pub mod export;

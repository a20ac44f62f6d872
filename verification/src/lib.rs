//! Local query tool over the open CNPJ data of the Brazilian Receita Federal:
//! the verified core (parsing, SQL shaping, classification, schemas).

pub mod cli;
pub mod download;
pub mod error;
pub mod lifecycle;
pub mod output;
pub mod period;
pub mod query;
pub mod schema;
pub mod text;
pub mod transform;
pub mod xml;

pub use error::Error;
pub use period::Period;

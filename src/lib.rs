//! Values of the Arma scripting runtime: a small tagged union, its literal
//! text, and conversions from native types into it and from runtime text
//! back into native types.

pub mod compare;
pub mod from_arma;
pub mod into_arma;
pub mod number;
pub mod text;
pub mod value;

pub use from_arma::FromArma;
pub use into_arma::IntoArma;
pub use number::Double;
pub use value::Value;

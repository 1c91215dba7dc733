//! Elements of rings and fields (machine integers, residues, fractions,
//! quadratic extensions, polynomials and matrices) with verified arithmetic.
pub mod complexification;
pub mod f_p;
pub mod fermat;
pub mod gcd;
pub mod identities;
pub mod integer;
pub mod inverse;
pub mod matrix;
pub mod modint;
pub mod polynomial;
pub mod quadratic_extension;
pub mod quadratic_field;
pub mod quadratic_integer;
pub mod rational_number;
pub mod ring;
pub mod text;

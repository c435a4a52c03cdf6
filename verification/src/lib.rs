pub mod dbc;

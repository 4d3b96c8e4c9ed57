//! A strict DER decoder and an X.509 v3 certificate parser built on top of it.
//!
//! Bytes go through a [`reader::Reader`], are decoded value by value
//! ([`length`], [`decoder`]) into [`types::ASNType`], and are walked either by
//! a [`parser::Parser`] that a grammar drives, as that of certificates in
//! [`x509`], [`name`] and [`ext`], or by the walk over every value in
//! [`parse_all`]. Each function states what it returns over a model of the
//! bytes it is given; the models of the decoders are the functions beside
//! them whose names end in `_of`.

pub mod calendar;
pub mod decoder;
pub mod ext;
pub mod input;
pub mod length;
pub mod name;
pub mod oid;
pub mod parse_all;
pub mod parser;
pub mod reader;
pub mod types;
pub mod utf8;
pub mod x509;

//! Template-based parsing and re-shaping of line-oriented text.
//!
//! A *source template* such as `<date> <time>: <systolic>/<diastolic> <pulse>`
//! mixes literal delimiters with named placeholders and describes how to
//! slice an input line into fields; a *target template* such as
//! `<date>,<pulse>,<systolic>,<diastolic>` describes how to reassemble those
//! fields, reordered, repeated or subset, into an output line.  The
//! [`parser`] module compiles both templates and drives extraction and
//! substitution; [`row`] and [`table`] store the extracted fields of each
//! line.  Every operation's behaviour is specified against the mathematical
//! models in [`template`], [`extract`] and [`replace`].

pub mod extract;
pub mod parser;
pub mod replace;
pub mod row;
pub mod table;
pub mod template;
pub mod text;

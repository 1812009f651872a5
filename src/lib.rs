//! A catalog of Japanese administrative regions (JCC cities, JCG districts and wards)
//! for amateur-radio award tracking: the upstream lists are decoded from Windows-31J,
//! parsed line by line with three grammars, merged by region code and written as CSV
//! rows joined to the prefecture table.

pub mod catalog;
pub mod csv;
pub mod decode;
pub mod grammar;
pub mod load;
pub mod pipeline;
pub mod prefecture;
pub mod region;
pub mod text;

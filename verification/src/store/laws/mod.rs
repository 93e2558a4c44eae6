//! What the operations of a store are for: how what is read behind them relates to what was
//! read before and to what they were given.

pub mod drops;
pub mod history;
pub mod memories;
pub mod merging;
pub mod ordering;
pub mod publishing;
pub mod reading;
pub mod records;
pub mod refusing;
pub mod rows;
pub mod searching;
pub mod shadow;

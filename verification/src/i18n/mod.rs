pub mod relative_date;
